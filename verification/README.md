# plot_monitor

A live plotting monitor: data sources connect over TCP and stream samples,
which are shown as graphs or heat maps.

- `src/` is the verified library: the line protocols of the graph and
  heat-map ports (`graph_session`, `heatmap_session`, `text`), the bounded
  per-channel sample window (`window`), the heat-map grid layout
  (`heatmap_grid`), the graph window options (`plot_options`) and the set of
  open plot windows (`selection`).
- `app/` is the program around it: the egui window, the tokio servers and
  the shared channel store, and the drawing with plotters.
