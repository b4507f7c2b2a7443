//! Verified core of a live plotting monitor: the line protocol that data
//! sources speak over TCP, the bounded per-channel sample windows, the
//! heat-map grid layout and the plot-window selection state.

pub mod graph_session;
pub mod heatmap_grid;
pub mod heatmap_session;
pub mod plot_options;
pub mod selection;
pub mod text;
pub mod window;
