use plot_monitor::heatmap_grid::{extent_bound, heatmap_rows, HeatmapParams};
use plot_monitor::plot_options::{
    channel_choices, overlay_channels, side_panel_rgb, GraphSettings, PlotMode,
};
use plot_monitor::selection::PlotSelection;
use plot_monitor::window::push_capped;

#[test]
fn push_capped_keeps_recent_samples() {
    let mut v = vec![1, 2, 3];
    push_capped(&mut v, 4, 3);
    assert_eq!(v, vec![2, 3, 4]);
    push_capped(&mut v, 5, 5);
    assert_eq!(v, vec![2, 3, 4, 5]);
    push_capped(&mut v, 6, 2);
    assert_eq!(v, vec![5, 6]);
    push_capped(&mut v, 7, 0);
    assert!(v.is_empty());
}

#[test]
fn push_capped_stream_keeps_last_window() {
    let mut v: Vec<(f64, f64)> = Vec::new();
    for k in 1..=10 {
        push_capped(&mut v, (k as f64, -(k as f64)), 4);
    }
    assert_eq!(v, vec![(7.0, -7.0), (8.0, -8.0), (9.0, -9.0), (10.0, -10.0)]);
}

#[test]
fn heatmap_rows_fill_row_by_row() {
    let data: Vec<(f64, f64)> = (0..7).map(|k| (k as f64 * 10.0, k as f64)).collect();
    let rows = heatmap_rows(&data, 3, 2);
    assert_eq!(rows, vec![vec![], vec![0.0, 10.0, 20.0], vec![30.0, 40.0, 50.0]]);
}

#[test]
fn heatmap_rows_degenerate_dimensions() {
    let data: Vec<(f64, f64)> = Vec::new();
    assert_eq!(heatmap_rows(&data, 0, 3), vec![Vec::<f64>::new(); 4]);
    assert_eq!(heatmap_rows(&data, -2, 2), vec![Vec::<f64>::new(); 3]);
    assert_eq!(heatmap_rows(&data, 4, -1), vec![Vec::<f64>::new()]);
}

#[test]
fn heatmap_params_default_and_fit() {
    let p = HeatmapParams::default();
    assert_eq!(p, HeatmapParams { settings: false, legend: false, x_num: 5, y_num: 10 });
    assert!(p.fits(50));
    assert!(!p.fits(49));
    let q = HeatmapParams { x_num: -1, ..p };
    assert!(q.fits(0));
    let mut r = p;
    r.toggle_settings();
    assert!(r.settings);
    r.toggle_settings();
    assert!(!r.settings);
    r.toggle_settings();
    r.close_settings();
    assert_eq!(r, p);
}

#[test]
fn extent_bounds() {
    assert_eq!(extent_bound(50, 10), 5);
    assert_eq!(extent_bound(49, 5), 9);
    assert_eq!(extent_bound(50, 1), 50);
    assert_eq!(extent_bound(0, 0), 0);
    assert_eq!(extent_bound(5, 0), usize::MAX);
    assert_eq!(extent_bound(5, -3), 0);
    assert_eq!(extent_bound(0, 7), 0);
}

#[test]
fn extent_bound_matches_float_division() {
    for len in [0usize, 1, 7, 49, 50, 51, 1000, 123457] {
        for other in [-3i32, -1, 0, 1, 2, 3, 7, 10, 49, 1000] {
            let float = (len as f64 / other as f64) as usize;
            assert_eq!(extent_bound(len, other), float, "len {len} other {other}");
        }
    }
}

#[test]
fn plot_mode_labels() {
    assert_eq!(PlotMode::Scatter.label(), "Scatter");
    assert_eq!(PlotMode::Line.label(), "Line");
}

#[test]
fn graph_settings_toggles() {
    let mut g = GraphSettings::default();
    assert!(!g.settings && !g.legend && !g.x_rescale && !g.y_rescale);
    assert_eq!(g.addplots, [0, 0, 0, 0]);
    assert_eq!(g.plot_mode, PlotMode::Scatter);
    g.toggle_settings();
    g.toggle_legend();
    assert!(g.settings && g.legend);
    g.select_overlay(2, 5);
    assert_eq!(g.addplots, [0, 0, 5, 0]);
    g.close_settings();
    assert!(!g.settings && g.legend);
}

#[test]
fn channel_choices_skip_own_channel() {
    let keys = vec!["a".to_string(), "b".to_string(), "c".to_string()];
    let choices = channel_choices(&keys, &"b".to_string());
    assert_eq!(choices, vec!["Unselected", "a", "c"]);
    let none = channel_choices(&Vec::new(), &"b".to_string());
    assert_eq!(none, vec!["Unselected"]);
}

#[test]
fn overlay_channels_follow_slots() {
    let choices = vec!["Unselected".to_string(), "a".to_string(), "c".to_string()];
    let chosen = overlay_channels(&[0, 2, 1, 2], &choices);
    assert_eq!(chosen, vec!["Unselected", "c", "a", "c"]);
}

#[test]
fn side_panel_colours() {
    assert_eq!(side_panel_rgb(true), (0, 10, 18));
    assert_eq!(side_panel_rgb(false), (0, 100, 180));
}

#[test]
fn selection_toggle_twice_restores() {
    let mut s = PlotSelection::new();
    let a = "a".to_string();
    let b = "b".to_string();
    assert!(!s.contains(&a));
    s.toggle(&a);
    s.toggle(&b);
    assert!(s.contains(&a) && s.contains(&b));
    assert_eq!(s.keys(), &vec!["a".to_string(), "b".to_string()]);
    s.toggle(&a);
    assert_eq!(s.keys(), &vec!["b".to_string()]);
    s.toggle(&a);
    assert_eq!(s.keys(), &vec!["b".to_string(), "a".to_string()]);
}
