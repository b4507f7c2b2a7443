use plot_monitor::graph_session::{GraphAction, GraphPhase, GraphSession};
use plot_monitor::heatmap_session::{HeatPhase, HeatmapAction, HeatmapSession, FRAME_LEN};
use plot_monitor::text::trim_line;

fn parse(line: &str) -> Option<f64> {
    trim_line(line).parse::<f64>().ok()
}

fn feed_graph(session: &mut GraphSession<f64>, line: &str) -> GraphAction<f64> {
    session.on_line(line, parse(line))
}

fn feed_heat(session: &mut HeatmapSession<f64>, line: &str) -> HeatmapAction<f64> {
    session.on_line(line, parse(line))
}

#[test]
fn trim_removes_surrounding_white_space() {
    assert_eq!(trim_line("  Sinus \n"), "Sinus");
    assert_eq!(trim_line("\t\r\n"), "");
    assert_eq!(trim_line(""), "");
    assert_eq!(trim_line(" a b "), "a b");
    assert_eq!(trim_line("\u{3000}x\u{85}\u{2028}"), "x");
    assert_eq!(trim_line("\u{200b}x"), "\u{200b}x");
}

#[test]
fn trim_agrees_with_str_trim() {
    for s in ["\u{a0}ab\u{1680}", "\u{2000}\u{200a}q\u{202f}\u{205f}", "x\u{0b}\u{0c}", "plain"] {
        assert_eq!(trim_line(s), s.trim());
    }
}

#[test]
fn graph_session_starts_waiting_for_a_name() {
    let s: GraphSession<f64> = GraphSession::new(0.0);
    assert_eq!(s.phase(), GraphPhase::Name);
    assert_eq!(s.channel(), "temp");
}

#[test]
fn graph_session_follows_the_guide_protocol() {
    let mut s = GraphSession::new(0.0);
    match feed_graph(&mut s, "Sinus\n") {
        GraphAction::Register(name) => assert_eq!(name, "Sinus"),
        _ => panic!("the first line names the channel"),
    }
    assert_eq!(s.channel(), "Sinus");
    assert_eq!(s.phase(), GraphPhase::X);
    let mut appended = Vec::new();
    for (x, y) in [(0.0, 0.0), (0.005, 0.004999979), (0.01, 0.0099998)] {
        assert!(matches!(feed_graph(&mut s, &format!("{x}\n")), GraphAction::Stored));
        match feed_graph(&mut s, &format!("{y}\n")) {
            GraphAction::Append(ax, ay) => appended.push((ax, ay)),
            _ => panic!("a y line appends a sample"),
        }
    }
    assert_eq!(appended, vec![(0.0, 0.0), (0.005, 0.004999979), (0.01, 0.0099998)]);
    assert_eq!(s.phase(), GraphPhase::X);
}

#[test]
fn graph_session_keeps_last_x_after_bad_x() {
    let mut s = GraphSession::new(0.0);
    feed_graph(&mut s, "ch");
    assert!(matches!(feed_graph(&mut s, "1"), GraphAction::Stored));
    assert!(matches!(feed_graph(&mut s, "2"), GraphAction::Append(x, y) if x == 1.0 && y == 2.0));
    assert!(matches!(feed_graph(&mut s, "oops"), GraphAction::Unparsed));
    assert_eq!(s.phase(), GraphPhase::Y);
    assert!(matches!(feed_graph(&mut s, "3"), GraphAction::Append(x, y) if x == 1.0 && y == 3.0));
}

#[test]
fn graph_session_bad_y_skips_the_sample() {
    let mut s = GraphSession::new(0.0);
    feed_graph(&mut s, "ch");
    feed_graph(&mut s, "4");
    assert!(matches!(feed_graph(&mut s, "nan?"), GraphAction::Unparsed));
    assert_eq!(s.phase(), GraphPhase::X);
}

#[test]
fn graph_session_before_any_x_uses_zero() {
    let mut s = GraphSession::new(0.0);
    feed_graph(&mut s, "ch");
    feed_graph(&mut s, "x?");
    assert!(matches!(feed_graph(&mut s, "7"), GraphAction::Append(x, y) if x == 0.0 && y == 7.0));
}

#[test]
fn heatmap_session_collects_a_frame() {
    let mut s: HeatmapSession<f64> = HeatmapSession::new();
    assert_eq!(s.phase(), HeatPhase::Name);
    assert_eq!(s.channel(), "temp");
    match feed_heat(&mut s, " Heat\n") {
        HeatmapAction::Register(name) => assert_eq!(name, "Heat"),
        _ => panic!("the first line names the channel"),
    }
    assert_eq!(s.phase(), HeatPhase::Values);
    for k in 0..FRAME_LEN - 1 {
        assert!(matches!(feed_heat(&mut s, &format!("{}\n", k * 2)), HeatmapAction::Collected));
    }
    assert_eq!(s.phase(), HeatPhase::Last);
    assert_eq!(s.counter(), 49);
    match feed_heat(&mut s, "98\n") {
        HeatmapAction::Replace(frame) => {
            let expected: Vec<(f64, i32)> = (0..FRAME_LEN).map(|k| ((k * 2) as f64, k)).collect();
            assert_eq!(frame, expected);
        }
        _ => panic!("the last value completes the frame"),
    }
    assert_eq!(s.phase(), HeatPhase::Values);
    assert_eq!(s.counter(), 0);
}

#[test]
fn heatmap_session_bad_value_leaves_a_gap() {
    let mut s: HeatmapSession<f64> = HeatmapSession::new();
    feed_heat(&mut s, "h");
    assert!(matches!(feed_heat(&mut s, "x"), HeatmapAction::Unparsed));
    assert_eq!(s.counter(), 1);
    for k in 1..FRAME_LEN - 1 {
        feed_heat(&mut s, &format!("{k}"));
    }
    match feed_heat(&mut s, "49") {
        HeatmapAction::Replace(frame) => {
            assert_eq!(frame.len(), 49);
            assert_eq!(frame[0], (1.0, 1));
            assert_eq!(frame[48], (49.0, 49));
        }
        _ => panic!("the last value completes the frame"),
    }
}

#[test]
fn heatmap_session_bad_last_value_keeps_counting() {
    let mut s: HeatmapSession<f64> = HeatmapSession::new();
    feed_heat(&mut s, "h");
    for k in 0..FRAME_LEN - 1 {
        feed_heat(&mut s, &format!("{k}"));
    }
    assert!(matches!(feed_heat(&mut s, "?"), HeatmapAction::Unparsed));
    assert_eq!(s.phase(), HeatPhase::Values);
    assert_eq!(s.counter(), 49);
    assert!(matches!(feed_heat(&mut s, "1"), HeatmapAction::Collected));
    assert_eq!(s.counter(), 50);
    assert_eq!(s.phase(), HeatPhase::Values);
}
