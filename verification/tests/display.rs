use kvm_rs::display::{detect_edge_transition, DisplaySize, ScreenEdge};

#[test]
fn test_detect_edge_transition_left() {
    let display = DisplaySize::default();
    assert_eq!(detect_edge_transition(2, 500, &display, 5), Some(ScreenEdge::Left));
}

#[test]
fn test_detect_edge_transition_right() {
    let display = DisplaySize::default();
    assert_eq!(detect_edge_transition(1918, 500, &display, 5), Some(ScreenEdge::Right));
}

#[test]
fn test_detect_edge_transition_center() {
    let display = DisplaySize::default();
    assert_eq!(detect_edge_transition(500, 500, &display, 5), None);
}

#[test]
fn test_detect_edge_transition_zero_display() {
    let display = DisplaySize { width: 0, height: 0 };
    assert_eq!(detect_edge_transition(0, 0, &display, 5), None);
}

#[test]
fn test_edge_transition_corners() {
    let display = DisplaySize { width: 1920, height: 1080 };
    assert_eq!(detect_edge_transition(0, 0, &display, 5), Some(ScreenEdge::Left));
    assert_eq!(detect_edge_transition(1919, 1079, &display, 5), Some(ScreenEdge::Right));
}

#[test]
fn top_and_bottom_edges_and_negative_threshold() {
    let display = DisplaySize { width: 1920, height: 1080 };
    assert_eq!(detect_edge_transition(500, 3, &display, 5), Some(ScreenEdge::Top));
    assert_eq!(detect_edge_transition(500, 1074, &display, 5), Some(ScreenEdge::Bottom));
    assert_eq!(detect_edge_transition(500, 1073, &display, 5), None);
    assert_eq!(detect_edge_transition(0, 500, &display, -7), Some(ScreenEdge::Left));
    assert_eq!(detect_edge_transition(1, 500, &display, -7), None);
    assert_eq!(detect_edge_transition(1919, 500, &display, -7), Some(ScreenEdge::Right));
}
