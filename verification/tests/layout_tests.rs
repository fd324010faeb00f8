use spectatui::layout::{CustomLayout, DashboardSizes, PaneKind};

#[test]
fn runtime_custom_height_does_not_change_editor_default() {
    let mut sizes = DashboardSizes::default();
    sizes.set_custom_pane_height(PaneKind::WorkflowTimeline, 275);

    assert_eq!(sizes.custom_pane_height(PaneKind::WorkflowTimeline, 2), 275);
    assert_eq!(sizes.custom_pane_height(PaneKind::AgentOutput, 2), 200);
}

#[test]
fn toggling_a_pane_twice_restores_it() {
    let mut layout = CustomLayout::default();
    let before: Vec<bool> = layout.panes.iter().map(|p| p.visible).collect();
    layout.toggle_visibility(PaneKind::AgentOutput);
    assert!(!layout.panes[2].visible);
    layout.toggle_visibility(PaneKind::AgentOutput);
    let after: Vec<bool> = layout.panes.iter().map(|p| p.visible).collect();
    assert_eq!(before, after);
}

#[test]
fn resize_stays_within_one_to_four() {
    let mut layout = CustomLayout::default();
    for _ in 0..5 {
        layout.resize_pane(PaneKind::FeatureList, 1);
    }
    assert_eq!(layout.panes[0].size, 4);
    for _ in 0..5 {
        layout.resize_pane(PaneKind::FeatureList, -1);
    }
    assert_eq!(layout.panes[0].size, 1);
}

#[test]
fn swapping_exchanges_orders_of_neighbouring_visible_panes() {
    let mut layout = CustomLayout::default();
    layout.swap_order(1, 1);
    assert_eq!(layout.panes[1].order, 2);
    assert_eq!(layout.panes[2].order, 1);
    let visible = layout.visible_panes();
    assert_eq!(visible[1].kind, PaneKind::AgentOutput);
    assert_eq!(visible[2].kind, PaneKind::WorkflowTimeline);
}

#[test]
fn height_read_after_write() {
    let mut sizes = DashboardSizes::default();
    sizes.set_custom_pane_height(PaneKind::SpecBrowser, 10);
    sizes.set_custom_pane_height(PaneKind::SpecBrowser, 12);
    assert_eq!(sizes.custom_pane_height(PaneKind::SpecBrowser, 3), 12);
    assert_eq!(sizes.custom_pane_heights.len(), 1);
}
