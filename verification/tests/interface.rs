use scavnet::interface::{
    redraw_due, InterfaceNavigationState, InterfaceRegion, InterfaceRegionState, InterfaceWindow,
    KeyInput,
};

#[test]
fn region_is_active_only_where_the_operator_is() {
    let state = InterfaceNavigationState {
        region: InterfaceRegion::Loop1,
        window: InterfaceWindow::Main,
    };
    assert_eq!(state.get_region_state(InterfaceRegion::Loop1), InterfaceRegionState::Active);
    assert_eq!(state.get_region_state(InterfaceRegion::Loop2), InterfaceRegionState::Inactive);
    assert_eq!(state.get_region_state(InterfaceRegion::Nowhere), InterfaceRegionState::Inactive);
    let start = InterfaceNavigationState::new();
    assert_eq!(start.window, InterfaceWindow::Main);
    assert_eq!(start.get_region_state(InterfaceRegion::Nowhere), InterfaceRegionState::Active);
}

#[test]
fn q_asks_for_the_end_only_outside_regions_and_only_when_pressed() {
    let mut state = InterfaceNavigationState::new();
    assert!(!state.react_to_key_events(None, true));
    assert!(!state.react_to_key_events(Some(KeyInput::Char('q')), false));
    assert!(!state.react_to_key_events(Some(KeyInput::Char('a')), true));
    assert!(!state.react_to_key_events(Some(KeyInput::Other), true));
    assert!(state.react_to_key_events(Some(KeyInput::Char('q')), true));
    state.region = InterfaceRegion::Mutations;
    assert!(!state.react_to_key_events(Some(KeyInput::Char('q')), true));
    assert_eq!(state.region, InterfaceRegion::Mutations);
}

#[test]
fn escape_leaves_the_region() {
    let mut state = InterfaceNavigationState {
        region: InterfaceRegion::Drop1,
        window: InterfaceWindow::Main,
    };
    assert!(!state.react_to_key_events(Some(KeyInput::Esc), false));
    assert_eq!(state.region, InterfaceRegion::Drop1);
    assert!(!state.react_to_key_events(Some(KeyInput::Esc), true));
    assert_eq!(state.region, InterfaceRegion::Nowhere);
    assert!(state.react_to_key_events(Some(KeyInput::Char('q')), true));
}

#[test]
fn the_screen_is_drawn_in_every_cycle_that_the_rate_divides() {
    assert!(redraw_due(0, 288));
    assert!(!redraw_due(1, 288));
    assert!(!redraw_due(287, 288));
    assert!(redraw_due(288, 288));
    assert!(redraw_due(576, 288));
    assert!(redraw_due(7, 1));
    assert!(redraw_due(7, 0));
    assert!(redraw_due(u128::MAX, u128::MAX));
    assert!(!redraw_due(u128::MAX - 1, u128::MAX));
}
