use simple_wrapper::config::SimpleWrapperConfig;
use simple_wrapper::events::PopupOutcome;
use simple_wrapper::geometry::{Point, Rectangle, Size};
use simple_wrapper::popup::{
    find_parent, popup_event, PopupEvent, PopupState, PositionerState, WindowPlace,
};
use simple_wrapper::space::SimpleWrapperSpace;

fn positioner() -> PositionerState {
    PositionerState {
        rect_size: Size { w: 40, h: 30 },
        anchor_rect: Rectangle {
            loc: Point { x: 3, y: 4 },
            size: Size { w: 5, h: 6 },
        },
        anchor_edges: 8,
        gravity: 2,
        constraint_adjustment: 63,
        offset: Point { x: -1, y: 1 },
        reactive: true,
        parent_size: Some(Size { w: 100, h: 50 }),
    }
}

fn windows() -> Vec<WindowPlace> {
    vec![
        WindowPlace { surface: 7, loc: Point { x: 1, y: 2 } },
        WindowPlace { surface: 8, loc: Point { x: 10, y: 20 } },
        WindowPlace { surface: 8, loc: Point { x: 0, y: 0 } },
    ]
}

fn space_with_popup(surface: u64) -> SimpleWrapperSpace {
    let mut space = SimpleWrapperSpace::new(SimpleWrapperConfig::default());
    space.add_popup(10 * surface, surface, Some(7), &windows(), &positioner(), 3);
    space
}

#[test]
fn events_change_the_state_of_a_popup() {
    let configure = PopupEvent::Configure { x: 1, y: 2, width: 3, height: 4 };
    let configured = Some(PopupState::Configure { x: 1, y: 2, width: 3, height: 4 });
    assert_eq!(popup_event(None, configure), (configured, true));
    assert_eq!(popup_event(Some(PopupState::WaitConfigure), configure), (configured, true));
    assert_eq!(
        popup_event(configured, PopupEvent::PopupDone),
        (Some(PopupState::Closed), false)
    );
    assert_eq!(
        popup_event(None, PopupEvent::Repositioned { token: 9 }),
        (Some(PopupState::Repositioned(9)), false)
    );
    assert_eq!(popup_event(configured, PopupEvent::Other), (configured, false));
}

#[test]
fn closed_popup_stays_closed() {
    let closed = Some(PopupState::Closed);
    let configure = PopupEvent::Configure { x: 1, y: 2, width: 3, height: 4 };
    for event in [configure, PopupEvent::PopupDone, PopupEvent::Repositioned { token: 1 }, PopupEvent::Other] {
        assert_eq!(popup_event(closed, event), (closed, false));
    }
}

#[test]
fn parent_is_the_first_window_with_the_surface() {
    assert_eq!(find_parent(&windows(), Some(8)), Some(1));
    assert_eq!(find_parent(&windows(), Some(9)), None);
    assert_eq!(find_parent(&windows(), None), None);
    assert_eq!(find_parent(&vec![], Some(8)), None);
}

#[test]
fn popup_is_placed_relative_to_its_window() {
    let mut space = SimpleWrapperSpace::new(SimpleWrapperConfig::default());
    let requests = space.add_popup(1, 99, Some(8), &windows(), &positioner(), 3).unwrap();
    assert_eq!(requests.size, Size { w: 40, h: 30 });
    assert_eq!(requests.anchor_rect.loc, Point { x: 13, y: 24 });
    assert_eq!(requests.anchor_rect.size, Size { w: 5, h: 6 });
    assert_eq!(requests.anchor, 8);
    assert_eq!(requests.gravity, 2);
    assert_eq!(requests.constraint_adjustment, 63);
    assert_eq!(requests.offset, Point { x: -1, y: 1 });
    assert!(requests.reactive);
    assert_eq!(requests.parent_size, Some(Size { w: 100, h: 50 }));
    assert_eq!(space.popups().len(), 1);
    let popup = &space.popups()[0];
    assert_eq!(popup.id, 1);
    assert_eq!(popup.s_surface, 99);
    assert!(!popup.dirty);
    assert_eq!(popup.popup_state, Some(PopupState::WaitConfigure));
    assert_eq!(popup.position, Point { x: 0, y: 0 });
    assert!(popup.accumulated_damage.is_empty());
}

#[test]
fn popup_without_a_parent_is_not_added() {
    let mut space = SimpleWrapperSpace::new(SimpleWrapperConfig::default());
    assert_eq!(space.add_popup(1, 99, Some(1), &windows(), &positioner(), 3), None);
    assert_eq!(space.add_popup(1, 99, None, &windows(), &positioner(), 3), None);
    assert!(space.popups().is_empty());
}

#[test]
fn old_positioners_know_no_reactive_popups() {
    let requests = positioner().requests(Point { x: 0, y: 0 }, 2);
    assert!(!requests.reactive);
    assert_eq!(requests.parent_size, None);
    let mut calm = positioner();
    calm.reactive = false;
    assert!(!calm.requests(Point { x: 0, y: 0 }, 3).reactive);
}

#[test]
fn unknown_edges_become_none() {
    let mut state = positioner();
    for raw in 0..9 {
        state.anchor_edges = raw;
        state.gravity = 8 - raw;
        let requests = state.requests(Point { x: 0, y: 0 }, 3);
        assert_eq!(requests.anchor, raw);
        assert_eq!(requests.gravity, 8 - raw);
    }
    for raw in [9, 10, 255, u32::MAX] {
        state.anchor_edges = raw;
        state.gravity = raw;
        let requests = state.requests(Point { x: 0, y: 0 }, 3);
        assert_eq!(requests.anchor, 0);
        assert_eq!(requests.gravity, 0);
    }
}

#[test]
fn anchor_must_stay_a_position() {
    let mut state = positioner();
    assert!(state.can_move_to(Point { x: i32::MAX - 3, y: i32::MAX - 4 }));
    assert!(!state.can_move_to(Point { x: i32::MAX - 2, y: 0 }));
    state.anchor_rect.loc.y = -1;
    assert!(!state.can_move_to(Point { x: 0, y: i32::MIN }));
}

#[test]
fn changed_popup_is_marked() {
    let mut space = space_with_popup(5);
    assert!(!space.dirty_popup(6, 11));
    assert!(!space.popups()[0].dirty);
    assert_eq!(space.dirty_time(99), 11);
    assert!(space.dirty_popup(5, 12));
    assert!(space.popups()[0].dirty);
    assert_eq!(space.dirty_time(99), 12);
}

#[test]
fn popup_of_the_space_takes_notice_of_events() {
    let mut space = space_with_popup(5);
    let configure = PopupEvent::Configure { x: 1, y: 2, width: 3, height: 4 };
    assert_eq!(space.handle_popup_event(5, configure), None);
    assert_eq!(space.popups()[0].popup_state, Some(PopupState::WaitConfigure));
    assert_eq!(space.handle_popup_event(50, configure), Some(true));
    assert_eq!(
        space.popups()[0].popup_state,
        Some(PopupState::Configure { x: 1, y: 2, width: 3, height: 4 })
    );
    assert_eq!(space.handle_popup_event(50, PopupEvent::PopupDone), Some(false));
    assert_eq!(space.handle_popup_event(50, configure), Some(false));
    assert_eq!(space.popups()[0].popup_state, Some(PopupState::Closed));
}

#[test]
fn popups_that_are_gone_are_dropped() {
    let mut space = space_with_popup(1);
    for surface in 2..5 {
        space.add_popup(10 * surface, surface, Some(7), &windows(), &positioner(), 3);
    }
    let gone = PopupOutcome {
        keep: false,
        dirty: true,
        popup_state: None,
        position: Point { x: 0, y: 0 },
    };
    let kept = PopupOutcome {
        keep: true,
        dirty: true,
        popup_state: None,
        position: Point { x: 8, y: 9 },
    };
    space.sweep_popups(&vec![gone, kept, gone, kept]);
    assert_eq!(space.popups().len(), 2);
    assert_eq!(space.popups()[0].s_surface, 2);
    assert_eq!(space.popups()[1].s_surface, 4);
    for popup in space.popups() {
        assert!(popup.dirty);
        assert_eq!(popup.popup_state, None);
        assert_eq!(popup.position, Point { x: 8, y: 9 });
    }
}

#[test]
fn popups_on_one_surface_have_events_of_their_own() {
    let mut space = SimpleWrapperSpace::new(SimpleWrapperConfig::default());
    space.add_popup(1, 5, Some(7), &windows(), &positioner(), 3).unwrap();
    space.add_popup(2, 5, Some(7), &windows(), &positioner(), 3).unwrap();
    assert_eq!(space.handle_popup_event(2, PopupEvent::PopupDone), Some(false));
    assert_eq!(space.popups()[0].popup_state, Some(PopupState::WaitConfigure));
    assert_eq!(space.popups()[1].popup_state, Some(PopupState::Closed));
    let configure = PopupEvent::Configure { x: 1, y: 2, width: 3, height: 4 };
    assert_eq!(space.handle_popup_event(2, configure), Some(false));
    assert_eq!(space.handle_popup_event(1, configure), Some(true));
    assert_eq!(
        space.popups()[0].popup_state,
        Some(PopupState::Configure { x: 1, y: 2, width: 3, height: 4 })
    );
    assert_eq!(space.popups()[1].popup_state, Some(PopupState::Closed));
    // a change of the surface is that of the first popup with it
    assert!(space.dirty_popup(5, 1));
    assert!(space.popups()[0].dirty);
    assert!(!space.popups()[1].dirty);
}

#[test]
fn gone_popup_goes_on_from_the_state_it_was_left_with() {
    let mut space = space_with_popup(5);
    assert!(space.has_popup(50));
    let left = PopupOutcome {
        keep: false,
        dirty: false,
        popup_state: Some(PopupState::WaitConfigure),
        position: Point { x: 0, y: 0 },
    };
    space.sweep_popups(&vec![left]);
    assert!(!space.has_popup(50));
    // the surface is given to another popup
    space.add_popup(51, 5, Some(7), &windows(), &positioner(), 3).unwrap();
    let configure = PopupEvent::Configure { x: 1, y: 2, width: 3, height: 4 };
    assert_eq!(space.handle_popup_event(50, configure), None);
    assert_eq!(space.popups()[0].popup_state, Some(PopupState::WaitConfigure));
    assert_eq!(
        popup_event(left.popup_state, configure),
        (Some(PopupState::Configure { x: 1, y: 2, width: 3, height: 4 }), true)
    );
}
