use simple_wrapper::config::{KeyboardInteractivity, Layer, SimpleWrapperConfig};
use simple_wrapper::events::{ChildPoll, EventAction, TurnStart};
use simple_wrapper::geometry::Size;
use simple_wrapper::layer::{LayerRequests, LayerSurfaceEvent, OutputError};
use simple_wrapper::space::{SimpleWrapperSpace, SpaceEvent, WindowState};

fn config() -> SimpleWrapperConfig {
    let mut config = SimpleWrapperConfig::default();
    config.anchor = 5;
    config.layer = Layer::Top;
    config.keyboard_interactivity = KeyboardInteractivity::OnDemand;
    config.width = Some(10..100);
    config.height = Some(20..50);
    config
}

fn active(w: i32, h: i32) -> Option<WindowState> {
    Some(WindowState { bbox_size: Size { w, h }, activated: true })
}

/// A space on an output that has been given the size 30x30.
fn shown() -> SimpleWrapperSpace {
    let mut space = SimpleWrapperSpace::new(config());
    space.add_output(Some(1), true, 2, None).unwrap();
    space.layer_surface_event(LayerSurfaceEvent::Configure { serial: 1, width: 30, height: 30 });
    space.handle_events();
    space.finish_render();
    space
}

#[test]
fn sizes_are_constrained() {
    let space = SimpleWrapperSpace::new(config());
    assert_eq!(space.constrain_dim(Size { w: 1, h: 1 }), Size { w: 10, h: 20 });
    assert_eq!(space.constrain_dim(Size { w: 60, h: 30 }), Size { w: 60, h: 30 });
    assert_eq!(space.constrain_dim(Size { w: 101, h: 51 }), Size { w: 100, h: 50 });
    assert_eq!(space.constrain_dim(Size { w: 100, h: 50 }), Size { w: 100, h: 50 });
}

#[test]
fn sizes_without_a_range_have_a_pixel() {
    let space = SimpleWrapperSpace::default();
    assert_eq!(space.constrain_dim(Size { w: 0, h: 0 }), Size { w: 1, h: 1 });
    assert_eq!(space.constrain_dim(Size { w: 7, h: 0 }), Size { w: 7, h: 1 });
}

#[test]
fn range_the_wrong_way_round() {
    let mut config = SimpleWrapperConfig::default();
    config.width = Some(std::ops::Range { start: 50, end: 20 });
    let space = SimpleWrapperSpace::new(config);
    assert_eq!(space.constrain_dim(Size { w: 30, h: 1 }).w, 50);
    assert_eq!(space.constrain_dim(Size { w: 50, h: 1 }).w, 20);
}

#[test]
fn sizes_that_cannot_be_constrained() {
    let mut config = config();
    assert!(config.can_constrain(Size { w: 0, h: 0 }));
    assert!(!config.can_constrain(Size { w: -1, h: 0 }));
    assert!(!config.can_constrain(Size { w: 0, h: -1 }));
    config.width = Some(0x8000_0000..u32::MAX);
    assert!(!config.can_constrain(Size { w: 1, h: 1 }));
}

#[test]
fn new_space_is_idle() {
    let space = SimpleWrapperSpace::new(config());
    assert_eq!(space.config.anchor, 5);
    assert_eq!(space.config().anchor, 5);
    assert_eq!(space.spawn_clients(), Ok(()));
    assert_eq!(space.dirty_time(77), 77);
    assert_eq!(space.pending_dimensions(), None);
    assert!(!space.full_clear());
    assert_eq!(space.next_space_event(), None);
    assert_eq!(space.dimensions(), Size { w: 0, h: 0 });
    assert_eq!(space.focused_surface(), None);
    assert_eq!(space.output(), None);
    assert!(!space.is_placed());
    assert!(space.popups().is_empty());
}

#[test]
fn output_is_added_once() {
    let mut space = SimpleWrapperSpace::new(config());
    assert_eq!(
        space.add_output(Some(1), true, 2, Some(3)),
        Ok(LayerRequests {
            layer: Layer::Top,
            anchor: 5,
            keyboard_interactivity: KeyboardInteractivity::OnDemand,
            width: 10,
            height: 20,
        })
    );
    assert_eq!(space.output(), Some(1));
    assert!(space.is_placed());
    assert_eq!(space.focused_surface(), Some(3));
    assert_eq!(space.dimensions(), Size { w: 10, h: 20 });
    assert_eq!(space.next_space_event(), Some(SpaceEvent::WaitConfigure { width: 10, height: 20 }));
    assert!(space.full_clear());
    assert_eq!(space.add_output(None, false, 9, None), Err(OutputError::AlreadyAdded));
    assert_eq!(space.output(), Some(1));
    space.update_pointer(None);
    assert!(space.handle_button(2));
    assert!(!space.handle_button(9));
    assert_eq!(OutputError::AlreadyAdded.message(), "output already added!");
}

#[test]
fn output_without_a_description_is_not_remembered() {
    let mut space = SimpleWrapperSpace::new(config());
    assert!(space.add_output(Some(1), false, 2, None).is_ok());
    assert_eq!(space.output(), None);
    assert_eq!(space.add_output(Some(1), true, 2, None), Err(OutputError::AlreadyAdded));
}

#[test]
fn configurations_are_acknowledged_until_the_end() {
    let mut space = SimpleWrapperSpace::new(config());
    let configure = LayerSurfaceEvent::Configure { serial: 4, width: 5, height: 6 };
    assert_eq!(space.layer_surface_event(configure), Some(4));
    assert_eq!(
        space.next_space_event(),
        Some(SpaceEvent::Configure { width: 5, height: 6, serial: 4 })
    );
    assert_eq!(space.layer_surface_event(LayerSurfaceEvent::Other), None);
    assert_eq!(space.layer_surface_event(LayerSurfaceEvent::Closed), None);
    assert_eq!(space.next_space_event(), Some(SpaceEvent::Quit));
    assert_eq!(space.layer_surface_event(configure), None);
    assert_eq!(space.next_space_event(), Some(SpaceEvent::Quit));
}

#[test]
fn quitting_kills_the_client() {
    let mut space = SimpleWrapperSpace::new(config());
    space.layer_surface_event(LayerSurfaceEvent::Closed);
    assert_eq!(space.handle_events(), EventAction::Nothing);
    space.client_spawned();
    space.layer_surface_event(LayerSurfaceEvent::Closed);
    assert_eq!(space.handle_events(), EventAction::KillChild);
    assert_eq!(space.next_space_event(), None);
}

#[test]
fn space_takes_over_the_size_it_is_given() {
    let mut space = SimpleWrapperSpace::new(config());
    space.add_output(Some(1), true, 2, None).unwrap();
    assert_eq!(space.handle_events(), EventAction::Nothing);
    space.layer_surface_event(LayerSurfaceEvent::Configure { serial: 1, width: 30, height: 40 });
    assert_eq!(space.handle_events(), EventAction::Resize(Size { w: 30, h: 40 }));
    assert_eq!(space.dimensions(), Size { w: 30, h: 40 });
    assert!(space.full_clear());
    assert_eq!(space.handle_events(), EventAction::Render);
    space.layer_surface_event(LayerSurfaceEvent::Configure { serial: 2, width: 30, height: 40 });
    assert_eq!(space.handle_events(), EventAction::Nothing);
}

#[test]
fn pending_size_is_asked_for() {
    let mut space = shown();
    assert!(space.dirty_window(active(60, 10), 7));
    assert_eq!(space.dirty_time(99), 7);
    assert_eq!(space.pending_dimensions(), Some(Size { w: 60, h: 30 }));
    // a configuration that comes first does not change the size
    space.layer_surface_event(LayerSurfaceEvent::Configure { serial: 1, width: 31, height: 31 });
    assert_eq!(space.handle_events(), EventAction::Nothing);
    assert_eq!(space.dimensions(), Size { w: 30, h: 30 });
    assert_eq!(space.handle_events(), EventAction::RequestSize { width: 60, height: 30 });
    assert_eq!(space.pending_dimensions(), None);
    assert_eq!(space.next_space_event(), Some(SpaceEvent::WaitConfigure { width: 60, height: 30 }));
    assert_eq!(space.handle_events(), EventAction::Nothing);
    space.layer_surface_event(LayerSurfaceEvent::Configure { serial: 2, width: 60, height: 30 });
    assert_eq!(space.handle_events(), EventAction::Resize(Size { w: 60, h: 30 }));
    assert_eq!(space.handle_events(), EventAction::Render);
}

#[test]
fn space_on_an_output_grows_in_both_directions() {
    let mut space = shown();
    assert!(space.dirty_window(active(60, 45), 1));
    assert_eq!(space.pending_dimensions(), Some(Size { w: 60, h: 45 }));
    assert!(!space.full_clear());
    // a smaller window leaves it at that
    assert!(space.dirty_window(active(10, 20), 2));
    assert_eq!(space.pending_dimensions(), Some(Size { w: 60, h: 45 }));
    // and a larger one makes it grow on, within its bounds
    assert!(space.dirty_window(active(500, 45), 3));
    assert_eq!(space.pending_dimensions(), Some(Size { w: 100, h: 45 }));
}

#[test]
fn space_does_not_ask_twice_for_what_it_waits_for() {
    let mut space = shown();
    space.dirty_window(active(60, 45), 1);
    space.handle_events();
    space.dirty_window(active(60, 45), 2);
    assert_eq!(space.pending_dimensions(), None);
    space.dirty_window(active(61, 45), 3);
    assert_eq!(space.pending_dimensions(), Some(Size { w: 61, h: 45 }));
}

#[test]
fn space_off_any_output_follows_its_window() {
    let mut space = SimpleWrapperSpace::new(config());
    assert!(space.dirty_window(active(60, 10), 1));
    assert_eq!(space.pending_dimensions(), Some(Size { w: 60, h: 20 }));
    assert!(space.full_clear());
    assert!(space.dirty_window(active(40, 30), 2));
    assert_eq!(space.pending_dimensions(), Some(Size { w: 40, h: 30 }));
    space.finish_render();
    assert!(space.dirty_window(active(40, 30), 3));
    assert!(!space.full_clear());
}

#[test]
fn quitting_space_compares_with_its_own_size() {
    let mut space = SimpleWrapperSpace::new(config());
    space.dirty_window(active(40, 30), 0);
    space.finish_render();
    space.layer_surface_event(LayerSurfaceEvent::Closed);
    assert!(space.dirty_window(active(40, 30), 1));
    assert!(space.full_clear());
    assert_eq!(space.pending_dimensions(), Some(Size { w: 40, h: 30 }));
}

#[test]
fn inactive_and_unknown_windows_change_no_size() {
    let mut space = SimpleWrapperSpace::new(config());
    let window = WindowState { bbox_size: Size { w: 60, h: 10 }, activated: false };
    assert!(space.dirty_window(Some(window), 1));
    assert_eq!(space.pending_dimensions(), None);
    assert!(!space.dirty_window(None, 2));
    assert_eq!(space.dirty_time(99), 2);
    assert_eq!(space.pending_dimensions(), None);
    assert!(!space.full_clear());
}

#[test]
fn turn_starts_with_the_client() {
    let mut space = SimpleWrapperSpace::new(config());
    assert_eq!(space.begin_events(ChildPoll::Running, &vec![true]), TurnStart::ChildGone);
    space.client_spawned();
    assert_eq!(space.begin_events(ChildPoll::Exited, &vec![true]), TurnStart::ChildGone);
    assert_eq!(space.begin_events(ChildPoll::Running, &vec![false, true]), TurnStart::Proceed);
    assert_eq!(space.begin_events(ChildPoll::Failed, &vec![false, true]), TurnStart::Proceed);
    assert_eq!(space.begin_events(ChildPoll::Running, &vec![false, false]), TurnStart::ActivateFirst);
    assert_eq!(space.begin_events(ChildPoll::Running, &vec![]), TurnStart::Proceed);
    space.dirty_window(None, 1);
    assert_eq!(space.begin_events(ChildPoll::Running, &vec![]), TurnStart::Abandoned);
}

#[test]
fn surface_of_another_size_is_drawn_whole() {
    let mut space = shown();
    space.check_surface_size(Some(Size { w: 30, h: 30 }));
    assert!(!space.full_clear());
    space.check_surface_size(Some(Size { w: 30, h: 31 }));
    assert!(space.full_clear());
    space.finish_render();
    space.check_surface_size(None);
    assert!(space.full_clear());
}

#[test]
fn turn_ends_with_the_time_of_the_last_change() {
    let mut space = SimpleWrapperSpace::new(config());
    assert_eq!(space.dirty_time(5), 5);
    space.dirty_window(None, 3);
    assert_eq!(space.dirty_time(5), 3);
}

#[test]
fn button_closes_popups_only_beside_the_windows() {
    let mut space = shown();
    assert!(space.handle_button(2));
    assert!(!space.handle_button(3));
    space.add_window(8);
    assert!(space.full_clear());
    assert_eq!(space.focused_surface(), Some(8));
    assert!(!space.handle_button(2));
    space.update_pointer(None);
    assert!(space.handle_button(2));
    space.update_pointer(Some(9));
    assert_eq!(space.focused_surface(), Some(9));
}

#[test]
fn whole_frame_is_drawn_whatever_comes_before_it() {
    let mut space = shown();
    space.check_surface_size(None);
    space.dirty_window(active(60, 45), 1);
    space.handle_events();
    space.layer_surface_event(LayerSurfaceEvent::Configure { serial: 2, width: 30, height: 30 });
    space.handle_events();
    space.update_pointer(Some(3));
    space.dirty_popup(4, 2);
    space.sweep_popups(&vec![]);
    space.check_surface_size(Some(Size { w: 30, h: 30 }));
    space.client_spawned();
    assert!(space.full_clear());
    space.finish_render();
    assert!(!space.full_clear());
}

#[test]
fn place_and_configuration_are_kept() {
    let mut space = shown();
    space.add_window(8);
    space.layer_surface_event(LayerSurfaceEvent::Closed);
    space.handle_events();
    space.finish_render();
    assert!(space.is_placed());
    assert_eq!(space.output(), Some(1));
    assert_eq!(space.config().anchor, 5);
    assert_eq!(space.spawn_clients(), Ok(()));
}

#[test]
fn waiting_space_keeps_its_size() {
    let mut space = SimpleWrapperSpace::new(config());
    space.add_output(Some(1), true, 2, None).unwrap();
    space.dirty_window(active(60, 45), 1);
    space.handle_events();
    space.finish_render();
    assert_eq!(space.next_space_event(), Some(SpaceEvent::WaitConfigure { width: 10, height: 20 }));
    assert_eq!(space.dimensions(), Size { w: 10, h: 20 });
}

#[test]
fn shared_focus_is_seen_by_the_button() {
    let mut space = SimpleWrapperSpace::new(config());
    space.add_output(Some(1), true, 2, Some(3)).unwrap();
    assert!(!space.handle_button(2));
    space.set_focused_surface(None);
    assert!(space.handle_button(2));
    assert!(!space.handle_button(4));
    space.handle_events();
    space.finish_render();
    assert!(space.handle_button(2));
    space.set_focused_surface(Some(5));
    assert_eq!(space.focused_surface(), Some(5));
    assert!(!space.handle_button(2));
}

#[test]
fn shared_event_is_acted_upon() {
    let mut space = shown();
    space.client_spawned();
    assert_eq!(space.handle_events(), EventAction::Render);
    space.set_next_space_event(Some(SpaceEvent::Quit));
    assert_eq!(space.next_space_event(), Some(SpaceEvent::Quit));
    let configure = LayerSurfaceEvent::Configure { serial: 4, width: 5, height: 6 };
    assert_eq!(space.layer_surface_event(configure), None);
    assert_eq!(space.handle_events(), EventAction::KillChild);
    space.set_next_space_event(Some(SpaceEvent::Configure { width: 7, height: 8, serial: 1 }));
    assert_eq!(space.handle_events(), EventAction::Resize(Size { w: 7, h: 8 }));
    space.set_next_space_event(Some(SpaceEvent::WaitConfigure { width: 7, height: 8 }));
    assert_eq!(space.handle_events(), EventAction::Nothing);
    space.set_next_space_event(None);
    assert_eq!(space.handle_events(), EventAction::Render);
}

#[test]
fn events_with_negative_sizes_are_not_valid() {
    assert!(SpaceEvent::Quit.is_valid());
    assert!(SpaceEvent::WaitConfigure { width: 0, height: 0 }.is_valid());
    assert!(!SpaceEvent::WaitConfigure { width: -1, height: 0 }.is_valid());
    assert!(SpaceEvent::Configure { width: 1, height: 0, serial: 0 }.is_valid());
    assert!(!SpaceEvent::Configure { width: 1, height: -1, serial: 0 }.is_valid());
}

#[test]
fn each_extent_keeps_its_order() {
    let space = SimpleWrapperSpace::new(config());
    let small = space.constrain_dim(Size { w: 20, h: 40 });
    let large = space.constrain_dim(Size { w: 200, h: 30 });
    assert_eq!(small, Size { w: 20, h: 40 });
    assert_eq!(large, Size { w: 100, h: 30 });
}
