use simple_wrapper::config::SimpleWrapperConfig;
use simple_wrapper::events::PopupOutcome;
use simple_wrapper::geometry::{Point, Rectangle, Size};
use simple_wrapper::layer::LayerSurfaceEvent;
use simple_wrapper::popup::{PopupState, PositionerState, WindowPlace};
use simple_wrapper::render::{FrameStep, OutputState, RenderError};
use simple_wrapper::space::SimpleWrapperSpace;

fn rect(x: i32, y: i32, w: i32, h: i32) -> Rectangle {
    Rectangle {
        loc: Point { x, y },
        size: Size { w, h },
    }
}

fn output(id: u64, mode: Option<Size>) -> OutputState {
    OutputState { id, location: Point { x: 5, y: 6 }, mode }
}

/// A space of 30x40 pixels with nothing left to act upon.
fn space() -> SimpleWrapperSpace {
    let mut space = SimpleWrapperSpace::new(SimpleWrapperConfig::default());
    space.add_output(Some(1), true, 2, None).unwrap();
    space.layer_surface_event(LayerSurfaceEvent::Configure { serial: 1, width: 30, height: 40 });
    space.handle_events();
    space.finish_render();
    space
}

fn add_popup(space: &mut SimpleWrapperSpace, surface: u64) {
    let state = PositionerState {
        rect_size: Size { w: 4, h: 4 },
        anchor_rect: rect(0, 0, 1, 1),
        anchor_edges: 0,
        gravity: 0,
        constraint_adjustment: 0,
        offset: Point { x: 0, y: 0 },
        reactive: false,
        parent_size: None,
    };
    let windows = vec![WindowPlace { surface: 7, loc: Point { x: 0, y: 0 } }];
    space.add_popup(10 + surface, surface, Some(7), &windows, &state, 3).unwrap();
}

/// What becomes of a popup that goes on.
fn kept(popup_state: Option<PopupState>) -> PopupOutcome {
    PopupOutcome { keep: true, dirty: true, popup_state, position: Point { x: 0, y: 0 } }
}

#[test]
fn last_output_of_the_first_window_on_one_is_drawn_for() {
    let space = space();
    let size = Size { w: 100, h: 200 };
    let windows = vec![
        vec![],
        vec![output(1, None), output(2, Some(size))],
        vec![output(3, Some(size))],
    ];
    assert_eq!(
        space.render_target(&windows),
        Ok(Some(FrameStep::Windows { output: 2, geometry: rect(5, 6, 100, 200) }))
    );
}

#[test]
fn no_window_is_on_an_output() {
    assert_eq!(space().render_target(&vec![vec![], vec![]]), Ok(Some(FrameStep::Finish)));
    assert_eq!(space().render_target(&vec![]), Ok(Some(FrameStep::Finish)));
}

#[test]
fn output_without_a_mode_is_an_error() {
    assert_eq!(
        space().render_target(&vec![vec![output(1, None)]]),
        Err(RenderError::OutputNoMode)
    );
}

#[test]
fn space_with_something_to_act_upon_is_not_drawn() {
    let mut space = space();
    space.layer_surface_event(LayerSurfaceEvent::Closed);
    assert_eq!(
        space.render_target(&vec![vec![output(1, None)]]),
        Ok(None)
    );
}

#[test]
fn whole_frames_draw_everything() {
    let mut space = space();
    space.check_surface_size(None);
    let windows = vec![vec![rect(1, 1, 2, 2)]];
    let whole = rect(0, 0, 30, 40);
    assert_eq!(space.render_windows(&windows, rect(0, 0, 100, 100), None), vec![whole]);
    assert_eq!(
        space.render_windows(&windows, rect(0, 0, 100, 100), Some(1)),
        vec![whole]
    );
    space.finish_render();
    assert!(!space.full_clear());
}

#[test]
fn only_damage_is_drawn_on_known_buffers() {
    let mut space = space();
    let screen = rect(0, 0, 100, 100);
    let first = vec![vec![rect(1, 1, 2, 2)]];
    let second = vec![vec![rect(10, 10, 4, 4)], vec![rect(12, 12, 4, 4), rect(300, 0, 1, 1)]];
    assert_eq!(space.render_windows(&first, screen, Some(1)), vec![rect(0, 0, 30, 40)]);
    assert_eq!(space.render_windows(&second, screen, Some(1)), vec![rect(10, 10, 6, 6)]);
    assert_eq!(
        space.render_windows(&first, screen, Some(2)),
        vec![rect(1, 1, 2, 2), rect(10, 10, 6, 6)]
    );
    // without any damage a known buffer is drawn whole as well
    assert_eq!(space.render_windows(&vec![], screen, Some(1)), vec![rect(0, 0, 30, 40)]);
    // four frames are kept, and no more
    assert_eq!(
        space.render_windows(&first, screen, Some(4)),
        vec![rect(1, 1, 2, 2), rect(1, 1, 2, 2), rect(10, 10, 6, 6)]
    );
    assert_eq!(space.render_windows(&first, screen, Some(5)), vec![rect(0, 0, 30, 40)]);
}

#[test]
fn changed_popups_are_drawn() {
    let mut space = space();
    for surface in 1..4 {
        add_popup(&mut space, surface);
        space.dirty_popup(surface, 1);
    }
    assert_eq!(space.next_popup(9, 0), FrameStep::Finish);
    space.sweep_popups(&vec![kept(None), kept(Some(PopupState::WaitConfigure)), kept(None)]);
    assert_eq!(space.next_popup(9, 0), FrameStep::Popup { output: 9, index: 0 });
    assert_eq!(space.next_popup(9, 1), FrameStep::Popup { output: 9, index: 2 });
    assert_eq!(space.next_popup(9, 3), FrameStep::Finish);

    let bbox = rect(0, 0, 4, 4);
    assert_eq!(space.render_popup(0, bbox, vec![], None), None);
    assert!(space.popups()[0].dirty);
    let changed = vec![rect(1, 1, 1, 1)];
    assert_eq!(space.render_popup(0, bbox, changed.clone(), Some(1)), Some(vec![bbox]));
    assert_eq!(space.next_popup(9, 0), FrameStep::Popup { output: 9, index: 2 });
    assert_eq!(space.render_popup(0, bbox, changed.clone(), Some(1)), Some(changed.clone()));
    assert_eq!(space.popups()[0].accumulated_damage.len(), 2);

    space.check_surface_size(None);
    assert_eq!(space.render_popup(2, bbox, vec![], None), Some(vec![bbox]));
    assert_eq!(space.popups()[2].accumulated_damage[0], vec![bbox]);
    assert_eq!(space.next_popup(9, 0), FrameStep::Finish);
}
