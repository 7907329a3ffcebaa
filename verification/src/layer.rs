//! The space's place on the layer shell, and the focus within it.

use vstd::prelude::*;

use crate::config;
use crate::config::{KeyboardInteractivity, Layer};
use crate::geometry::Size;
use crate::space::{SimpleWrapperSpace, SpaceEvent, SpaceView};

verus! {

/// An event of the layer surface.
#[derive(Clone, Copy, Debug, PartialEq, Eq, Structural)]
pub enum LayerSurfaceEvent {
    Closed,
    Configure { serial: u32, width: u32, height: u32 },
    /// any event of a later version of the protocol
    Other,
}

/// What is asked of the compositor for the space's layer surface.
#[derive(Clone, Copy, Debug, PartialEq, Eq, Structural)]
pub struct LayerRequests {
    pub layer: Layer,
    pub anchor: u32,
    pub keyboard_interactivity: KeyboardInteractivity,
    pub width: u32,
    pub height: u32,
}

/// Why a space was not placed on an output.
#[derive(Clone, Copy, Debug, PartialEq, Eq, Structural)]
pub enum OutputError {
    AlreadyAdded,
}

impl OutputError {
    /// The error in words.
    pub fn message(&self) -> (text: &'static str)
        ensures
            text@ == "output already added!"@,
    {
        "output already added!"
    }
}

impl SpaceView {
    /// The space has been placed before.
    pub open spec fn placed(self) -> bool {
        self.layer_shell_wl_surface is Some || self.output is Some || self.layer_shell
    }

    /// The size that a space starts with.
    pub open spec fn first_size(self) -> Size {
        self.config.constrained(Size { w: 1, h: 1 })
    }

    /// The space once it was placed: it waits to be given its first size, and
    /// then draws itself whole.
    pub open spec fn after_add_output(
        self,
        output: Option<u64>,
        output_info: bool,
        c_surface: u64,
        focused_surface: Option<u64>,
    ) -> SpaceView {
        let size = self.first_size();
        SpaceView {
            output: if output_info {
                output
            } else {
                None
            },
            layer_shell: true,
            layer_shell_wl_surface: Some(c_surface),
            dimensions: size,
            focused_surface,
            next_render_event: Some(SpaceEvent::WaitConfigure { width: size.w, height: size.h }),
            full_clear: true,
            ..self
        }
    }

    /// The event of the layer surface is taken notice of: any closing, and any
    /// configuration of a space that is not going away.
    pub open spec fn heeds(self, event: LayerSurfaceEvent) -> bool {
        match event {
            LayerSurfaceEvent::Closed => true,
            LayerSurfaceEvent::Configure { .. } => self.next_render_event != Some(
                SpaceEvent::Quit,
            ),
            LayerSurfaceEvent::Other => false,
        }
    }

    /// The space after an event of its layer surface.
    pub open spec fn after_layer_event(self, event: LayerSurfaceEvent) -> SpaceView {
        if !self.heeds(event) {
            self
        } else {
            match event {
                LayerSurfaceEvent::Closed => SpaceView {
                    next_render_event: Some(SpaceEvent::Quit),
                    ..self
                },
                LayerSurfaceEvent::Configure { serial, width, height } => SpaceView {
                    next_render_event: Some(
                        SpaceEvent::Configure {
                            width: width as i32,
                            height: height as i32,
                            serial,
                        },
                    ),
                    ..self
                },
                LayerSurfaceEvent::Other => self,
            }
        }
    }

    /// The space with another window, which has the focus.
    pub open spec fn after_add_window(self, wl_surface: u64) -> SpaceView {
        SpaceView { full_clear: true, focused_surface: Some(wl_surface), ..self }
    }

    /// The space after the pointer moved.
    pub open spec fn after_update_pointer(self, surface_under: Option<u64>) -> SpaceView {
        SpaceView { focused_surface: surface_under, ..self }
    }

    /// The space after another holder of the shared focus changed it.
    pub open spec fn after_set_focus(self, surface: Option<u64>) -> SpaceView {
        SpaceView { focused_surface: surface, ..self }
    }

    /// A press of a button on the given surface closes the popups: it hits the
    /// space's own surface while no surface of the client has the focus.
    pub open spec fn closes_popups(self, c_focused_surface: u64) -> bool {
        self.focused_surface is None && self.layer_shell_wl_surface == Some(c_focused_surface)
    }
}

impl LayerSurfaceEvent {
    /// A size that the event carries is one that a space can have.
    pub open spec fn fits(self) -> bool {
        self matches LayerSurfaceEvent::Configure { width, height, .. } ==> {
            &&& width <= i32::MAX
            &&& height <= i32::MAX
        }
    }
}

impl SimpleWrapperSpace {
    /// Whether the space has been placed before.
    pub fn is_placed(&self) -> (placed: bool)
        ensures
            placed == self@.placed(),
    {
        self.layer_shell_wl_surface.is_some() || self.output.is_some() || self.layer_shell
    }

    /// Places the space on the layer shell, with `c_surface` as its own
    /// surface, and gives the requests for its layer surface. The output is
    /// remembered only if its description is known. From then on the space
    /// shares the focus that the caller holds, and `focused_surface` is what that
    /// focus holds now. A space is placed once.
    pub fn add_output(
        &mut self,
        output: Option<u64>,
        output_info: bool,
        c_surface: u64,
        focused_surface: Option<u64>,
    ) -> (requests: Result<LayerRequests, OutputError>)
        requires
            old(self).wf(),
            !old(self)@.placed() ==> old(self)@.config.accepts(Size { w: 1, h: 1 }),
        ensures
            final(self).wf(),
            old(self)@.placed() ==> requests == Err::<LayerRequests, _>(OutputError::AlreadyAdded)
                && final(self)@ == old(self)@,
            !old(self)@.placed() ==> {
                &&& requests == Ok::<_, OutputError>(
                    (LayerRequests {
                        layer: old(self)@.config.layer,
                        anchor: old(self)@.config.anchor,
                        keyboard_interactivity: old(self)@.config.keyboard_interactivity,
                        width: old(self)@.first_size().w as u32,
                        height: old(self)@.first_size().h as u32,
                    }),
                )
                &&& final(self)@ == old(self)@.after_add_output(
                    output,
                    output_info,
                    c_surface,
                    focused_surface,
                )
            },
    {
        if self.is_placed() {
            return Err(OutputError::AlreadyAdded);
        }
        let dimensions: Size = self.constrain_dim(Size { w: 1, h: 1 });
        let requests = LayerRequests {
            layer: self.config.layer,
            anchor: self.config.anchor,
            keyboard_interactivity: self.config.keyboard_interactivity,
            width: dimensions.w as u32,
            height: dimensions.h as u32,
        };
        self.output = if output_info {
            output
        } else {
            None
        };
        self.layer_shell = true;
        self.dimensions = dimensions;
        self.focused_surface = focused_surface;
        self.next_render_event = Some(
            SpaceEvent::WaitConfigure { width: dimensions.w, height: dimensions.h },
        );
        self.full_clear = true;
        self.layer_shell_wl_surface = Some(c_surface);
        Ok(requests)
    }

    /// Takes notice of an event of the layer surface, and gives the serial of
    /// the configuration to acknowledge, if there is one.
    pub fn layer_surface_event(&mut self, event: LayerSurfaceEvent) -> (ack: Option<u32>)
        requires
            old(self).wf(),
            old(self)@.heeds(event) ==> event.fits(),
        ensures
            final(self).wf(),
            final(self)@ == old(self)@.after_layer_event(event),
            ack == (match event {
                LayerSurfaceEvent::Configure { serial, .. } if old(self)@.heeds(event) => Some(
                    serial,
                ),
                _ => None,
            }),
    {
        match event {
            LayerSurfaceEvent::Closed => {
                self.next_render_event = Some(SpaceEvent::Quit);
                None
            },
            LayerSurfaceEvent::Configure { serial, width, height } => {
                if let Some(SpaceEvent::Quit) = self.next_render_event {
                    return None;
                }
                self.next_render_event = Some(
                    SpaceEvent::Configure { width: width as i32, height: height as i32, serial },
                );
                Some(serial)
            },
            LayerSurfaceEvent::Other => None,
        }
    }

    /// Shows a window of the client in the space: it gets the focus, and the
    /// next frame is drawn whole.
    pub fn add_window(&mut self, wl_surface: u64)
        requires
            old(self).wf(),
        ensures
            final(self).wf(),
            final(self)@ == old(self)@.after_add_window(wl_surface),
    {
        self.full_clear = true;
        self.focused_surface = Some(wl_surface);
    }

    /// Gives the focus to the surface under the pointer, if there is one, and
    /// takes it away otherwise.
    pub fn update_pointer(&mut self, surface_under: Option<u64>)
        requires
            old(self).wf(),
        ensures
            final(self).wf(),
            final(self)@ == old(self)@.after_update_pointer(surface_under),
    {
        self.focused_surface = surface_under;
    }

    /// Takes over what another holder of the shared focus made of it.
    pub fn set_focused_surface(&mut self, surface: Option<u64>)
        requires
            old(self).wf(),
        ensures
            final(self).wf(),
            final(self)@ == old(self)@.after_set_focus(surface),
    {
        self.focused_surface = surface;
    }

    /// Whether a press of a button closes the popups: it does when it hits the
    /// space's own surface while no surface of the client has the focus.
    pub fn handle_button(&self, c_focused_surface: u64) -> (close: bool)
        requires
            self@.focused_surface is None ==> self@.layer_shell_wl_surface is Some,
        ensures
            close == self@.closes_popups(c_focused_surface),
    {
        self.focused_surface.is_none() && self.layer_shell_wl_surface.unwrap() == c_focused_surface
    }
}

/// A space that is going away does not stop doing so because of its layer
/// surface, and a closed layer surface makes any space go away.
pub proof fn quitting_is_final(space: SpaceView, event: LayerSurfaceEvent)
    ensures
        space.next_render_event == Some(SpaceEvent::Quit) ==> space.after_layer_event(event)
            == space,
        space.after_layer_event(LayerSurfaceEvent::Closed).next_render_event == Some(
            SpaceEvent::Quit,
        ),
{
}

/// A valid space has been placed exactly when it has a surface of its own.
pub proof fn placed_space_has_a_surface(space: SpaceView)
    requires
        space.wf(),
    ensures
        space.placed() <==> space.layer_shell_wl_surface is Some,
        space.placed() <==> space.layer_shell,
        space.output is Some ==> space.placed(),
{
}

/// A space that is placed starts with the smallest size that it may have, and
/// waits for just that size.
pub proof fn placed_space_starts_small(
    space: SpaceView,
    output: Option<u64>,
    output_info: bool,
    c_surface: u64,
    focused_surface: Option<u64>,
    size: Size,
)
    requires
        space.config.accepts(Size { w: 1, h: 1 }),
        space.config.accepts(size),
        config::ordered(space.config.width),
        config::ordered(space.config.height),
    ensures
        ({
            let placed = space.after_add_output(output, output_info, c_surface, focused_surface);
            &&& space.first_size() == placed.dimensions
            &&& placed.dimensions.w <= space.config.constrained(size).w
            &&& placed.dimensions.h <= space.config.constrained(size).h
            &&& space.config.constrained(placed.dimensions) == placed.dimensions
        }),
{
}

/// A space that is placed has the given surface and shares the given focus, knows
/// its output only with its description, waits for the size that it starts with,
/// and draws its first frame whole. It keeps what has nothing to do with its place.
pub proof fn placed_space_has_what_it_was_given(
    space: SpaceView,
    output: Option<u64>,
    output_info: bool,
    c_surface: u64,
    focused_surface: Option<u64>,
)
    ensures
        ({
            let placed = space.after_add_output(output, output_info, c_surface, focused_surface);
            &&& placed.layer_shell
            &&& placed.layer_shell_wl_surface == Some(c_surface)
            &&& placed.focused_surface == focused_surface
            &&& output_info ==> placed.output == output
            &&& !output_info ==> placed.output is None
            &&& placed.full_clear
            &&& placed.next_render_event == Some(
                SpaceEvent::WaitConfigure {
                    width: placed.dimensions.w,
                    height: placed.dimensions.h,
                },
            )
            &&& placed.dimensions == space.config.constrained(Size { w: 1, h: 1 })
            &&& placed.config == space.config
            &&& placed.child == space.child
            &&& placed.last_dirty == space.last_dirty
            &&& placed.pending_dimensions == space.pending_dimensions
            &&& placed.popups == space.popups
            &&& placed.w_accumulated_damage == space.w_accumulated_damage
        }),
{
}

/// A configuration reaches every space that is not going away, whatever that space
/// has to act upon, with the numbers that the compositor gave; a space that is going
/// away takes no notice of it, and no space takes notice of an unknown event.
pub proof fn configuration_reaches_the_space(
    space: SpaceView,
    serial: u32,
    width: u32,
    height: u32,
)
    requires
        width <= i32::MAX,
        height <= i32::MAX,
    ensures
        ({
            let event = LayerSurfaceEvent::Configure { serial, width, height };
            let told = space.after_layer_event(event);
            &&& space.next_render_event == Some(SpaceEvent::Quit) ==> !space.heeds(event) && told
                == space
            &&& space.next_render_event != Some(SpaceEvent::Quit) ==> {
                &&& space.heeds(event)
                &&& told.next_render_event matches Some(
                    SpaceEvent::Configure { width: w, height: h, serial: s },
                )
                &&& w == width && h == height && s == serial
            }
        }),
        !space.heeds(LayerSurfaceEvent::Other),
        space.after_layer_event(LayerSurfaceEvent::Other) == space,
{
}

/// An event of the layer surface changes nothing but what the space is to act
/// upon.
pub proof fn layer_event_changes_the_event_alone(space: SpaceView, event: LayerSurfaceEvent)
    ensures
        space.after_layer_event(event).after_set_event(space.next_render_event) == space,
{
}

/// A new window has the focus and is drawn in a whole frame, and changes nothing
/// else.
pub proof fn new_window_has_the_focus(space: SpaceView, wl_surface: u64)
    ensures
        ({
            let after = space.after_add_window(wl_surface);
            &&& after.focused_surface == Some(wl_surface)
            &&& after.full_clear
            &&& after == SpaceView {
                full_clear: after.full_clear,
                focused_surface: after.focused_surface,
                ..space
            }
        }),
{
}

/// The focus follows the pointer: to the surface under it, or away where there is
/// none. Nothing else changes, so that moving the pointer back undoes it.
pub proof fn focus_follows_the_pointer(space: SpaceView, surface_under: Option<u64>)
    ensures
        space.after_update_pointer(surface_under).focused_surface == surface_under,
        space.after_update_pointer(surface_under).after_update_pointer(space.focused_surface)
            == space,
        space.after_set_focus(surface_under).focused_surface == surface_under,
        space.after_set_focus(surface_under).after_set_focus(space.focused_surface) == space,
{
}

/// While a surface of the client has the focus no button closes the popups; while
/// none has it, a press on the space's own surface does, and one on any other
/// surface does not.
pub proof fn only_the_own_surface_closes_popups(space: SpaceView, pressed: u64, own: u64)
    ensures
        space.focused_surface is Some ==> !space.closes_popups(pressed),
        space.focused_surface is None && space.layer_shell_wl_surface == Some(own) ==> (
        space.closes_popups(pressed) <==> pressed == own),
{
}

/// Every event of the layer surface can be taken notice of whose extents are those of a
/// size.
pub proof fn layer_events_fit(serial: u32, width: u32, height: u32)
    ensures
        LayerSurfaceEvent::Closed.fits(),
        LayerSurfaceEvent::Other.fits(),
        (LayerSurfaceEvent::Configure { serial, width, height }).fits() <==> width <= i32::MAX
            && height <= i32::MAX,
{
}

} // verus!
