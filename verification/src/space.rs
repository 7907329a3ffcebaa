//! The space: what it remembers, and how it answers what happens to it.

use std::collections::VecDeque;

use vstd::prelude::*;

use crate::config::{constrain_extent, KeyboardInteractivity, Layer, SimpleWrapperConfig};
use crate::damage;
use crate::geometry::{Rectangle, Size};
use crate::popup;
use crate::popup::{Popup, PopupView};

verus! {

/// What the space is to act upon before it draws again.
#[derive(Clone, Copy, Debug, PartialEq, Eq, Structural)]
pub enum SpaceEvent {
    /// the space has asked for a size and waits for the answer
    WaitConfigure { width: i32, height: i32 },
    /// the compositor has given the space a size
    Configure { width: i32, height: i32, serial: u32 },
    /// the space is to go away
    Quit,
}

impl SpaceEvent {
    /// The size that the event carries.
    pub open spec fn size(self) -> Option<Size> {
        match self {
            SpaceEvent::WaitConfigure { width, height } => Some(Size { w: width, h: height }),
            SpaceEvent::Configure { width, height, .. } => Some(Size { w: width, h: height }),
            SpaceEvent::Quit => None,
        }
    }

    /// A size that the event carries has no negative extent.
    pub open spec fn wf(self) -> bool {
        self.size() matches Some(size) ==> size.wf()
    }

    /// Whether a size that the event carries has no negative extent.
    pub fn is_valid(&self) -> (valid: bool)
        ensures
            valid == self.wf(),
    {
        match self {
            SpaceEvent::WaitConfigure { width, height } => *width >= 0 && *height >= 0,
            SpaceEvent::Configure { width, height, .. } => *width >= 0 && *height >= 0,
            SpaceEvent::Quit => true,
        }
    }
}

/// A space on the desktop's layer shell. Apart from its configuration, what it
/// remembers changes only by its own operations, each of which leaves it valid.
///
/// The focus and the event to act upon next are shared: others hold them as well
/// and may change them between any two operations. Such a change is told to the
/// space by an operation of its own ([`set_focused_surface`],
/// [`set_next_space_event`]), and the space goes by it from then on as if it had
/// made the change itself.
///
/// [`set_focused_surface`]: SimpleWrapperSpace::set_focused_surface
/// [`set_next_space_event`]: SimpleWrapperSpace::set_next_space_event
#[derive(Debug)]
pub struct SimpleWrapperSpace {
    pub config: SimpleWrapperConfig,
    /// whether the client has been started
    pub(crate) child: bool,
    /// when a window or a popup last changed
    pub(crate) last_dirty: Option<u64>,
    /// a size to ask the compositor for
    pub(crate) pending_dimensions: Option<Size>,
    /// whether the next frame is drawn whole
    pub(crate) full_clear: bool,
    /// what the shared event holds
    pub(crate) next_render_event: Option<SpaceEvent>,
    pub(crate) dimensions: Size,
    /// the client's surface that has the focus, which is what the shared focus
    /// holds
    pub(crate) focused_surface: Option<u64>,
    /// the output that the space was placed on
    pub(crate) output: Option<u64>,
    /// whether the space has been given its place on the layer shell
    pub(crate) layer_shell: bool,
    /// the space's own surface
    pub(crate) layer_shell_wl_surface: Option<u64>,
    pub(crate) popups: Vec<Popup>,
    /// the damage of the last frames, newest first
    pub(crate) w_accumulated_damage: VecDeque<Vec<Rectangle>>,
}

/// The mathematical value of a space.
#[verifier::ext_equal]
pub struct SpaceView {
    pub config: SimpleWrapperConfig,
    pub child: bool,
    pub last_dirty: Option<u64>,
    pub pending_dimensions: Option<Size>,
    pub full_clear: bool,
    pub next_render_event: Option<SpaceEvent>,
    pub dimensions: Size,
    pub focused_surface: Option<u64>,
    pub output: Option<u64>,
    pub layer_shell: bool,
    pub layer_shell_wl_surface: Option<u64>,
    pub popups: Seq<PopupView>,
    pub w_accumulated_damage: Seq<Seq<Rectangle>>,
}

/// The values of a list of popups.
pub open spec fn popup_views(popups: Seq<Popup>) -> Seq<PopupView> {
    popups.map_values(|p: Popup| p@)
}

impl View for SimpleWrapperSpace {
    type V = SpaceView;

    open(crate) spec fn view(&self) -> SpaceView {
        SpaceView {
            config: self.config,
            child: self.child,
            last_dirty: self.last_dirty,
            pending_dimensions: self.pending_dimensions,
            full_clear: self.full_clear,
            next_render_event: self.next_render_event,
            dimensions: self.dimensions,
            focused_surface: self.focused_surface,
            output: self.output,
            layer_shell: self.layer_shell,
            layer_shell_wl_surface: self.layer_shell_wl_surface,
            popups: popup_views(self.popups@),
            w_accumulated_damage: damage::contents(self.w_accumulated_damage@),
        }
    }
}

/// What the program saw of a window.
#[derive(Clone, Copy, Debug, PartialEq, Eq, Structural)]
pub struct WindowState {
    /// the size of the window's bounding box
    pub bbox_size: Size,
    /// whether the window is the active one
    pub activated: bool,
}

impl SpaceView {
    /// A space that nothing has happened to.
    pub open spec fn initial(config: SimpleWrapperConfig) -> SpaceView {
        SpaceView {
            config,
            child: false,
            last_dirty: None,
            pending_dimensions: None,
            full_clear: false,
            next_render_event: None,
            dimensions: Size { w: 0, h: 0 },
            focused_surface: None,
            output: None,
            layer_shell: false,
            layer_shell_wl_surface: None,
            popups: Seq::empty(),
            w_accumulated_damage: Seq::empty(),
        }
    }

    /// No size is negative, the space has its own surface and possibly an
    /// output exactly when it has a place on the layer shell, no two popups go
    /// by the same number, and no more damage is kept than is of use.
    pub open spec fn wf(self) -> bool {
        &&& self.dimensions.wf()
        &&& self.pending_dimensions matches Some(size) ==> size.wf()
        &&& self.next_render_event matches Some(event) ==> event.wf()
        &&& self.layer_shell == self.layer_shell_wl_surface is Some
        &&& self.output is Some ==> self.layer_shell
        &&& self.w_accumulated_damage.len() <= damage::KEPT_FRAMES
        &&& damage::all_lists_wf(self.w_accumulated_damage)
        &&& forall|i: int|
            0 <= i < self.popups.len() ==> (#[trigger] self.popups[i]).accumulated_damage.len()
                <= damage::KEPT_FRAMES
        &&& popup::ids_differ(self.popups)
    }

    /// The space after another holder of the shared event changed it.
    pub open spec fn after_set_event(self, event: Option<SpaceEvent>) -> SpaceView {
        SpaceView { next_render_event: event, ..self }
    }

    /// The size that the space asks for or, if it asks for none, has.
    pub open spec fn wanted(self) -> Size {
        match self.pending_dimensions {
            Some(size) => size,
            None => self.dimensions,
        }
    }

    /// The size that the space is about to have.
    pub open spec fn expected(self) -> Size {
        match self.next_render_event {
            Some(event) => match event.size() {
                Some(size) => size,
                None => self.dimensions,
            },
            None => self.wanted(),
        }
    }

    /// A new extent is more than the space has, asks for and is about to have.
    pub open spec fn grows_to(extent: i32, has: i32, wants: i32, expects: i32) -> bool {
        has < extent && wants < extent && expects < extent
    }

    /// The size to ask for so that a window of the given size can be shown on
    /// an output: the space grows to the window, in one direction or both, and
    /// never shrinks to it.
    pub open spec fn pending_for(self, size: Size) -> Option<Size> {
        let expected = self.expected();
        let wider = Self::grows_to(size.w, self.dimensions.w, self.wanted().w, expected.w);
        let higher = Self::grows_to(size.h, self.dimensions.h, self.wanted().h, expected.h);
        let w = if wider {
            size.w
        } else {
            expected.w
        };
        if higher {
            Some(Size { w, h: size.h })
        } else if wider {
            Some(Size { w, h: expected.h })
        } else {
            self.pending_dimensions
        }
    }

    /// The active window has a size other than the space's.
    pub open spec fn resized_by(self, window: WindowState) -> bool {
        window.activated && self.dimensions != self.config.constrained(window.bbox_size)
    }

    /// The window's size can be constrained as often as it is.
    pub open spec fn takes(self, window: WindowState) -> bool {
        &&& self.config.accepts(window.bbox_size)
        &&& self.resized_by(window) && self.output is Some ==> self.config.accepts(
            self.config.constrained(window.bbox_size),
        )
    }

    /// The space after a window, if the changed surface is that of one, was
    /// found in the given state at the given time.
    pub open spec fn after_dirty_window(self, window: Option<WindowState>, now: u64) -> SpaceView {
        let dirty = SpaceView { last_dirty: Some(now), ..self };
        match window {
            Some(window) if self.resized_by(window) => {
                let size = self.config.constrained(window.bbox_size);
                if self.output is Some {
                    SpaceView {
                        pending_dimensions: self.pending_for(self.config.constrained(size)),
                        ..dirty
                    }
                } else if self.expected() != size {
                    SpaceView { pending_dimensions: Some(size), full_clear: true, ..dirty }
                } else {
                    dirty
                }
            },
            _ => dirty,
        }
    }
}

impl SimpleWrapperSpace {
    /// The space is valid.
    pub open spec fn wf(&self) -> bool {
        self@.wf()
    }

    /// Creates a space with the given configuration.
    pub fn new(config: SimpleWrapperConfig) -> (space: SimpleWrapperSpace)
        ensures
            space.wf(),
            space@ == SpaceView::initial(config),
    {
        let space = SimpleWrapperSpace {
            config,
            child: false,
            last_dirty: None,
            pending_dimensions: None,
            full_clear: false,
            next_render_event: None,
            dimensions: Size { w: 0, h: 0 },
            focused_surface: None,
            output: None,
            layer_shell: false,
            layer_shell_wl_surface: None,
            popups: Vec::new(),
            w_accumulated_damage: VecDeque::new(),
        };
        assert(space@ =~= SpaceView::initial(config));
        space
    }

    /// The configuration that the space was created with.
    pub fn config(&self) -> (config: &SimpleWrapperConfig)
        ensures
            *config == self@.config,
    {
        &self.config
    }

    /// The popups, in the order in which they were added.
    pub fn popups(&self) -> (popups: &Vec<Popup>)
        ensures
            popup_views(popups@) == self@.popups,
    {
        &self.popups
    }

    /// What the space is to act upon before it draws again: what the shared event
    /// holds now.
    pub fn next_space_event(&self) -> (event: Option<SpaceEvent>)
        ensures
            event == self@.next_render_event,
    {
        self.next_render_event
    }

    /// Takes over what another holder of the shared event made of it: the space
    /// is given an event to act upon, or is relieved of the one it had.
    pub fn set_next_space_event(&mut self, event: Option<SpaceEvent>)
        requires
            old(self).wf(),
            event matches Some(e) ==> e.wf(),
        ensures
            final(self).wf(),
            final(self)@ == old(self)@.after_set_event(event),
    {
        self.next_render_event = event;
    }

    pub fn dimensions(&self) -> (size: Size)
        ensures
            size == self@.dimensions,
    {
        self.dimensions
    }

    /// The size that the space is to ask the compositor for.
    pub fn pending_dimensions(&self) -> (size: Option<Size>)
        ensures
            size == self@.pending_dimensions,
    {
        self.pending_dimensions
    }

    /// Whether the next frame is drawn whole.
    pub fn full_clear(&self) -> (full_clear: bool)
        ensures
            full_clear == self@.full_clear,
    {
        self.full_clear
    }

    /// The client's surface that has the focus.
    pub fn focused_surface(&self) -> (surface: Option<u64>)
        ensures
            surface == self@.focused_surface,
    {
        self.focused_surface
    }

    /// The output that the space was placed on, if its description is known.
    pub fn output(&self) -> (output: Option<u64>)
        ensures
            output == self@.output,
    {
        self.output
    }

    /// The given size, with each extent at least one pixel and within the
    /// configured range.
    pub fn constrain_dim(&self, size: Size) -> (out: Size)
        requires
            self@.config.accepts(size),
        ensures
            out == self@.config.constrained(size),
    {
        let w: u32 = constrain_extent(size.w as u32, &self.config.width);
        let h: u32 = constrain_extent(size.h as u32, &self.config.height);
        Size { w: w as i32, h: h as i32 }
    }

    /// Whether the size of the window can be constrained as often as it is.
    pub fn can_take(&self, window: WindowState) -> (taken: bool)
        ensures
            taken == self@.takes(window),
    {
        if !self.config.can_constrain(window.bbox_size) {
            return false;
        }
        let size: Size = self.constrain_dim(window.bbox_size);
        !(window.activated && self.dimensions != size && self.output.is_some())
            || self.config.can_constrain(size)
    }

    /// Notes that a surface has changed. `window` is the state of the window
    /// that the surface belongs to, if it belongs to one: the space may have to
    /// ask for another size to show it. Returns whether the surface is to be
    /// committed once more, which is when there is such a window.
    pub fn dirty_window(&mut self, window: Option<WindowState>, now: u64) -> (commit: bool)
        requires
            old(self).wf(),
            window matches Some(w) ==> old(self)@.takes(w),
        ensures
            final(self).wf(),
            final(self)@ == old(self)@.after_dirty_window(window, now),
            commit == window is Some,
    {
        self.last_dirty = Some(now);
        let window: WindowState = match window {
            Some(window) => window,
            None => {
                return false;
            },
        };
        let size: Size = self.constrain_dim(window.bbox_size);
        if window.activated && self.dimensions != size {
            let wanted: Size = match self.pending_dimensions {
                Some(size) => size,
                None => self.dimensions,
            };
            let mut expected: Size = match self.next_render_event {
                Some(SpaceEvent::Configure { width, height, .. }) => Size { w: width, h: height },
                Some(SpaceEvent::WaitConfigure { width, height }) => Size { w: width, h: height },
                Some(SpaceEvent::Quit) => self.dimensions,
                None => wanted,
            };
            if self.output.is_some() {
                let size: Size = self.constrain_dim(size);
                if self.dimensions.w < size.w && wanted.w < size.w && expected.w < size.w {
                    self.pending_dimensions = Some(Size { w: size.w, h: expected.h });
                    expected.w = size.w;
                }
                if self.dimensions.h < size.h && wanted.h < size.h && expected.h < size.h {
                    self.pending_dimensions = Some(Size { w: expected.w, h: size.h });
                }
            } else if expected != size {
                self.pending_dimensions = Some(size);
                self.full_clear = true;
            }
        }
        true
    }
}

impl Default for SimpleWrapperSpace {
    /// A space with the default configuration, whose values are this library's
    /// own choice.
    fn default() -> (space: SimpleWrapperSpace)
        ensures
            space.wf(),
            space@ == SpaceView::initial(space@.config),
            space@.config.name@ == Seq::<char>::empty(),
            space@.config.applet@ == Seq::<char>::empty(),
            space@.config.anchor == 0,
            space@.config.layer == Layer::Background,
            space@.config.keyboard_interactivity == KeyboardInteractivity::Never,
            space@.config.width is None,
            space@.config.height is None,
    {
        SimpleWrapperSpace::new(SimpleWrapperConfig::default())
    }
}

/// On an output a space only ever asks for more room than it is about to have:
/// for no less in either direction, and for more than it has in one.
pub proof fn space_only_grows(space: SpaceView, window: WindowState, now: u64)
    requires
        space.wf(),
        space.takes(window),
        space.output is Some,
    ensures
        ({
            let after = space.after_dirty_window(Some(window), now);
            ||| after.pending_dimensions == space.pending_dimensions
            ||| {
                &&& after.pending_dimensions matches Some(size)
                &&& size.w >= space.expected().w
                &&& size.h >= space.expected().h
                &&& size.w > space.dimensions.w || size.h > space.dimensions.h
            }
        }),
        space.after_dirty_window(Some(window), now).full_clear == space.full_clear,
{
}

/// Off any output a space asks for the size of its active window, as far as
/// that is allowed, unless it has that size or is about to have it.
pub proof fn space_follows_its_window(space: SpaceView, window: WindowState, now: u64)
    requires
        space.wf(),
        space.takes(window),
        space.output is None,
        window.activated,
    ensures
        ({
            let after = space.after_dirty_window(Some(window), now);
            let size = space.config.constrained(window.bbox_size);
            ||| after.dimensions == size
            ||| after.expected() == size
            ||| after.pending_dimensions == Some(size) && after.full_clear
        }),
{
}

/// A window that is not the active one never changes the size of a space.
pub proof fn inactive_window_changes_no_size(space: SpaceView, window: WindowState, now: u64)
    requires
        !window.activated,
    ensures
        space.after_dirty_window(Some(window), now) == (SpaceView {
            last_dirty: Some(now),
            ..space
        }),
        space.after_dirty_window(None, now) == (SpaceView { last_dirty: Some(now), ..space }),
{
}

/// A new space has no client, no place, no size, no focus and no popups, and
/// nothing to act upon or to draw.
pub proof fn new_space_has_nothing(config: SimpleWrapperConfig)
    ensures
        ({
            let space = SpaceView::initial(config);
            &&& space.wf()
            &&& space.config == config
            &&& !space.child
            &&& space.last_dirty is None
            &&& space.pending_dimensions is None
            &&& !space.full_clear
            &&& space.next_render_event is None
            &&& space.dimensions.w == 0 && space.dimensions.h == 0
            &&& space.focused_surface is None
            &&& space.output is None
            &&& !space.layer_shell
            &&& space.layer_shell_wl_surface is None
            &&& space.popups.len() == 0
            &&& space.w_accumulated_damage.len() == 0
        }),
{
}

/// The active window of a space on an output makes the space grow in each
/// direction by itself: to the height of the window if that is more than the space
/// has, asks for and is about to have, whatever the widths are, and likewise to its
/// width. A direction in which it does not grow is asked for as it is about to be,
/// and where it grows in none, it asks for nothing new. `coming` is the size that
/// the space is about to have.
pub proof fn space_grows_in_each_direction(
    space: SpaceView,
    window: WindowState,
    now: u64,
    coming: Size,
)
    requires
        space.output is Some,
        window.activated,
        space.dimensions != space.config.constrained(window.bbox_size),
        coming == (match space.next_render_event {
            Some(SpaceEvent::WaitConfigure { width, height }) => Size { w: width, h: height },
            Some(SpaceEvent::Configure { width, height, .. }) => Size { w: width, h: height },
            Some(SpaceEvent::Quit) => space.dimensions,
            None => match space.pending_dimensions {
                Some(pending) => pending,
                None => space.dimensions,
            },
        }),
    ensures
        ({
            let shown = space.config.constrained(space.config.constrained(window.bbox_size));
            let asked = space.after_dirty_window(Some(window), now).pending_dimensions;
            let wider = space.dimensions.w < shown.w && coming.w < shown.w && (
            space.pending_dimensions matches Some(pending) ==> pending.w < shown.w);
            let higher = space.dimensions.h < shown.h && coming.h < shown.h && (
            space.pending_dimensions matches Some(pending) ==> pending.h < shown.h);
            &&& wider ==> asked is Some && asked->0.w == shown.w
            &&& higher ==> asked is Some && asked->0.h == shown.h
            &&& wider && !higher ==> asked->0.h == coming.h
            &&& higher && !wider ==> asked->0.w == coming.w
            &&& !wider && !higher ==> asked == space.pending_dimensions
        }),
{
}

/// Off any output a space asks for exactly the constrained size of its active
/// window, and draws its next frame whole, where it neither has that size nor is
/// about to have it; otherwise it goes on as before. `coming` is the size that the
/// space is about to have.
pub proof fn space_asks_for_the_size_of_its_window(
    space: SpaceView,
    window: WindowState,
    now: u64,
    coming: Size,
)
    requires
        space.output is None,
        window.activated,
        coming == (match space.next_render_event {
            Some(SpaceEvent::WaitConfigure { width, height }) => Size { w: width, h: height },
            Some(SpaceEvent::Configure { width, height, .. }) => Size { w: width, h: height },
            Some(SpaceEvent::Quit) => space.dimensions,
            None => match space.pending_dimensions {
                Some(pending) => pending,
                None => space.dimensions,
            },
        }),
    ensures
        ({
            let shown = space.config.constrained(window.bbox_size);
            let after = space.after_dirty_window(Some(window), now);
            if shown == space.dimensions || shown == coming {
                &&& after.pending_dimensions == space.pending_dimensions
                &&& after.full_clear == space.full_clear
            } else {
                &&& after.pending_dimensions == Some(shown)
                &&& after.full_clear
            }
        }),
{
}

/// A window whose constrained size the space has makes it ask for nothing.
pub proof fn fitting_window_changes_no_size(space: SpaceView, window: WindowState, now: u64)
    requires
        space.dimensions == space.config.constrained(window.bbox_size),
    ensures
        space.after_dirty_window(Some(window), now) == (SpaceView {
            last_dirty: Some(now),
            ..space
        }),
{
}

/// A changed surface changes nothing of a space but the time of the last change,
/// the size to ask for and whether the next frame is drawn whole.
pub proof fn changed_surface_is_noted(space: SpaceView, window: Option<WindowState>, now: u64)
    ensures
        ({
            let after = space.after_dirty_window(window, now);
            &&& after.last_dirty == Some(now)
            &&& after.config == space.config
            &&& after.child == space.child
            &&& after.next_render_event == space.next_render_event
            &&& after.dimensions == space.dimensions
            &&& after.focused_surface == space.focused_surface
            &&& after.output == space.output
            &&& after.layer_shell == space.layer_shell
            &&& after.layer_shell_wl_surface == space.layer_shell_wl_surface
            &&& after.popups == space.popups
            &&& after.w_accumulated_damage == space.w_accumulated_damage
        }),
{
}

/// What another holder makes of the shared event is what the space is to act upon,
/// and nothing else changes.
pub proof fn shared_event_is_taken_over(space: SpaceView, event: Option<SpaceEvent>)
    ensures
        space.after_set_event(event).next_render_event == event,
        space.after_set_event(event).after_set_event(space.next_render_event) == space,
{
}

/// Every window whose size can be constrained once and again can be shown, and one that
/// changes no size need only have one that can be constrained.
pub proof fn windows_can_be_taken(space: SpaceView, window: WindowState)
    ensures
        space.config.accepts(window.bbox_size) && space.config.accepts(
            space.config.constrained(window.bbox_size),
        ) ==> space.takes(window),
        space.config.accepts(window.bbox_size) && (!window.activated || space.output is None
            || space.dimensions == space.config.constrained(window.bbox_size)) ==> space.takes(
            window,
        ),
        space.takes(window) ==> space.config.accepts(window.bbox_size),
{
}

/// An event is valid unless it carries a negative extent.
pub proof fn only_negative_events_are_not_valid(width: i32, height: i32, serial: u32)
    ensures
        SpaceEvent::Quit.wf(),
        (SpaceEvent::WaitConfigure { width, height }).wf() <==> width >= 0 && height >= 0,
        (SpaceEvent::Configure { width, height, serial }).wf() <==> width >= 0 && height >= 0,
{
}

} // verus!
