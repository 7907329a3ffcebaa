//! Everything that happens to a space, and what stays as it was all the while.

use vstd::prelude::*;

use crate::events::PopupOutcome;
use crate::geometry::{Rectangle, Size};
use crate::layer::LayerSurfaceEvent;
use crate::popup;
use crate::popup::PopupEvent;
use crate::space::{SpaceEvent, SpaceView, WindowState};

verus! {

/// What can happen to a space: one for each operation that changes it.
pub enum Change {
    /// the space is placed on the layer shell
    AddOutput {
        output: Option<u64>,
        output_info: bool,
        c_surface: u64,
        focused_surface: Option<u64>,
    },
    /// an event of the layer surface has come
    LayerEvent(LayerSurfaceEvent),
    /// the client has a new window
    AddWindow { wl_surface: u64 },
    /// the pointer has moved
    UpdatePointer { surface_under: Option<u64> },
    /// another holder of the shared focus has changed it
    SetFocus { focus: Option<u64> },
    /// another holder of the shared event has changed it
    SetEvent { next: Option<SpaceEvent> },
    /// a surface has changed, of a window or not
    DirtyWindow { window: Option<WindowState>, now: u64 },
    /// the client has a new popup
    AddPopup { id: u64, s_surface: u64 },
    /// a surface of a popup has changed
    DirtyPopup { surface: u64, now: u64 },
    /// an event of a popup has come
    OfPopup { id: u64, event: PopupEvent },
    /// the space acts on what it was told
    HandleEvents,
    /// the popups have acted on what they were told
    SweepPopups { outcomes: Seq<PopupOutcome> },
    /// the size of the space's buffers was looked at
    CheckSurfaceSize { size: Option<Size> },
    /// the windows are drawn
    RenderWindows { windows: Seq<Seq<Rectangle>>, geometry: Rectangle },
    /// a popup is drawn
    RenderPopup { index: int, bbox: Rectangle, changed: Seq<Rectangle> },
    /// a frame is ended
    FinishRender,
    /// the client was started
    ClientSpawned,
}

impl SpaceView {
    /// The change can happen to the space: what its operation asks for is met.
    pub open spec fn allows(self, change: Change) -> bool {
        match change {
            Change::AddOutput { .. } => self.placed() || self.config.accepts(Size { w: 1, h: 1 }),
            Change::LayerEvent(event) => self.heeds(event) ==> event.fits(),
            Change::SetEvent { next } => next matches Some(e) ==> e.wf(),
            Change::DirtyWindow { window, .. } => window matches Some(w) ==> self.takes(w),
            Change::AddPopup { id, .. } => !self.lists(id),
            Change::SweepPopups { outcomes } => outcomes.len() == self.popups.len(),
            Change::RenderWindows { windows, geometry } => self.full_clear || SpaceView::mergeable(
                windows,
                geometry,
            ),
            Change::RenderPopup { index, .. } => 0 <= index < self.popups.len(),
            _ => true,
        }
    }

    /// The space after something happened to it.
    pub open spec fn after(self, change: Change) -> SpaceView {
        match change {
            Change::AddOutput { output, output_info, c_surface, focused_surface } => if self.placed() {
                self
            } else {
                self.after_add_output(output, output_info, c_surface, focused_surface)
            },
            Change::LayerEvent(event) => self.after_layer_event(event),
            Change::AddWindow { wl_surface } => self.after_add_window(wl_surface),
            Change::UpdatePointer { surface_under } => self.after_update_pointer(surface_under),
            Change::SetFocus { focus } => self.after_set_focus(focus),
            Change::SetEvent { next } => self.after_set_event(next),
            Change::DirtyWindow { window, now } => self.after_dirty_window(window, now),
            Change::AddPopup { id, s_surface } => self.after_add_popup(id, s_surface),
            Change::DirtyPopup { surface, now } => self.after_dirty_popup(surface, now),
            Change::OfPopup { id, event } => self.after_event_of(id, event),
            Change::HandleEvents => self.after_events(),
            Change::SweepPopups { outcomes } => self.after_sweep(outcomes),
            Change::CheckSurfaceSize { size } => self.after_check_size(size),
            Change::RenderWindows { windows, geometry } => self.after_render_windows(
                windows,
                geometry,
            ),
            Change::RenderPopup { index, bbox, changed } => self.after_render_popup(
                index,
                bbox,
                changed,
            ),
            Change::FinishRender => self.after_finish_render(),
            Change::ClientSpawned => self.after_client_spawned(),
        }
    }

    /// The space after a number of things happened to it, one after the other.
    pub open spec fn after_all(self, changes: Seq<Change>) -> SpaceView
        decreases changes.len(),
    {
        if changes.len() == 0 {
            self
        } else {
            self.after_all(changes.drop_last()).after(changes.last())
        }
    }
}

/// Whatever happens to a space, it keeps its configuration, and it has a client
/// once it had one or was given one, so that a client is started once, and under
/// one name.
pub proof fn client_and_configuration_are_kept(space: SpaceView, changes: Seq<Change>)
    ensures
        space.after_all(changes).config == space.config,
        space.after_all(changes).child <==> space.child || changes.contains(Change::ClientSpawned),
    decreases changes.len(),
{
    if changes.len() > 0 {
        let rest = changes.drop_last();
        client_and_configuration_are_kept(space, rest);
        if rest.contains(Change::ClientSpawned) {
            let i = choose|i: int| 0 <= i < rest.len() && rest[i] == Change::ClientSpawned;
            assert(changes[i] == Change::ClientSpawned);
        }
        if changes.contains(Change::ClientSpawned) && changes.last() != Change::ClientSpawned {
            let i = choose|i: int| 0 <= i < changes.len() && changes[i] == Change::ClientSpawned;
            assert(rest[i] == Change::ClientSpawned);
        }
        assert(changes.last() == changes[changes.len() - 1]);
    }
}

/// Once a frame is to be drawn whole, nothing but a finished frame changes that.
pub proof fn whole_frame_is_not_forgotten(space: SpaceView, changes: Seq<Change>)
    requires
        space.full_clear,
        !changes.contains(Change::FinishRender),
    ensures
        space.after_all(changes).full_clear,
    decreases changes.len(),
{
    if changes.len() > 0 {
        let rest = changes.drop_last();
        assert forall|i: int| 0 <= i < rest.len() implies rest[i] != Change::FinishRender by {
            assert(changes[i] == rest[i]);
        }
        whole_frame_is_not_forgotten(space, rest);
        assert(changes.last() == changes[changes.len() - 1]);
    }
}

proof fn place_is_kept(space: SpaceView, change: Change)
    requires
        space.placed(),
    ensures
        space.after(change).placed(),
        space.after(change).layer_shell_wl_surface == space.layer_shell_wl_surface,
        space.after(change).output == space.output,
{
}

/// A space that was placed once stays placed, with its surface and its output,
/// whatever happens to it.
pub proof fn placed_space_stays_placed(space: SpaceView, changes: Seq<Change>)
    requires
        space.placed(),
    ensures
        space.after_all(changes).placed(),
        space.after_all(changes).layer_shell_wl_surface == space.layer_shell_wl_surface,
        space.after_all(changes).output == space.output,
    decreases changes.len(),
{
    if changes.len() > 0 {
        placed_space_stays_placed(space, changes.drop_last());
        place_is_kept(space.after_all(changes.drop_last()), changes.last());
    }
}

/// A placed space that waits for its size does so until its layer surface has an
/// event or another holder of the shared event changes it, and keeps its size all
/// the while.
pub proof fn waiting_ends_with_an_event(space: SpaceView, change: Change)
    requires
        space.placed(),
        space.next_render_event matches Some(SpaceEvent::WaitConfigure { .. }),
        !(change is LayerEvent),
        !(change is SetEvent),
    ensures
        space.after(change).next_render_event == space.next_render_event,
        space.after(change).dimensions == space.dimensions,
{
}

impl Change {
    /// The change may give the focus to another surface.
    pub open spec fn moves_focus(self) -> bool {
        ||| self is AddOutput
        ||| self is AddWindow
        ||| self is UpdatePointer
        ||| self is SetFocus
    }
}

proof fn focus_is_kept(space: SpaceView, changes: Seq<Change>)
    requires
        forall|i: int| 0 <= i < changes.len() ==> !(#[trigger] changes[i]).moves_focus(),
    ensures
        space.after_all(changes).focused_surface == space.focused_surface,
    decreases changes.len(),
{
    if changes.len() > 0 {
        let rest = changes.drop_last();
        assert forall|i: int| 0 <= i < rest.len() implies !(#[trigger] rest[i]).moves_focus() by {
            assert(rest[i] == changes[i]);
        }
        focus_is_kept(space, rest);
        assert(!changes[changes.len() - 1].moves_focus());
        assert(changes.last() == changes[changes.len() - 1]);
    }
}

/// What another holder makes of the shared focus of a placed space is what a
/// press of a button goes by, for as long as nothing else moves the focus.
pub proof fn shared_focus_is_seen(
    space: SpaceView,
    surface: Option<u64>,
    changes: Seq<Change>,
    c_focused_surface: u64,
)
    requires
        space.placed(),
        forall|i: int| 0 <= i < changes.len() ==> !(#[trigger] changes[i]).moves_focus(),
    ensures
        space.after_set_focus(surface).after_all(changes).closes_popups(c_focused_surface) <==> (
        surface is None && space.layer_shell_wl_surface == Some(c_focused_surface)),
{
    focus_is_kept(space.after_set_focus(surface), changes);
    placed_space_stays_placed(space.after_set_focus(surface), changes);
}

/// A popup keeps its number and its surface, and only a new popup or a sweep
/// changes which popups there are.
pub proof fn popups_keep_their_numbers(space: SpaceView, change: Change, i: int)
    requires
        space.allows(change),
        !(change is SweepPopups),
        0 <= i < space.popups.len(),
    ensures
        space.after(change).popups.len() == space.popups.len() + (if change is AddPopup {
            1int
        } else {
            0int
        }),
        space.after(change).popups[i].id == space.popups[i].id,
        space.after(change).popups[i].s_surface == space.popups[i].s_surface,
{
    if let Change::DirtyPopup { surface, .. } = change {
        popup::found_popup_is_the_first(space.popups, surface);
    }
}

/// What a popup was told is changed by its own events alone, until it acts on
/// it.
pub proof fn popup_state_is_its_own(space: SpaceView, change: Change, i: int)
    requires
        space.allows(change),
        !(change is SweepPopups),
        0 <= i < space.popups.len(),
    ensures
        space.after(change).popups[i].popup_state == (match change {
            Change::OfPopup { id, event } if id == space.popups[i].id => popup::after_popup_event(
                space.popups[i].popup_state,
                event,
            ),
            _ => space.popups[i].popup_state,
        }),
{
    if let Change::DirtyPopup { surface, .. } = change {
        popup::found_popup_is_the_first(space.popups, surface);
    }
}

} // verus!
