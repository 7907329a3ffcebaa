//! One turn of the event loop.
//!
//! A turn looks at the client's process and windows ([`begin_events`]), acts
//! on what the space was told ([`handle_events`]), drops the popups that are
//! gone ([`sweep_popups`]), draws if it may, and compares the size of what was
//! drawn with that of the space ([`check_surface_size`]).
//!
//! [`begin_events`]: SimpleWrapperSpace::begin_events
//! [`handle_events`]: SimpleWrapperSpace::handle_events
//! [`sweep_popups`]: SimpleWrapperSpace::sweep_popups
//! [`check_surface_size`]: SimpleWrapperSpace::check_surface_size

use vstd::prelude::*;

use crate::damage;
use crate::geometry::{Point, Size};
use crate::layer::LayerSurfaceEvent;
use crate::popup;
use crate::popup::{PopupState, PopupView};
use crate::space::{SimpleWrapperSpace, SpaceEvent, SpaceView};

verus! {

/// The answer to asking whether the client's process has ended.
#[derive(Clone, Copy, Debug, PartialEq, Eq, Structural)]
pub enum ChildPoll {
    Exited,
    Running,
    /// the process could not be asked
    Failed,
}

/// What a turn of the event loop starts with.
#[derive(Clone, Copy, Debug, PartialEq, Eq, Structural)]
pub enum TurnStart {
    /// there is no client left: the program ends
    ChildGone,
    /// the client has closed its last window: it is killed, and the program ends
    Abandoned,
    /// no window is active: the first one is raised, and counts as changed
    ActivateFirst,
    /// the turn goes on
    Proceed,
}

/// What the space wants done about what it was told.
#[derive(Clone, Copy, Debug, PartialEq, Eq, Structural)]
pub enum EventAction {
    /// kill the client
    KillChild,
    /// commit the space's surface and give its buffers the new size
    Resize(Size),
    /// ask the compositor for a size and commit the space's surface
    RequestSize { width: u32, height: u32 },
    /// draw a frame
    Render,
    /// nothing to be done
    Nothing,
}

/// What became of a popup when it acted on what it was told.
#[derive(Clone, Copy, Debug, PartialEq, Eq, Structural)]
pub struct PopupOutcome {
    pub keep: bool,
    pub dirty: bool,
    pub popup_state: Option<PopupState>,
    pub position: Point,
}

impl PopupView {
    /// The popup with an outcome taken over.
    pub open spec fn updated(self, outcome: PopupOutcome) -> PopupView {
        PopupView {
            dirty: outcome.dirty,
            popup_state: outcome.popup_state,
            position: outcome.position,
            ..self
        }
    }
}

/// The popups that are kept, in order, each with its outcome taken over.
pub open spec fn swept(popups: Seq<PopupView>, outcomes: Seq<PopupOutcome>) -> Seq<PopupView>
    decreases popups.len(),
{
    if popups.len() == 0 {
        popups
    } else {
        let before = swept(popups.drop_last(), outcomes.drop_last());
        if outcomes.last().keep {
            before.push(popups.last().updated(outcomes.last()))
        } else {
            before
        }
    }
}

impl SpaceView {
    /// The space after its popups acted on what they were told.
    pub open spec fn after_sweep(self, outcomes: Seq<PopupOutcome>) -> SpaceView {
        SpaceView { popups: swept(self.popups, outcomes), ..self }
    }

    /// The space after the size of its buffers was looked at.
    pub open spec fn after_check_size(self, size: Option<Size>) -> SpaceView {
        SpaceView { full_clear: self.full_clear || size != Some(self.dimensions), ..self }
    }

    /// What a turn starts with, given the state of the client's process and,
    /// for each window, whether it is active.
    pub open spec fn turn_start(self, poll: ChildPoll, activated: Seq<bool>) -> TurnStart {
        if !self.child || poll == ChildPoll::Exited {
            TurnStart::ChildGone
        } else if activated.contains(true) {
            TurnStart::Proceed
        } else if activated.len() > 0 {
            TurnStart::ActivateFirst
        } else if self.last_dirty is Some {
            TurnStart::Abandoned
        } else {
            TurnStart::Proceed
        }
    }

    /// The space takes over a size it was given: one that it does not have,
    /// unless it is about to ask for another.
    pub open spec fn takes_over(self, width: i32, height: i32) -> bool {
        self.dimensions != (Size { w: width, h: height }) && self.pending_dimensions is None
    }

    /// The space after it acted on what it was told.
    pub open spec fn after_events(self) -> SpaceView {
        match self.next_render_event {
            Some(SpaceEvent::Quit) => SpaceView { next_render_event: None, ..self },
            Some(SpaceEvent::Configure { width, height, .. }) => if self.takes_over(width, height) {
                SpaceView {
                    next_render_event: None,
                    dimensions: Size { w: width, h: height },
                    full_clear: true,
                    ..self
                }
            } else {
                SpaceView { next_render_event: None, ..self }
            },
            Some(SpaceEvent::WaitConfigure { .. }) => self,
            None => match self.pending_dimensions {
                Some(size) => SpaceView {
                    pending_dimensions: None,
                    next_render_event: Some(
                        SpaceEvent::WaitConfigure { width: size.w, height: size.h },
                    ),
                    ..self
                },
                None => self,
            },
        }
    }

    /// What the space wants done about what it was told.
    pub open spec fn event_action(self) -> EventAction {
        match self.next_render_event {
            Some(SpaceEvent::Quit) => if self.child {
                EventAction::KillChild
            } else {
                EventAction::Nothing
            },
            Some(SpaceEvent::Configure { width, height, .. }) => if self.takes_over(width, height) {
                EventAction::Resize(Size { w: width, h: height })
            } else {
                EventAction::Nothing
            },
            Some(SpaceEvent::WaitConfigure { .. }) => EventAction::Nothing,
            None => match self.pending_dimensions {
                Some(size) => EventAction::RequestSize {
                    width: size.w as u32,
                    height: size.h as u32,
                },
                None => EventAction::Render,
            },
        }
    }
}

impl SimpleWrapperSpace {
    /// Decides how a turn of the event loop starts. `poll` is the state of the
    /// client's process, if it was started, and `activated` tells for each
    /// window whether it is the active one.
    pub fn begin_events(&self, poll: ChildPoll, activated: &Vec<bool>) -> (start: TurnStart)
        ensures
            start == self@.turn_start(poll, activated@),
    {
        if !self.child || poll == ChildPoll::Exited {
            return TurnStart::ChildGone;
        }
        let mut i: usize = 0;
        while i < activated.len()
            invariant
                i <= activated.len(),
                forall|j: int| 0 <= j < i ==> !activated@[j],
                self.child,
                poll != ChildPoll::Exited,
            decreases activated.len() - i,
        {
            if activated[i] {
                assert(activated@.contains(true));
                return TurnStart::Proceed;
            }
            i = i + 1;
        }
        assert(!activated@.contains(true));
        if activated.len() > 0 {
            TurnStart::ActivateFirst
        } else if self.last_dirty.is_some() {
            TurnStart::Abandoned
        } else {
            TurnStart::Proceed
        }
    }

    /// Acts on what the space was told since the last turn, and says what is
    /// to be done about it.
    pub fn handle_events(&mut self) -> (action: EventAction)
        requires
            old(self).wf(),
        ensures
            final(self).wf(),
            final(self)@ == old(self)@.after_events(),
            action == old(self)@.event_action(),
    {
        match self.next_render_event {
            Some(SpaceEvent::Quit) => {
                self.next_render_event = None;
                if self.child {
                    EventAction::KillChild
                } else {
                    EventAction::Nothing
                }
            },
            Some(SpaceEvent::Configure { width, height, .. }) => {
                self.next_render_event = None;
                let size = Size { w: width, h: height };
                if self.dimensions != size && self.pending_dimensions.is_none() {
                    self.dimensions = size;
                    self.full_clear = true;
                    EventAction::Resize(size)
                } else {
                    EventAction::Nothing
                }
            },
            Some(SpaceEvent::WaitConfigure { .. }) => EventAction::Nothing,
            None => match self.pending_dimensions {
                Some(size) => {
                    self.pending_dimensions = None;
                    self.next_render_event = Some(
                        SpaceEvent::WaitConfigure { width: size.w, height: size.h },
                    );
                    EventAction::RequestSize { width: size.w as u32, height: size.h as u32 }
                },
                None => EventAction::Render,
            },
        }
    }

    /// Drops the popups that are not kept, and takes over what became of the
    /// others. There is one outcome for each popup, in order. A popup that is
    /// dropped is left with the state of its outcome, which belongs from then on
    /// to whoever still gets its events.
    pub fn sweep_popups(&mut self, outcomes: &Vec<PopupOutcome>)
        requires
            old(self).wf(),
            outcomes@.len() == old(self)@.popups.len(),
        ensures
            final(self).wf(),
            final(self)@ == old(self)@.after_sweep(outcomes@),
    {
        let ghost start = self@;
        let ghost before = self@.popups;
        let mut kept: usize = 0;
        let mut i: usize = 0;
        assert(before.take(0) =~= Seq::empty());
        assert(outcomes@.take(0) =~= Seq::empty());
        assert(before.skip(0) =~= before);
        assert(self@.popups =~= swept(before.take(0), outcomes@.take(0)) + before.skip(0));
        while i < outcomes.len()
            invariant
                i <= outcomes.len(),
                outcomes@.len() == before.len(),
                start.wf(),
                before == start.popups,
                kept <= i,
                kept == swept(before.take(i as int), outcomes@.take(i as int)).len(),
                self@.popups == swept(before.take(i as int), outcomes@.take(i as int))
                    + before.skip(i as int),
                self@ == (SpaceView { popups: self@.popups, ..start }),
            decreases outcomes.len() - i,
        {
            let ghost done = swept(before.take(i as int), outcomes@.take(i as int));
            let ghost rest = self@.popups;
            assert(before.take(i + 1).drop_last() =~= before.take(i as int));
            assert(outcomes@.take(i + 1).drop_last() =~= outcomes@.take(i as int));
            assert(self@.popups.len() == self.popups@.len());
            assert(rest[kept as int] == before[i as int]);
            let outcome: PopupOutcome = outcomes[i];
            if outcome.keep {
                self.popups[kept].dirty = outcome.dirty;
                self.popups[kept].popup_state = outcome.popup_state;
                self.popups[kept].position = outcome.position;
                assert(self@.popups =~= rest.update(
                    kept as int,
                    before[i as int].updated(outcome),
                ));
                assert(self@.popups =~= done.push(before[i as int].updated(outcome)) + before.skip(
                    i + 1,
                ));
                kept = kept + 1;
            } else {
                self.popups.remove(kept);
                assert(self@.popups =~= rest.remove(kept as int));
                assert(self@.popups =~= done + before.skip(i + 1));
            }
            i = i + 1;
        }
        assert(before.take(i as int) =~= before);
        assert(outcomes@.take(i as int) =~= outcomes@);
        assert(self@.popups =~= swept(before, outcomes@));
        proof {
            swept_keeps_bound(before, outcomes@);
            swept_keeps_ids(before, outcomes@);
        }
    }

    /// Compares the size of the space's buffers with that of the space: where
    /// they differ, the next frame is drawn whole.
    pub fn check_surface_size(&mut self, size: Option<Size>)
        requires
            old(self).wf(),
        ensures
            final(self).wf(),
            final(self)@ == old(self)@.after_check_size(size),
    {
        let same: bool = match size {
            Some(size) => size == self.dimensions,
            None => false,
        };
        if !same {
            self.full_clear = true;
        }
    }

    /// When the client last changed, or now if it never has.
    pub fn dirty_time(&self, now: u64) -> (time: u64)
        ensures
            time == (match self@.last_dirty {
                Some(last) => last,
                None => now,
            }),
    {
        self.last_dirty.unwrap_or(now)
    }
}

proof fn swept_keeps_bound(popups: Seq<PopupView>, outcomes: Seq<PopupOutcome>)
    requires
        popups.len() == outcomes.len(),
        forall|i: int|
            0 <= i < popups.len() ==> (#[trigger] popups[i]).accumulated_damage.len()
                <= damage::KEPT_FRAMES,
    ensures
        forall|i: int|
            0 <= i < swept(popups, outcomes).len() ==> (#[trigger] swept(
                popups,
                outcomes,
            )[i]).accumulated_damage.len() <= damage::KEPT_FRAMES,
    decreases popups.len(),
{
    if popups.len() > 0 {
        assert forall|i: int| 0 <= i < popups.drop_last().len() implies (
        #[trigger] popups.drop_last()[i]).accumulated_damage.len() <= damage::KEPT_FRAMES by {
            assert(popups.drop_last()[i] == popups[i]);
        }
        swept_keeps_bound(popups.drop_last(), outcomes.drop_last());
    }
}

proof fn swept_keeps_ids(popups: Seq<PopupView>, outcomes: Seq<PopupOutcome>)
    requires
        popups.len() == outcomes.len(),
        popup::ids_differ(popups),
    ensures
        popup::ids_differ(swept(popups, outcomes)),
        forall|i: int|
            0 <= i < swept(popups, outcomes).len() ==> exists|j: int|
                0 <= j < popups.len() && (#[trigger] popups[j]).id == (#[trigger] swept(
                    popups,
                    outcomes,
                )[i]).id,
    decreases popups.len(),
{
    if popups.len() > 0 {
        let rest = popups.drop_last();
        swept_keeps_ids(rest, outcomes.drop_last());
        let before = swept(rest, outcomes.drop_last());
        assert forall|i: int| 0 <= i < before.len() implies exists|j: int|
            0 <= j < rest.len() && (#[trigger] popups[j]).id == (#[trigger] before[i]).id by {
            let j = choose|j: int| 0 <= j < rest.len() && (#[trigger] rest[j]).id == before[i].id;
            assert(popups[j] == rest[j]);
        }
        assert(popups.last() == popups[popups.len() - 1]);
    }
}

/// A space that has been told something, or has a size to ask for, does not
/// draw in that turn; a space that waits for a size goes on waiting.
pub proof fn waiting_space_does_not_draw(space: SpaceView)
    ensures
        space.event_action() == EventAction::Render <==> space.next_render_event is None
            && space.pending_dimensions is None,
        space.next_render_event matches Some(SpaceEvent::WaitConfigure { .. })
            ==> space.after_events() == space && space.event_action() == EventAction::Nothing,
{
}

/// A size that is pending is asked for once, and the answer of the compositor,
/// whatever size it gives, becomes the size of the space in the turn after it.
pub proof fn requested_size_is_answered(space: SpaceView, serial: u32, width: u32, height: u32)
    requires
        space.wf(),
        space.next_render_event is None,
        space.pending_dimensions is Some,
        width <= i32::MAX,
        height <= i32::MAX,
    ensures
        ({
            let size = space.pending_dimensions->0;
            let given = Size { w: width as i32, h: height as i32 };
            let asked = space.after_events();
            let told = asked.after_layer_event(
                LayerSurfaceEvent::Configure { serial, width, height },
            );
            let done = told.after_events();
            &&& space.event_action() == EventAction::RequestSize {
                width: size.w as u32,
                height: size.h as u32,
            }
            &&& asked.pending_dimensions is None
            &&& asked.after_events() == asked
            &&& told.event_action() == (if space.dimensions == given {
                EventAction::Nothing
            } else {
                EventAction::Resize(given)
            })
            &&& done.dimensions == given
            &&& done.full_clear == (space.full_clear || space.dimensions != given)
            &&& done.event_action() == EventAction::Render
        }),
{
}

/// Whoever shares the event of a space can tell it to go away: no event of its
/// layer surface keeps it from doing so, and its client is killed in the next
/// turn.
pub proof fn told_space_goes_away(space: SpaceView, event: LayerSurfaceEvent)
    ensures
        ({
            let told = space.after_set_event(Some(SpaceEvent::Quit));
            &&& told.after_layer_event(event) == told
            &&& told.event_action() == (if space.child {
                EventAction::KillChild
            } else {
                EventAction::Nothing
            })
        }),
{
}

/// A client is killed only if there is one.
pub proof fn only_a_client_is_killed(space: SpaceView, poll: ChildPoll, activated: Seq<bool>)
    ensures
        space.turn_start(poll, activated) == TurnStart::Abandoned ==> space.child,
        space.event_action() == EventAction::KillChild ==> space.child,
{
}

/// A space that was just placed draws nothing until the compositor has given it
/// a size, which it then has, and draws whole.
pub proof fn placed_space_waits_for_its_size(
    space: SpaceView,
    output: Option<u64>,
    output_info: bool,
    c_surface: u64,
    focused_surface: Option<u64>,
    serial: u32,
    width: u32,
    height: u32,
)
    requires
        space.wf(),
        space.pending_dimensions is None,
        width <= i32::MAX,
        height <= i32::MAX,
    ensures
        ({
            let placed = space.after_add_output(output, output_info, c_surface, focused_surface);
            let told = placed.after_layer_event(
                LayerSurfaceEvent::Configure { serial, width, height },
            );
            let done = told.after_events();
            &&& placed.after_events() == placed
            &&& placed.event_action() == EventAction::Nothing
            &&& done.dimensions == Size { w: width as i32, h: height as i32 }
            &&& done.full_clear
            &&& done.event_action() == EventAction::Render
        }),
{
}

/// A turn ends the program exactly when the client is gone, or has shown something
/// and has no window left; a running client that has a window is never ended.
pub proof fn turn_ends_with_the_client(space: SpaceView, poll: ChildPoll, activated: Seq<bool>)
    ensures
        space.turn_start(poll, activated) == TurnStart::ChildGone <==> !space.child || poll
            == ChildPoll::Exited,
        space.turn_start(poll, activated) == TurnStart::Abandoned <==> {
            &&& space.child
            &&& poll != ChildPoll::Exited
            &&& activated.len() == 0
            &&& space.last_dirty is Some
        },
{
}

/// While the client runs and has windows of which none is active, the turn starts
/// with the first of them being raised, whether or not anything has changed before;
/// with an active window the turn goes on.
pub proof fn some_window_is_made_active(
    space: SpaceView,
    poll: ChildPoll,
    activated: Seq<bool>,
    i: int,
)
    requires
        space.child,
        poll != ChildPoll::Exited,
        0 <= i < activated.len(),
    ensures
        activated[i] ==> space.turn_start(poll, activated) == TurnStart::Proceed,
        (forall|j: int| 0 <= j < activated.len() ==> !(#[trigger] activated[j]))
            ==> space.turn_start(poll, activated) == TurnStart::ActivateFirst,
        space.turn_start(poll, activated) == TurnStart::ActivateFirst ==> !activated[i],
{
}

/// A client that has shown nothing yet and has no window is waited for.
pub proof fn starting_client_is_waited_for(space: SpaceView, poll: ChildPoll)
    requires
        space.child,
        poll != ChildPoll::Exited,
        space.last_dirty is None,
    ensures
        space.turn_start(poll, Seq::empty()) == TurnStart::Proceed,
{
}

/// A size that the compositor has given is taken over in the next turn, with the
/// buffers resized to it and a whole frame to be drawn, unless the space has that
/// size or is to ask for another. Either way the space has nothing left to act
/// upon, and what it is to ask for stays.
pub proof fn given_size_is_taken_over(space: SpaceView, width: i32, height: i32, serial: u32)
    requires
        space.next_render_event == Some(SpaceEvent::Configure { width, height, serial }),
    ensures
        ({
            let after = space.after_events();
            let other = space.dimensions.w != width || space.dimensions.h != height;
            &&& after.next_render_event is None
            &&& after.pending_dimensions == space.pending_dimensions
            &&& other && space.pending_dimensions is None ==> {
                &&& after.dimensions.w == width && after.dimensions.h == height
                &&& after.full_clear
                &&& space.event_action() == EventAction::Resize(after.dimensions)
            }
            &&& !other || space.pending_dimensions is Some ==> {
                &&& after.dimensions == space.dimensions
                &&& after.full_clear == space.full_clear
                &&& space.event_action() == EventAction::Nothing
            }
        }),
{
}

/// A size to ask for is asked for in the first turn in which there is nothing to act
/// upon, as it is, and the space then waits for just that size.
pub proof fn pending_size_is_asked_for(space: SpaceView, pending: Size)
    requires
        pending.wf(),
        space.pending_dimensions == Some(pending),
        space.next_render_event is None,
    ensures
        ({
            let after = space.after_events();
            &&& space.event_action() matches EventAction::RequestSize { width, height }
            &&& width == pending.w && height == pending.h
            &&& after.next_render_event == Some(
                SpaceEvent::WaitConfigure { width: pending.w, height: pending.h },
            )
            &&& after.pending_dimensions is None
            &&& after.dimensions == space.dimensions
            &&& after.full_clear == space.full_clear
        }),
{
}

/// A space that is told to go away has its client killed, if it has one, and is told
/// so once; its size stays as it is.
pub proof fn going_away_kills_the_client(space: SpaceView)
    requires
        space.next_render_event == Some(SpaceEvent::Quit),
    ensures
        ({
            let after = space.after_events();
            &&& space.child ==> space.event_action() == EventAction::KillChild
            &&& !space.child ==> space.event_action() == EventAction::Nothing
            &&& after.next_render_event is None
            &&& after.dimensions == space.dimensions
            &&& after.pending_dimensions == space.pending_dimensions
            &&& after.full_clear == space.full_clear
        }),
{
}

/// Acting on what it was told changes nothing of a space but its size, what it asks
/// for, what it acts upon and whether the next frame is drawn whole; without
/// anything to act upon or to ask for it changes nothing.
pub proof fn acting_changes_the_size_alone(space: SpaceView)
    ensures
        ({
            let after = space.after_events();
            &&& after.config == space.config
            &&& after.child == space.child
            &&& after.last_dirty == space.last_dirty
            &&& after.focused_surface == space.focused_surface
            &&& after.output == space.output
            &&& after.layer_shell == space.layer_shell
            &&& after.layer_shell_wl_surface == space.layer_shell_wl_surface
            &&& after.popups == space.popups
            &&& after.w_accumulated_damage == space.w_accumulated_damage
        }),
        space.next_render_event is None && space.pending_dimensions is None ==> space.after_events()
            == space,
{
}

proof fn swept_all_kept(popups: Seq<PopupView>, outcomes: Seq<PopupOutcome>)
    requires
        popups.len() == outcomes.len(),
        forall|i: int| 0 <= i < outcomes.len() ==> (#[trigger] outcomes[i]).keep,
    ensures
        swept(popups, outcomes).len() == popups.len(),
        forall|i: int|
            0 <= i < popups.len() ==> #[trigger] swept(popups, outcomes)[i] == popups[i].updated(
                outcomes[i],
            ),
    decreases popups.len(),
{
    if popups.len() > 0 {
        assert forall|i: int| 0 <= i < outcomes.drop_last().len() implies (
        #[trigger] outcomes.drop_last()[i]).keep by {
            assert(outcomes[i].keep);
        }
        assert(outcomes[outcomes.len() - 1].keep);
        swept_all_kept(popups.drop_last(), outcomes.drop_last());
    }
}

/// Popups that are all kept stay in order, each with what became of it, and with the
/// number, the surface and the damage that it had. Nothing else of the space changes.
pub proof fn kept_popups_stay_in_order(space: SpaceView, outcomes: Seq<PopupOutcome>, i: int)
    requires
        outcomes.len() == space.popups.len(),
        forall|j: int| 0 <= j < outcomes.len() ==> (#[trigger] outcomes[j]).keep,
        0 <= i < outcomes.len(),
    ensures
        ({
            let after = space.after_sweep(outcomes);
            &&& after.popups.len() == space.popups.len()
            &&& after.popups[i].dirty == outcomes[i].dirty
            &&& after.popups[i].popup_state == outcomes[i].popup_state
            &&& after.popups[i].position == outcomes[i].position
            &&& after.popups[i].id == space.popups[i].id
            &&& after.popups[i].s_surface == space.popups[i].s_surface
            &&& after.popups[i].accumulated_damage == space.popups[i].accumulated_damage
        }),
{
    swept_all_kept(space.popups, outcomes);
}

proof fn swept_without(popups: Seq<PopupView>, outcomes: Seq<PopupOutcome>, i: int)
    requires
        popups.len() == outcomes.len(),
        0 <= i < popups.len(),
        !outcomes[i].keep,
    ensures
        swept(popups, outcomes) == swept(popups.remove(i), outcomes.remove(i)),
    decreases popups.len(),
{
    if i == popups.len() - 1 {
        assert(popups.remove(i) =~= popups.drop_last());
        assert(outcomes.remove(i) =~= outcomes.drop_last());
    } else {
        swept_without(popups.drop_last(), outcomes.drop_last(), i);
        assert(popups.remove(i).drop_last() =~= popups.drop_last().remove(i));
        assert(outcomes.remove(i).drop_last() =~= outcomes.drop_last().remove(i));
        assert(popups.remove(i).last() == popups.last());
        assert(outcomes.remove(i).last() == outcomes.last());
    }
}

/// A popup that is not kept leaves the space as if it had never been there.
pub proof fn dropped_popup_leaves_no_trace(
    space: SpaceView,
    outcomes: Seq<PopupOutcome>,
    i: int,
)
    requires
        outcomes.len() == space.popups.len(),
        0 <= i < outcomes.len(),
        !outcomes[i].keep,
    ensures
        space.after_sweep(outcomes) == (SpaceView {
            popups: space.popups.remove(i),
            ..space
        }).after_sweep(outcomes.remove(i)),
{
    swept_without(space.popups, outcomes, i);
}

/// A sweep changes nothing of a space but its popups, and looking at the size of its
/// buffers changes at most whether the next frame is drawn whole: it is exactly if it
/// was to be or the buffers have no size or another than the space.
pub proof fn sweep_and_size_check_change_no_more(
    space: SpaceView,
    outcomes: Seq<PopupOutcome>,
    size: Option<Size>,
)
    ensures
        space.after_sweep(outcomes) == (SpaceView {
            popups: space.after_sweep(outcomes).popups,
            ..space
        }),
        space.after_check_size(size) == (SpaceView {
            full_clear: space.after_check_size(size).full_clear,
            ..space
        }),
        space.full_clear || size is None ==> space.after_check_size(size).full_clear,
        size matches Some(s) ==> (space.after_check_size(size).full_clear <==> space.full_clear
            || s.w != space.dimensions.w || s.h != space.dimensions.h),
        space.popups.len() == 0 && outcomes.len() == 0 ==> space.after_sweep(outcomes) == space,
{
}

} // verus!
