//! Popups of the client, and how they are placed.

use std::collections::VecDeque;

use vstd::prelude::*;

use crate::damage;
use crate::geometry::{Point, Rectangle, Size};
use crate::space::{SimpleWrapperSpace, SpaceView};

verus! {

/// What a popup has been told by the compositor and not yet acted upon.
#[derive(Clone, Copy, Debug, PartialEq, Eq, Structural)]
pub enum PopupState {
    /// the popup has not been configured yet
    WaitConfigure,
    Configure { x: i32, y: i32, width: i32, height: i32 },
    Repositioned(u32),
    Closed,
}

/// An event of a popup's role object.
#[derive(Clone, Copy, Debug, PartialEq, Eq, Structural)]
pub enum PopupEvent {
    Configure { x: i32, y: i32, width: i32, height: i32 },
    PopupDone,
    Repositioned { token: u32 },
    /// any event of a later version of the protocol
    Other,
}

/// A popup of the space. It goes by a number of its own: the number of a surface
/// may come back once the surface is gone.
#[derive(Debug)]
pub struct Popup {
    /// the number of the popup, which no other popup of the space has
    pub id: u64,
    /// the client's surface, by the number the program knows it under
    pub s_surface: u64,
    /// whether the popup has changed since it was last drawn
    pub dirty: bool,
    pub popup_state: Option<PopupState>,
    pub position: Point,
    /// the damage of the last frames, newest first
    pub accumulated_damage: VecDeque<Vec<Rectangle>>,
}

/// The mathematical value of a popup.
#[verifier::ext_equal]
pub struct PopupView {
    pub id: u64,
    pub s_surface: u64,
    pub dirty: bool,
    pub popup_state: Option<PopupState>,
    pub position: Point,
    pub accumulated_damage: Seq<Seq<Rectangle>>,
}

impl View for Popup {
    type V = PopupView;

    open spec fn view(&self) -> PopupView {
        PopupView {
            id: self.id,
            s_surface: self.s_surface,
            dirty: self.dirty,
            popup_state: self.popup_state,
            position: self.position,
            accumulated_damage: damage::contents(self.accumulated_damage@),
        }
    }
}

impl PopupView {
    /// A popup that was just created and waits for its first configuration.
    pub open spec fn created(id: u64, s_surface: u64) -> PopupView {
        PopupView {
            id,
            s_surface,
            dirty: false,
            popup_state: Some(PopupState::WaitConfigure),
            position: Point { x: 0, y: 0 },
            accumulated_damage: Seq::empty(),
        }
    }

    /// A popup is drawn when it has changed and nothing is left to act upon.
    pub open spec fn drawable(self) -> bool {
        self.dirty && self.popup_state is None
    }

    /// The popup once an event of its own has come.
    pub open spec fn told(self, event: PopupEvent) -> PopupView {
        PopupView { popup_state: after_popup_event(self.popup_state, event), ..self }
    }
}

impl Popup {
    /// A popup for the given surface, waiting to be configured.
    pub fn new(id: u64, s_surface: u64) -> (popup: Popup)
        ensures
            popup@ == PopupView::created(id, s_surface),
    {
        let popup = Popup {
            id,
            s_surface,
            dirty: false,
            popup_state: Some(PopupState::WaitConfigure),
            position: Point { x: 0, y: 0 },
            accumulated_damage: VecDeque::new(),
        };
        assert(popup@ =~= PopupView::created(id, s_surface));
        popup
    }
}

/// What a popup is left with once an event has come: a closed popup stays
/// closed, and any other takes over what the event says.
pub open spec fn after_popup_event(
    state: Option<PopupState>,
    event: PopupEvent,
) -> Option<PopupState> {
    if state == Some(PopupState::Closed) {
        state
    } else {
        match event {
            PopupEvent::Configure { x, y, width, height } => Some(
                PopupState::Configure { x, y, width, height },
            ),
            PopupEvent::PopupDone => Some(PopupState::Closed),
            PopupEvent::Repositioned { token } => Some(PopupState::Repositioned(token)),
            PopupEvent::Other => state,
        }
    }
}

/// Whether the client is told about the event: only a configuration of a popup
/// that is not closed is passed on.
pub open spec fn passed_to_client(state: Option<PopupState>, event: PopupEvent) -> bool {
    state != Some(PopupState::Closed) && event is Configure
}

/// The state of a popup after an event, and whether the client's popup is to
/// be sent a configuration.
pub fn popup_event(state: Option<PopupState>, event: PopupEvent) -> (out: (
    Option<PopupState>,
    bool,
))
    ensures
        out.0 == after_popup_event(state, event),
        out.1 == passed_to_client(state, event),
{
    if let Some(PopupState::Closed) = state {
        return (state, false);
    }
    match event {
        PopupEvent::Configure { x, y, width, height } => (
            Some(PopupState::Configure { x, y, width, height }),
            true,
        ),
        PopupEvent::PopupDone => (Some(PopupState::Closed), false),
        PopupEvent::Repositioned { token } => (Some(PopupState::Repositioned(token)), false),
        PopupEvent::Other => (state, false),
    }
}

/// The state after a sequence of events.
pub open spec fn after_popup_events(
    state: Option<PopupState>,
    events: Seq<PopupEvent>,
) -> Option<PopupState>
    decreases events.len(),
{
    if events.len() == 0 {
        state
    } else {
        after_popup_event(after_popup_events(state, events.drop_last()), events.last())
    }
}

/// Once a popup was done, no event opens it again or reaches the client.
pub proof fn done_popup_stays_closed(
    state: Option<PopupState>,
    events: Seq<PopupEvent>,
    event: PopupEvent,
)
    requires
        events.contains(PopupEvent::PopupDone),
    ensures
        after_popup_events(state, events) == Some(PopupState::Closed),
        !passed_to_client(after_popup_events(state, events), event),
    decreases events.len(),
{
    if events.last() != PopupEvent::PopupDone {
        let i = choose|i: int| 0 <= i < events.len() && events[i] == PopupEvent::PopupDone;
        assert(events.drop_last()[i] == PopupEvent::PopupDone);
        done_popup_stays_closed(state, events.drop_last(), event);
    }
}

/// How the client wants a popup to be placed.
#[derive(Clone, Copy, Debug, PartialEq, Eq, Structural)]
pub struct PositionerState {
    pub rect_size: Size,
    /// the area that the popup is placed at, relative to its parent window
    pub anchor_rect: Rectangle,
    /// the protocol's number of an anchor
    pub anchor_edges: u32,
    /// the protocol's number of a gravity
    pub gravity: u32,
    /// the protocol's bit set of adjustments
    pub constraint_adjustment: u32,
    pub offset: Point,
    pub reactive: bool,
    pub parent_size: Option<Size>,
}

/// What is asked of the compositor to place a popup.
#[derive(Clone, Copy, Debug, PartialEq, Eq, Structural)]
pub struct PositionerRequests {
    pub size: Size,
    /// the area that the popup is placed at, relative to the space
    pub anchor_rect: Rectangle,
    /// the protocol's number of an anchor
    pub anchor: u32,
    /// the protocol's number of a gravity
    pub gravity: u32,
    pub constraint_adjustment: u32,
    pub offset: Point,
    pub reactive: bool,
    pub parent_size: Option<Size>,
}

/// The version of the positioner from which popups can be reactive.
pub const REACTIVE_SINCE: u32 = 3;

/// The number of an anchor or a gravity, or `None` if there is none of that
/// number: the protocol has nothing, four edges and four corners.
pub open spec fn edge(raw: u32) -> Option<u32> {
    if raw <= 8 {
        Some(raw)
    } else {
        None
    }
}

/// `raw`, or the number that stands for no edge where `raw` is not known.
pub open spec fn edge_or_none(raw: u32) -> u32 {
    match edge(raw) {
        Some(raw) => raw,
        None => 0,
    }
}

impl PositionerState {
    /// The area keeps its place when it is moved along with its window.
    pub open spec fn fits_at(self, window: Point) -> bool {
        &&& i32::MIN <= self.anchor_rect.loc.x + window.x <= i32::MAX
        &&& i32::MIN <= self.anchor_rect.loc.y + window.y <= i32::MAX
    }

    /// The requests for a window at the given place in the space. The last two
    /// are made only of a positioner that knows them.
    pub open spec fn requests_at(self, window: Point, version: u32) -> PositionerRequests {
        PositionerRequests {
            size: self.rect_size,
            anchor_rect: Rectangle {
                loc: Point {
                    x: (self.anchor_rect.loc.x + window.x) as i32,
                    y: (self.anchor_rect.loc.y + window.y) as i32,
                },
                size: self.anchor_rect.size,
            },
            anchor: edge_or_none(self.anchor_edges),
            gravity: edge_or_none(self.gravity),
            constraint_adjustment: self.constraint_adjustment,
            offset: self.offset,
            reactive: version >= REACTIVE_SINCE && self.reactive,
            parent_size: if version >= REACTIVE_SINCE {
                self.parent_size
            } else {
                None
            },
        }
    }

    /// Whether the area can be moved along with its window.
    pub fn can_move_to(&self, window: Point) -> (fits: bool)
        ensures
            fits == self.fits_at(window),
    {
        let x: i64 = self.anchor_rect.loc.x as i64 + window.x as i64;
        let y: i64 = self.anchor_rect.loc.y as i64 + window.y as i64;
        i32::MIN as i64 <= x && x <= i32::MAX as i64 && i32::MIN as i64 <= y && y <= i32::MAX as i64
    }

    /// What is asked of the compositor for a popup of a window at the given
    /// place in the space.
    pub fn requests(&self, window: Point, version: u32) -> (requests: PositionerRequests)
        requires
            self.fits_at(window),
        ensures
            requests == self.requests_at(window, version),
    {
        PositionerRequests {
            size: self.rect_size,
            anchor_rect: Rectangle {
                loc: Point {
                    x: self.anchor_rect.loc.x + window.x,
                    y: self.anchor_rect.loc.y + window.y,
                },
                size: self.anchor_rect.size,
            },
            anchor: anchor_from_raw(self.anchor_edges).unwrap_or(0),
            gravity: gravity_from_raw(self.gravity).unwrap_or(0),
            constraint_adjustment: self.constraint_adjustment,
            offset: self.offset,
            reactive: version >= REACTIVE_SINCE && self.reactive,
            parent_size: if version >= REACTIVE_SINCE {
                self.parent_size
            } else {
                None
            },
        }
    }
}

/// `Anchor::from_raw` of the xdg-shell client protocol: the anchor with the
/// given number, which is handed back as that number, or `None` for a number
/// above that of the last anchor.
#[verifier::external_body]
fn anchor_from_raw(raw: u32) -> (anchor: Option<u32>)
    ensures
        anchor == edge(raw),
{
    smithay_client_toolkit::reexports::protocols::xdg_shell::client::xdg_positioner::Anchor::from_raw(raw)
        .map(|anchor| anchor.to_raw())
}

/// `Gravity::from_raw` of the xdg-shell client protocol: the gravity with the
/// given number, which is handed back as that number, or `None` for a number
/// above that of the last gravity.
#[verifier::external_body]
fn gravity_from_raw(raw: u32) -> (gravity: Option<u32>)
    ensures
        gravity == edge(raw),
{
    smithay_client_toolkit::reexports::protocols::xdg_shell::client::xdg_positioner::Gravity::from_raw(raw)
        .map(|gravity| gravity.to_raw())
}

/// Where a window of the client is.
#[derive(Clone, Copy, Debug, PartialEq, Eq, Structural)]
pub struct WindowPlace {
    /// the surface of the window
    pub surface: u64,
    /// the top-left corner of the window's bounding box
    pub loc: Point,
}

/// The position of the first window whose surface is the given one.
pub open spec fn window_for(windows: Seq<WindowPlace>, surface: u64) -> Option<int>
    decreases windows.len(),
{
    if windows.len() == 0 {
        None
    } else {
        match window_for(windows.drop_last(), surface) {
            Some(i) => Some(i),
            None => if windows.last().surface == surface {
                Some(windows.len() - 1)
            } else {
                None
            },
        }
    }
}

/// The position of the first window whose surface is the parent's, if there is
/// a parent.
pub open spec fn parent_window(windows: Seq<WindowPlace>, parent: Option<u64>) -> Option<int> {
    match parent {
        Some(surface) => window_for(windows, surface),
        None => None,
    }
}

/// The position of the first popup whose surface is the given one.
pub open spec fn popup_for(popups: Seq<PopupView>, surface: u64) -> Option<int>
    decreases popups.len(),
{
    if popups.len() == 0 {
        None
    } else {
        match popup_for(popups.drop_last(), surface) {
            Some(i) => Some(i),
            None => if popups.last().s_surface == surface {
                Some(popups.len() - 1)
            } else {
                None
            },
        }
    }
}

proof fn window_for_prefix(windows: Seq<WindowPlace>, surface: u64, n: int)
    requires
        0 <= n <= windows.len(),
        window_for(windows.take(n), surface) is Some,
    ensures
        window_for(windows, surface) == window_for(windows.take(n), surface),
    decreases windows.len(),
{
    if n == windows.len() {
        assert(windows.take(n) =~= windows);
    } else {
        assert(windows.drop_last().take(n) =~= windows.take(n));
        window_for_prefix(windows.drop_last(), surface, n);
    }
}

proof fn popup_for_prefix(popups: Seq<PopupView>, surface: u64, n: int)
    requires
        0 <= n <= popups.len(),
        popup_for(popups.take(n), surface) is Some,
    ensures
        popup_for(popups, surface) == popup_for(popups.take(n), surface),
    decreases popups.len(),
{
    if n == popups.len() {
        assert(popups.take(n) =~= popups);
    } else {
        assert(popups.drop_last().take(n) =~= popups.take(n));
        popup_for_prefix(popups.drop_last(), surface, n);
    }
}

/// The popup that is found for a surface has that surface, and no popup before
/// it has; if none is found, no popup has that surface.
pub proof fn found_popup_is_the_first(popups: Seq<PopupView>, surface: u64)
    ensures
        match popup_for(popups, surface) {
            Some(i) => {
                &&& 0 <= i < popups.len()
                &&& popups[i].s_surface == surface
                &&& forall|j: int| 0 <= j < i ==> (#[trigger] popups[j]).s_surface != surface
            },
            None => forall|j: int|
                0 <= j < popups.len() ==> (#[trigger] popups[j]).s_surface != surface,
        },
    decreases popups.len(),
{
    if popups.len() > 0 {
        let rest = popups.drop_last();
        found_popup_is_the_first(rest, surface);
        assert forall|j: int| 0 <= j < rest.len() implies rest[j] == #[trigger] popups[j] by {}
    }
}

/// The window that is found for a surface has that surface, and no window before
/// it has; if none is found, no window has that surface.
pub proof fn found_window_is_the_first(windows: Seq<WindowPlace>, surface: u64)
    ensures
        match window_for(windows, surface) {
            Some(i) => {
                &&& 0 <= i < windows.len()
                &&& windows[i].surface == surface
                &&& forall|j: int| 0 <= j < i ==> (#[trigger] windows[j]).surface != surface
            },
            None => forall|j: int|
                0 <= j < windows.len() ==> (#[trigger] windows[j]).surface != surface,
        },
    decreases windows.len(),
{
    if windows.len() > 0 {
        let rest = windows.drop_last();
        found_window_is_the_first(rest, surface);
        assert forall|j: int| 0 <= j < rest.len() implies rest[j] == #[trigger] windows[j] by {}
    }
}

/// The position of the first window whose surface is that of the parent.
pub fn find_parent(windows: &Vec<WindowPlace>, parent: Option<u64>) -> (index: Option<usize>)
    ensures
        index is Some == parent_window(windows@, parent) is Some,
        index matches Some(i) ==> parent_window(windows@, parent) == Some(i as int) && i
            < windows@.len(),
{
    let wanted: u64 = match parent {
        Some(wanted) => wanted,
        None => {
            return None;
        },
    };
    let mut i: usize = 0;
    assert(windows@.take(0) =~= Seq::empty());
    while i < windows.len()
        invariant
            i <= windows.len(),
            parent == Some(wanted),
            window_for(windows@.take(i as int), wanted) is None,
        decreases windows.len() - i,
    {
        assert(windows@.take(i + 1).drop_last() =~= windows@.take(i as int));
        if windows[i].surface == wanted {
            proof {
                window_for_prefix(windows@, wanted, i + 1);
            }
            return Some(i);
        }
        i = i + 1;
    }
    assert(windows@.take(i as int) =~= windows@);
    None
}

/// No two popups go by the same number.
pub open spec fn ids_differ(popups: Seq<PopupView>) -> bool {
    forall|i: int, j: int|
        0 <= i < j < popups.len() ==> (#[trigger] popups[i]).id != (#[trigger] popups[j]).id
}

impl SpaceView {
    /// The space with a popup replaced.
    pub open spec fn with_popup(self, index: int, popup: PopupView) -> SpaceView {
        SpaceView { popups: self.popups.update(index, popup), ..self }
    }

    /// A popup of the space goes by the given number.
    pub open spec fn lists(self, id: u64) -> bool {
        exists|i: int| 0 <= i < self.popups.len() && (#[trigger] self.popups[i]).id == id
    }

    /// The space with a new popup, which comes last.
    pub open spec fn after_add_popup(self, id: u64, s_surface: u64) -> SpaceView {
        SpaceView { popups: self.popups.push(PopupView::created(id, s_surface)), ..self }
    }

    /// The space after a surface changed: the first popup with that surface, if
    /// there is one, has changed.
    pub open spec fn after_dirty_popup(self, surface: u64, now: u64) -> SpaceView {
        let noted = SpaceView { last_dirty: Some(now), ..self };
        match popup_for(self.popups, surface) {
            Some(i) => noted.with_popup(i, PopupView { dirty: true, ..self.popups[i] }),
            None => noted,
        }
    }

    /// The space after an event of a popup, which is the event of no other.
    pub open spec fn after_event_of(self, id: u64, event: PopupEvent) -> SpaceView {
        SpaceView {
            popups: self.popups.map_values(
                |popup: PopupView|
                    if popup.id == id {
                        popup.told(event)
                    } else {
                        popup
                    },
            ),
            ..self
        }
    }
}

impl SimpleWrapperSpace {
    /// The position of the first popup whose surface is the given one.
    fn find_popup(&self, surface: u64) -> (index: Option<usize>)
        ensures
            index is Some == popup_for(self@.popups, surface) is Some,
            index matches Some(i) ==> popup_for(self@.popups, surface) == Some(i as int) && i
                < self@.popups.len(),
    {
        let ghost all = self@.popups;
        let mut i: usize = 0;
        assert(all.take(0) =~= Seq::empty());
        while i < self.popups.len()
            invariant
                i <= self.popups.len(),
                all == self@.popups,
                popup_for(all.take(i as int), surface) is None,
            decreases self.popups.len() - i,
        {
            assert(all.take(i + 1).drop_last() =~= all.take(i as int));
            assert(all[i as int] == self.popups@[i as int]@);
            if self.popups[i].s_surface == surface {
                proof {
                    popup_for_prefix(all, surface, i + 1);
                }
                return Some(i);
            }
            i = i + 1;
        }
        assert(all.take(i as int) =~= all);
        None
    }

    /// The position of the popup with the given number.
    fn popup_index(&self, id: u64) -> (index: Option<usize>)
        ensures
            index is Some == self@.lists(id),
            index matches Some(i) ==> i < self@.popups.len() && self@.popups[i as int].id == id,
    {
        let mut i: usize = 0;
        while i < self.popups.len()
            invariant
                i <= self.popups.len(),
                forall|j: int| 0 <= j < i ==> (#[trigger] self@.popups[j]).id != id,
            decreases self.popups.len() - i,
        {
            assert(self@.popups[i as int] == self.popups@[i as int]@);
            if self.popups[i].id == id {
                return Some(i);
            }
            i = i + 1;
        }
        None
    }

    /// Whether a popup of the space goes by the given number.
    pub fn has_popup(&self, id: u64) -> (listed: bool)
        ensures
            listed == self@.lists(id),
    {
        self.popup_index(id).is_some()
    }

    /// Adds a popup for a surface of the client, under a number that no popup
    /// of the space has, and gives the requests that place it next to its parent
    /// window. Without a parent among the windows there is no popup.
    pub fn add_popup(
        &mut self,
        id: u64,
        s_surface: u64,
        parent: Option<u64>,
        windows: &Vec<WindowPlace>,
        state: &PositionerState,
        version: u32,
    ) -> (requests: Option<PositionerRequests>)
        requires
            old(self).wf(),
            parent_window(windows@, parent) matches Some(i) ==> {
                &&& state.fits_at(windows@[i].loc)
                &&& !old(self)@.lists(id)
            },
        ensures
            final(self).wf(),
            match parent_window(windows@, parent) {
                Some(i) => {
                    &&& requests == Some(state.requests_at(windows@[i].loc, version))
                    &&& final(self)@ == old(self)@.after_add_popup(id, s_surface)
                },
                None => requests is None && final(self)@ == old(self)@,
            },
    {
        let index: usize = match find_parent(windows, parent) {
            Some(index) => index,
            None => {
                return None;
            },
        };
        let requests = state.requests(windows[index].loc, version);
        self.popups.push(Popup::new(id, s_surface));
        assert(self@.popups =~= old(self)@.popups.push(PopupView::created(id, s_surface)));
        Some(requests)
    }

    /// Notes that the surface of a popup has changed. Returns whether there is
    /// such a popup, which is then to be committed.
    pub fn dirty_popup(&mut self, surface: u64, now: u64) -> (commit: bool)
        requires
            old(self).wf(),
        ensures
            final(self).wf(),
            commit == popup_for(old(self)@.popups, surface) is Some,
            final(self)@ == old(self)@.after_dirty_popup(surface, now),
    {
        self.last_dirty = Some(now);
        match self.find_popup(surface) {
            Some(i) => {
                let ghost before = self@;
                self.popups[i].dirty = true;
                assert(self@.popups =~= before.popups.update(
                    i as int,
                    PopupView { dirty: true, ..before.popups[i as int] },
                ));
                true
            },
            None => false,
        }
    }

    /// Takes notice of an event of the popup with the given number, and of no
    /// other popup. Returns whether the client's popup is to be sent a
    /// configuration, or `None` if the popup is not the space's any more:
    /// whoever gets its events then goes on from the state that it was left
    /// with, by [`popup_event`].
    pub fn handle_popup_event(&mut self, id: u64, event: PopupEvent) -> (send: Option<bool>)
        requires
            old(self).wf(),
        ensures
            final(self).wf(),
            final(self)@ == old(self)@.after_event_of(id, event),
            send is Some == old(self)@.lists(id),
            forall|i: int|
                0 <= i < old(self)@.popups.len() && (#[trigger] old(self)@.popups[i]).id == id
                    ==> send == Some(passed_to_client(old(self)@.popups[i].popup_state, event)),
    {
        let ghost before = self@;
        match self.popup_index(id) {
            Some(i) => {
                let (state, send) = popup_event(self.popups[i].popup_state, event);
                self.popups[i].popup_state = state;
                assert(self@.popups =~= before.popups.update(
                    i as int,
                    before.popups[i as int].told(event),
                ));
                assert(self@.popups =~= before.after_event_of(id, event).popups);
                Some(send)
            },
            None => {
                assert(self@.popups =~= before.after_event_of(id, event).popups);
                None
            },
        }
    }
}

/// An event of a popup changes that popup as the event says, and no other, even
/// one with the same surface.
pub proof fn event_changes_its_popup_only(space: SpaceView, index: int, event: PopupEvent)
    requires
        space.wf(),
        0 <= index < space.popups.len(),
    ensures
        space.after_event_of(space.popups[index].id, event) == space.with_popup(
            index,
            space.popups[index].told(event),
        ),
{
    let id = space.popups[index].id;
    assert(space.after_event_of(id, event).popups =~= space.with_popup(
        index,
        space.popups[index].told(event),
    ).popups);
}

/// An event of the popup that was just added reaches that popup, whatever other
/// popups there are.
pub proof fn event_reaches_a_new_popup(
    space: SpaceView,
    id: u64,
    s_surface: u64,
    event: PopupEvent,
)
    requires
        space.wf(),
        !space.lists(id),
    ensures
        space.after_add_popup(id, s_surface).after_event_of(id, event) == (SpaceView {
            popups: space.popups.push(PopupView::created(id, s_surface).told(event)),
            ..space
        }),
{
    let added = space.after_add_popup(id, s_surface);
    assert(added.after_event_of(id, event).popups =~= space.popups.push(
        PopupView::created(id, s_surface).told(event),
    ));
}

/// An event of a popup that is gone changes nothing in the space.
pub proof fn event_of_a_gone_popup_changes_nothing(space: SpaceView, id: u64, event: PopupEvent)
    requires
        !space.lists(id),
    ensures
        space.after_event_of(id, event) == space,
{
    assert(space.after_event_of(id, event).popups =~= space.popups);
}

/// A popup that is not closed takes over what it is told, whatever it was told
/// before: the place and the size of a configuration, the token of a new place, and
/// that it is done. Only a configuration is passed on to the client.
pub proof fn open_popup_takes_over_what_it_is_told(
    state: Option<PopupState>,
    x: i32,
    y: i32,
    width: i32,
    height: i32,
    token: u32,
)
    requires
        state != Some(PopupState::Closed),
    ensures
        ({
            let configure = PopupEvent::Configure { x, y, width, height };
            &&& after_popup_event(state, configure) == Some(
                PopupState::Configure { x, y, width, height },
            )
            &&& passed_to_client(state, configure)
        }),
        after_popup_event(state, PopupEvent::PopupDone) == Some(PopupState::Closed),
        !passed_to_client(state, PopupEvent::PopupDone),
        after_popup_event(state, PopupEvent::Repositioned { token }) == Some(
            PopupState::Repositioned(token),
        ),
        !passed_to_client(state, PopupEvent::Repositioned { token }),
        after_popup_event(state, PopupEvent::Other) == state,
        !passed_to_client(state, PopupEvent::Other),
{
}

/// No event changes a closed popup or reaches its client.
pub proof fn closed_popup_takes_no_notice(event: PopupEvent)
    ensures
        after_popup_event(Some(PopupState::Closed), event) == Some(PopupState::Closed),
        !passed_to_client(Some(PopupState::Closed), event),
{
}

/// An event changes nothing of its popup but what the popup has been told.
pub proof fn event_changes_the_state_alone(popup: PopupView, event: PopupEvent)
    ensures
        popup.told(event).popup_state == after_popup_event(popup.popup_state, event),
        popup.told(event).id == popup.id,
        popup.told(event).s_surface == popup.s_surface,
        popup.told(event).dirty == popup.dirty,
        popup.told(event).position == popup.position,
        popup.told(event).accumulated_damage == popup.accumulated_damage,
{
}

/// A popup is asked for with the size, the offset and the adjustments that the
/// client wants, for every version of the positioner and whether or not it is
/// reactive, at the area that the client gave, moved along with its window.
pub proof fn requests_carry_what_the_client_wants(
    state: PositionerState,
    window: Point,
    version: u32,
)
    requires
        state.fits_at(window),
    ensures
        ({
            let requests = state.requests_at(window, version);
            &&& requests.size == state.rect_size
            &&& requests.offset == state.offset
            &&& requests.constraint_adjustment == state.constraint_adjustment
            &&& requests.anchor_rect.size == state.anchor_rect.size
            &&& requests.anchor_rect.loc.x - window.x == state.anchor_rect.loc.x
            &&& requests.anchor_rect.loc.y - window.y == state.anchor_rect.loc.y
        }),
{
}

/// The edge that a popup is anchored to and the direction it goes in are asked for
/// as the client gave them where the protocol knows them, each for itself, and
/// otherwise as none.
pub proof fn requests_carry_the_known_edges(
    state: PositionerState,
    window: Point,
    version: u32,
)
    ensures
        ({
            let requests = state.requests_at(window, version);
            &&& state.anchor_edges <= 8 ==> requests.anchor == state.anchor_edges
            &&& state.anchor_edges > 8 ==> requests.anchor == 0
            &&& state.gravity <= 8 ==> requests.gravity == state.gravity
            &&& state.gravity > 8 ==> requests.gravity == 0
        }),
{
}

/// From the third version of the positioner on a popup is reactive as the client
/// wants, and the size of its parent is given if the client gave it; before that
/// neither is asked for.
pub proof fn newer_requests_need_a_newer_positioner(
    state: PositionerState,
    window: Point,
    version: u32,
)
    ensures
        version >= 3 ==> state.requests_at(window, version).reactive == state.reactive,
        version >= 3 ==> state.requests_at(window, version).parent_size == state.parent_size,
        version < 3 ==> !state.requests_at(window, version).reactive,
        version < 3 ==> state.requests_at(window, version).parent_size is None,
{
}

/// Positioners that differ in being reactive alone ask for the same but for that,
/// and so does one positioner in two versions, but for the parent's size.
pub proof fn reactive_changes_no_other_request(
    one: PositionerState,
    other: PositionerState,
    window: Point,
    version: u32,
    later: u32,
)
    requires
        one == (PositionerState { reactive: one.reactive, ..other }),
    ensures
        one.requests_at(window, version) == (PositionerRequests {
            reactive: one.requests_at(window, version).reactive,
            ..other.requests_at(window, version)
        }),
        one.requests_at(window, version) == (PositionerRequests {
            reactive: one.requests_at(window, version).reactive,
            parent_size: one.requests_at(window, version).parent_size,
            ..one.requests_at(window, later)
        }),
{
}

/// The area of a popup can be moved along with its window exactly if its corner then
/// still has coordinates.
pub proof fn area_fits_where_it_has_coordinates(state: PositionerState, window: Point)
    ensures
        state.fits_at(window) <==> {
            &&& i32::MIN <= state.anchor_rect.loc.x + window.x
            &&& state.anchor_rect.loc.x + window.x <= i32::MAX
            &&& i32::MIN <= state.anchor_rect.loc.y + window.y
            &&& state.anchor_rect.loc.y + window.y <= i32::MAX
        },
{
}

/// The window of a popup is the first one whose surface is that of the parent, and
/// there is none without a parent or without such a window.
pub proof fn parent_is_the_first_window(windows: Seq<WindowPlace>, parent: Option<u64>, i: int)
    ensures
        parent is None ==> parent_window(windows, parent) is None,
        parent matches Some(surface) && 0 <= i < windows.len() && windows[i].surface == surface && (
        forall|j: int| 0 <= j < i ==> (#[trigger] windows[j]).surface != surface)
            ==> parent_window(windows, parent) == Some(i),
        parent matches Some(surface) && (forall|j: int|
            0 <= j < windows.len() ==> (#[trigger] windows[j]).surface != surface)
            ==> parent_window(windows, parent) is None,
{
    if let Some(surface) = parent {
        found_window_is_the_first(windows, surface);
    }
}

/// A new popup comes after the others, which stay as they are. It has the given
/// number and surface, waits to be configured, and has nothing to be drawn.
pub proof fn new_popup_waits(space: SpaceView, id: u64, s_surface: u64)
    ensures
        ({
            let after = space.after_add_popup(id, s_surface);
            let popup = after.popups.last();
            &&& after.popups.len() == space.popups.len() + 1
            &&& after.popups.drop_last() == space.popups
            &&& after == SpaceView { popups: after.popups, ..space }
            &&& after.lists(id)
            &&& popup.id == id
            &&& popup.s_surface == s_surface
            &&& popup.popup_state == Some(PopupState::WaitConfigure)
            &&& !popup.dirty
            &&& popup.position.x == 0 && popup.position.y == 0
            &&& popup.accumulated_damage.len() == 0
        }),
{
    let after = space.after_add_popup(id, s_surface);
    assert(after.popups.drop_last() =~= space.popups);
    assert(after.popups[space.popups.len() as int].id == id);
}

/// A popup is to be drawn exactly if it has changed and has nothing left to act
/// upon.
pub proof fn changed_popup_is_to_be_drawn(popup: PopupView)
    ensures
        popup.drawable() <==> popup.dirty && popup.popup_state is None,
{
}

/// The first popup with a changed surface has changed, whatever its state is, and no
/// other popup has.
pub proof fn changed_surface_marks_its_popup(
    space: SpaceView,
    surface: u64,
    now: u64,
    i: int,
    other: int,
)
    requires
        0 <= i < space.popups.len(),
        space.popups[i].s_surface == surface,
        forall|j: int| 0 <= j < i ==> (#[trigger] space.popups[j]).s_surface != surface,
        0 <= other < space.popups.len(),
        other != i,
    ensures
        ({
            let after = space.after_dirty_popup(surface, now);
            &&& after.popups.len() == space.popups.len()
            &&& after.popups[i].dirty
            &&& after.popups[i] == PopupView { dirty: after.popups[i].dirty, ..space.popups[i] }
            &&& after.popups[other] == space.popups[other]
        }),
{
    found_popup_is_the_first(space.popups, surface);
}

/// A changed surface marks its popup also where that is the only one, and leaves the
/// popups alone where none has it. Besides them it changes the time of the last
/// change alone.
pub proof fn changed_surface_of_a_popup_is_noted(
    space: SpaceView,
    surface: u64,
    now: u64,
    i: int,
)
    ensures
        space.after_dirty_popup(surface, now).last_dirty == Some(now),
        space.after_dirty_popup(surface, now) == (SpaceView {
            last_dirty: Some(now),
            popups: space.after_dirty_popup(surface, now).popups,
            ..space
        }),
        0 <= i < space.popups.len() && space.popups[i].s_surface == surface && (forall|j: int|
            0 <= j < i ==> (#[trigger] space.popups[j]).s_surface != surface) ==> {
            &&& space.after_dirty_popup(surface, now).popups[i].dirty
            &&& popup_for(space.popups, surface) == Some(i)
        },
        (forall|j: int| 0 <= j < space.popups.len() ==> (#[trigger] space.popups[j]).s_surface
            != surface) ==> {
            &&& space.after_dirty_popup(surface, now).popups == space.popups
            &&& popup_for(space.popups, surface) is None
        },
{
    found_popup_is_the_first(space.popups, surface);
}

/// A number is that of a popup of the space exactly if some popup of it goes by that
/// number.
pub proof fn listed_popups_have_their_numbers(space: SpaceView, id: u64, i: int)
    ensures
        0 <= i < space.popups.len() && space.popups[i].id == id ==> space.lists(id),
        (forall|j: int| 0 <= j < space.popups.len() ==> (#[trigger] space.popups[j]).id != id)
            ==> !space.lists(id),
{
}

} // verus!
