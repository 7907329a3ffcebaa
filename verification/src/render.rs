//! Drawing a frame.
//!
//! A frame is drawn in steps. [`render_target`] gives the first one. The
//! windows are drawn where they are damaged ([`render_windows`]), and after
//! them each popup that has changed ([`next_popup`], [`render_popup`]). The last
//! step ends the frame ([`finish_render`]).
//!
//! [`render_target`]: SimpleWrapperSpace::render_target
//! [`render_windows`]: SimpleWrapperSpace::render_windows
//! [`next_popup`]: SimpleWrapperSpace::next_popup
//! [`render_popup`]: SimpleWrapperSpace::render_popup
//! [`finish_render`]: SimpleWrapperSpace::finish_render

use vstd::prelude::*;

use crate::damage;
use crate::damage::{damage_for_buffer, merge_damage, output_damage};
use crate::geometry::{Point, Rectangle, Size};
use crate::popup;
use crate::popup::PopupView;
use crate::space::{SimpleWrapperSpace, SpaceView};

verus! {

/// What the program knows of an output.
#[derive(Clone, Copy, Debug, PartialEq, Eq, Structural)]
pub struct OutputState {
    /// the number the program knows the output under
    pub id: u64,
    pub location: Point,
    /// the size of the current mode, if there is one
    pub mode: Option<Size>,
}

/// What is done next to draw a frame.
#[derive(Clone, Copy, Debug, PartialEq, Eq, Structural)]
pub enum FrameStep {
    /// draw the windows for an output, which covers the given area
    Windows { output: u64, geometry: Rectangle },
    /// draw the popup at a position
    Popup { output: u64, index: usize },
    /// let the client draw its next frame, and end this one
    Finish,
}

/// Why a frame was not drawn.
#[derive(Clone, Copy, Debug, PartialEq, Eq, Structural)]
pub enum RenderError {
    /// the output has no mode
    OutputNoMode,
}

/// The outputs of each of a list of windows.
pub open spec fn outputs(windows: Seq<Vec<OutputState>>) -> Seq<Seq<OutputState>> {
    windows.map_values(|w: Vec<OutputState>| w@)
}

/// The last output of the first window that is on any.
pub open spec fn chosen_output(windows: Seq<Seq<OutputState>>) -> Option<OutputState>
    decreases windows.len(),
{
    if windows.len() == 0 {
        None
    } else if windows.first().len() > 0 {
        Some(windows.first().last())
    } else {
        chosen_output(windows.drop_first())
    }
}

/// What is drawn on a buffer of the given age: what it lacks, or everything
/// where that is not known.
pub open spec fn redraw(
    history: Seq<Seq<Rectangle>>,
    current: Seq<Rectangle>,
    buffer_age: Option<i32>,
    everything: Rectangle,
) -> Seq<Rectangle> {
    let missing = damage::missing(history, current, damage::frames_ago(buffer_age));
    if missing.len() == 0 {
        seq![everything]
    } else {
        missing
    }
}

/// The position of the first popup from `from` on that is to be drawn.
pub open spec fn next_drawable(popups: Seq<PopupView>, from: int) -> Option<int>
    decreases popups.len() - from,
{
    if from >= popups.len() {
        None
    } else if popups[from].drawable() {
        Some(from)
    } else {
        next_drawable(popups, from + 1)
    }
}

impl SpaceView {
    /// The first step of a frame: there is none while the space has something
    /// to act upon, and nothing is drawn where no window is on an output.
    pub open spec fn first_step(self, windows: Seq<Seq<OutputState>>) -> Result<
        Option<FrameStep>,
        RenderError,
    > {
        if self.next_render_event is Some {
            Ok(None)
        } else {
            match chosen_output(windows) {
                Some(output) => match output.mode {
                    Some(size) => Ok(
                        Some(
                            FrameStep::Windows {
                                output: output.id,
                                geometry: Rectangle { loc: output.location, size },
                            },
                        ),
                    ),
                    None => Err(RenderError::OutputNoMode),
                },
                None => Ok(Some(FrameStep::Finish)),
            }
        }
    }

    /// The step that follows once the popups before `from` are done.
    pub open spec fn popup_step(self, output: u64, from: int) -> FrameStep {
        match next_drawable(self.popups, from) {
            Some(i) => FrameStep::Popup { output, index: i as usize },
            None => FrameStep::Finish,
        }
    }

    /// The whole of the space.
    pub open spec fn everything(self) -> Rectangle {
        Rectangle::at_origin(self.dimensions)
    }

    /// The windows' damage can be cleaned up and merged.
    pub open spec fn mergeable(windows: Seq<Seq<Rectangle>>, output: Rectangle) -> bool {
        &&& damage::all_lists_wf(windows)
        &&& output.wf()
        &&& damage::merge_fits(damage::on_output(windows, output))
    }

    /// The damage of the current frame.
    pub open spec fn frame(self, windows: Seq<Seq<Rectangle>>, output: Rectangle) -> Seq<
        Rectangle,
    > {
        if self.full_clear {
            seq![self.everything()]
        } else {
            damage::merge_all(damage::on_output(windows, output))
        }
    }

    /// The damage of a popup in the current frame: `bbox` is the bounding box
    /// of its surfaces, and `changed` what has changed in them.
    pub open spec fn popup_frame(self, bbox: Rectangle, changed: Seq<Rectangle>) -> Seq<Rectangle> {
        if self.full_clear {
            seq![bbox]
        } else {
            changed
        }
    }

    /// The space after its windows were drawn: the frame's damage is kept.
    pub open spec fn after_render_windows(
        self,
        windows: Seq<Seq<Rectangle>>,
        output: Rectangle,
    ) -> SpaceView {
        SpaceView {
            w_accumulated_damage: damage::remember(
                self.w_accumulated_damage,
                self.frame(windows, output),
            ),
            ..self
        }
    }

    /// The space after it came to a popup. If anything of the popup is damaged,
    /// it is drawn, and its damage is kept.
    pub open spec fn after_render_popup(
        self,
        index: int,
        bbox: Rectangle,
        changed: Seq<Rectangle>,
    ) -> SpaceView {
        let popup = self.popups[index];
        let frame = self.popup_frame(bbox, changed);
        if frame.len() == 0 {
            self
        } else {
            self.with_popup(
                index,
                PopupView {
                    dirty: false,
                    accumulated_damage: damage::remember(popup.accumulated_damage, frame),
                    ..popup
                },
            )
        }
    }

    /// The space after a frame was ended.
    pub open spec fn after_finish_render(self) -> SpaceView {
        SpaceView { full_clear: false, ..self }
    }
}

impl SimpleWrapperSpace {
    /// Gives the first step of a frame, from the outputs that each window is on,
    /// or `None` where no frame is drawn.
    pub fn render_target(&self, windows: &Vec<Vec<OutputState>>) -> (step: Result<
        Option<FrameStep>,
        RenderError,
    >)
        ensures
            step == self@.first_step(outputs(windows@)),
    {
        if self.next_render_event.is_some() {
            return Ok(None);
        }
        let ghost all = outputs(windows@);
        let mut i: usize = 0;
        assert(all.skip(0) =~= all);
        while i < windows.len()
            invariant
                i <= windows.len(),
                all == outputs(windows@),
                self.next_render_event is None,
                chosen_output(all) == chosen_output(all.skip(i as int)),
            decreases windows.len() - i,
        {
            assert(all.skip(i as int).first() == windows@[i as int]@);
            assert(all.skip(i as int).drop_first() =~= all.skip(i + 1));
            let on: usize = windows[i].len();
            if on > 0 {
                let output: OutputState = windows[i][on - 1];
                return match output.mode {
                    Some(size) => Ok(
                        Some(
                            FrameStep::Windows {
                                output: output.id,
                                geometry: Rectangle { loc: output.location, size },
                            },
                        ),
                    ),
                    None => Err(RenderError::OutputNoMode),
                };
            }
            i = i + 1;
        }
        Ok(Some(FrameStep::Finish))
    }

    /// Gives the part of the space that is drawn in this frame, and keeps the
    /// frame's damage. `windows` is the damage of each window since the last
    /// frame, of which only what falls on the output counts, and `buffer_age`
    /// tells how many frames ago the buffer to draw on was drawn. Where the
    /// frame is drawn whole, the windows' damage is of no account.
    pub fn render_windows(
        &mut self,
        windows: &Vec<Vec<Rectangle>>,
        output: Rectangle,
        buffer_age: Option<i32>,
    ) -> (out: Vec<Rectangle>)
        requires
            old(self).wf(),
            !old(self)@.full_clear ==> SpaceView::mergeable(damage::contents(windows@), output),
        ensures
            final(self).wf(),
            final(self)@ == old(self)@.after_render_windows(damage::contents(windows@), output),
            out@ == redraw(
                old(self)@.w_accumulated_damage,
                old(self)@.frame(damage::contents(windows@), output),
                buffer_age,
                old(self)@.everything(),
            ),
            damage::all_wf(out@),
    {
        let everything = Rectangle { loc: Point { x: 0, y: 0 }, size: self.dimensions };
        let cur_damage: Vec<Rectangle> = if self.full_clear {
            let mut whole: Vec<Rectangle> = Vec::new();
            whole.push(everything);
            whole
        } else {
            merge_damage(&output_damage(windows, output))
        };
        let ghost current = cur_damage@;
        let ghost history = self@.w_accumulated_damage;
        assert(current =~= self@.frame(damage::contents(windows@), output));
        let mut out = damage_for_buffer(cur_damage, &mut self.w_accumulated_damage, buffer_age);
        if out.len() == 0 {
            out.push(everything);
        }
        proof {
            damage::known_damage_is_valid(history, current, damage::frames_ago(buffer_age));
        }
        out
    }

    /// Gives the step that follows once the windows and the popups before `from`
    /// are done: the next popup that has changed, or the end of the frame.
    pub fn next_popup(&self, output: u64, from: usize) -> (step: FrameStep)
        ensures
            step == self@.popup_step(output, from as int),
    {
        let mut i: usize = from;
        while i < self.popups.len()
            invariant
                next_drawable(self@.popups, from as int) == next_drawable(self@.popups, i as int),
            decreases self.popups.len() - i,
        {
            assert(self@.popups[i as int] == self.popups@[i as int]@);
            if self.popups[i].dirty && self.popups[i].popup_state.is_none() {
                return FrameStep::Popup { output, index: i };
            }
            i = i + 1;
        }
        FrameStep::Finish
    }

    /// Gives the part of a popup that is drawn in this frame, keeps its damage
    /// and counts it as drawn. Nothing is drawn, and the popup still counts as
    /// changed, where none of its surfaces is damaged.
    pub fn render_popup(
        &mut self,
        index: usize,
        bbox: Rectangle,
        changed: Vec<Rectangle>,
        buffer_age: Option<i32>,
    ) -> (out: Option<Vec<Rectangle>>)
        requires
            old(self).wf(),
            index < old(self)@.popups.len(),
        ensures
            final(self).wf(),
            final(self)@ == old(self)@.after_render_popup(index as int, bbox, changed@),
            ({
                let popup = old(self)@.popups[index as int];
                let frame = old(self)@.popup_frame(bbox, changed@);
                if frame.len() == 0 {
                    out is None
                } else {
                    &&& out matches Some(drawn)
                    &&& drawn@ == redraw(popup.accumulated_damage, frame, buffer_age, bbox)
                }
            }),
    {
        let cur_damage: Vec<Rectangle> = if self.full_clear {
            let mut whole: Vec<Rectangle> = Vec::new();
            whole.push(bbox);
            whole
        } else {
            changed
        };
        if cur_damage.len() == 0 {
            return None;
        }
        let ghost before = self@;
        let ghost frame = cur_damage@;
        assert(frame =~= self@.popup_frame(bbox, changed@));
        assert(before.popups[index as int] == self.popups@[index as int]@);
        let mut out = damage_for_buffer(
            cur_damage,
            &mut self.popups[index].accumulated_damage,
            buffer_age,
        );
        if out.len() == 0 {
            out.push(bbox);
        }
        self.popups[index].dirty = false;
        assert(self@.popups =~= before.popups.update(
            index as int,
            PopupView {
                dirty: false,
                accumulated_damage: damage::remember(
                    before.popups[index as int].accumulated_damage,
                    frame,
                ),
                ..before.popups[index as int]
            },
        ));
        Some(out)
    }

    /// Ends a frame: the next one need not be drawn whole.
    pub fn finish_render(&mut self)
        requires
            old(self).wf(),
        ensures
            final(self).wf(),
            final(self)@ == old(self)@.after_finish_render(),
    {
        self.full_clear = false;
    }
}

/// A frame that is to be drawn whole draws every pixel of the space.
pub proof fn full_clear_draws_everything(
    space: SpaceView,
    windows: Seq<Seq<Rectangle>>,
    output: Rectangle,
    buffer_age: Option<i32>,
    x: int,
    y: int,
)
    requires
        space.full_clear,
        space.everything().has(x, y),
    ensures
        damage::covers(
            redraw(
                space.w_accumulated_damage,
                space.frame(windows, output),
                buffer_age,
                space.everything(),
            ),
            x,
            y,
        ),
{
    let frame = space.frame(windows, output);
    assert(frame[0].has(x, y));
    damage::missing_covers_the_current_frame(
        space.w_accumulated_damage,
        frame,
        damage::frames_ago(buffer_age),
        x,
        y,
    );
    assert(seq![space.everything()][0].has(x, y));
}

/// What any window has damaged is drawn, as far as it lies in the space and on
/// the output.
pub proof fn damaged_pixels_are_drawn(
    space: SpaceView,
    windows: Seq<Seq<Rectangle>>,
    output: Rectangle,
    buffer_age: Option<i32>,
    x: int,
    y: int,
)
    requires
        SpaceView::mergeable(windows, output),
        space.everything().has(x, y),
        output.has(x, y),
        exists|i: int| 0 <= i < windows.len() && damage::covers(#[trigger] windows[i], x, y),
    ensures
        damage::covers(
            redraw(
                space.w_accumulated_damage,
                space.frame(windows, output),
                buffer_age,
                space.everything(),
            ),
            x,
            y,
        ),
{
    if space.full_clear {
        full_clear_draws_everything(space, windows, output, buffer_age, x, y);
    } else {
        damage::frame_covers_the_output(windows, output, x, y);
        damage::missing_covers_the_current_frame(
            space.w_accumulated_damage,
            space.frame(windows, output),
            damage::frames_ago(buffer_age),
            x,
            y,
        );
        assert(seq![space.everything()][0].has(x, y));
    }
}

/// A buffer of unknown age, or of one beyond the kept damage, is drawn whole.
pub proof fn unknown_buffer_is_drawn_whole(
    history: Seq<Seq<Rectangle>>,
    current: Seq<Rectangle>,
    buffer_age: Option<i32>,
    everything: Rectangle,
)
    requires
        buffer_age matches Some(age) ==> age <= 0 || age > history.len(),
    ensures
        redraw(history, current, buffer_age, everything) == seq![everything],
{
}

/// The steps of a frame pass over no popup that is to be drawn, and come to no
/// other: the popup they come to next is the first from `from` on that has
/// changed and has nothing left to act upon.
pub proof fn no_changed_popup_is_passed_over(popups: Seq<PopupView>, from: int)
    requires
        0 <= from,
    ensures
        match next_drawable(popups, from) {
            Some(i) => {
                &&& from <= i < popups.len()
                &&& popups[i].dirty && popups[i].popup_state is None
                &&& forall|j: int|
                    from <= j < i ==> !(#[trigger] popups[j]).dirty || popups[j].popup_state is Some
            },
            None => forall|j: int|
                from <= j < popups.len() ==> !(#[trigger] popups[j]).dirty
                    || popups[j].popup_state is Some,
        },
    decreases popups.len() - from,
{
    if from < popups.len() && !popups[from].drawable() {
        no_changed_popup_is_passed_over(popups, from + 1);
    }
}

/// Drawing a popup leaves the steps after it as they were.
pub proof fn drawing_a_popup_changes_no_later_step(
    space: SpaceView,
    output: u64,
    index: int,
    popup: PopupView,
    from: int,
)
    requires
        0 <= index < from,
        index < space.popups.len(),
    ensures
        space.with_popup(index, popup).popup_step(output, from) == space.popup_step(output, from),
{
    same_tail_same_drawable(space.popups, space.popups.update(index, popup), from);
}

proof fn same_tail_same_drawable(a: Seq<PopupView>, b: Seq<PopupView>, from: int)
    requires
        a.len() == b.len(),
        0 <= from,
        forall|j: int| from <= j < a.len() ==> a[j] == b[j],
    ensures
        next_drawable(a, from) == next_drawable(b, from),
    decreases a.len() - from,
{
    if from < a.len() {
        same_tail_same_drawable(a, b, from + 1);
    }
}

/// A space that has something to act upon is not drawn. Any other is drawn for the
/// last output of the first window that is on one, over the area that the place and
/// the mode of that output give, and not at all where that output has no mode. The
/// frame is just ended where no window is on an output.
pub proof fn frame_is_drawn_for_the_first_window(
    space: SpaceView,
    windows: Seq<Seq<OutputState>>,
    i: int,
)
    ensures
        space.next_render_event is Some ==> space.first_step(windows) == Ok::<
            Option<FrameStep>,
            RenderError,
        >(None),
        space.next_render_event is None && 0 <= i < windows.len() && windows[i].len() > 0 && (
        forall|j: int| 0 <= j < i ==> (#[trigger] windows[j]).len() == 0) ==> {
            let output = windows[i].last();
            match output.mode {
                Some(size) => {
                    &&& space.first_step(windows) matches Ok(
                        Some(FrameStep::Windows { output: id, geometry }),
                    )
                    &&& id == output.id
                    &&& geometry.loc == output.location
                    &&& geometry.size == size
                },
                None => space.first_step(windows) == Err::<Option<FrameStep>, _>(
                    RenderError::OutputNoMode,
                ),
            }
        },
        space.next_render_event is None && (forall|j: int|
            0 <= j < windows.len() ==> (#[trigger] windows[j]).len() == 0) ==> space.first_step(
            windows,
        ) == Ok::<_, RenderError>(Some(FrameStep::Finish)),
{
    chosen_output_of(windows, i);
}

proof fn chosen_output_of(windows: Seq<Seq<OutputState>>, i: int)
    ensures
        0 <= i < windows.len() && windows[i].len() > 0 && (forall|j: int|
            0 <= j < i ==> (#[trigger] windows[j]).len() == 0) ==> chosen_output(windows) == Some(
            windows[i].last(),
        ),
        (forall|j: int| 0 <= j < windows.len() ==> (#[trigger] windows[j]).len() == 0)
            ==> chosen_output(windows) is None,
    decreases windows.len(),
{
    if windows.len() > 0 {
        let rest = windows.drop_first();
        chosen_output_of(rest, i - 1);
        assert(windows.first() == windows[0]);
        assert forall|j: int| 0 <= j < rest.len() implies #[trigger] rest[j] == windows[j + 1] by {}
        if 0 < i < windows.len() {
            assert(rest[i - 1] == windows[i]);
        }
    }
}

/// The whole of a space is every pixel that its size gives it.
pub proof fn everything_is_every_pixel(space: SpaceView, x: int, y: int)
    ensures
        space.everything().has(x, y) <==> 0 <= x < space.dimensions.w && 0 <= y
            < space.dimensions.h,
{
}

/// A buffer whose age is known, and no further back than the kept damage, is given
/// just what it lacks, or is drawn whole where it lacks nothing.
pub proof fn known_buffer_is_given_what_it_lacks(
    history: Seq<Seq<Rectangle>>,
    current: Seq<Rectangle>,
    age: i32,
    everything: Rectangle,
)
    requires
        1 <= age <= history.len(),
    ensures
        ({
            let lacks = damage::missing(history, current, age as int);
            let drawn = redraw(history, current, Some(age), everything);
            &&& lacks.len() > 0 ==> drawn == lacks
            &&& lacks.len() == 0 ==> drawn == seq![everything]
        }),
        age == 1 && current.len() > 0 ==> redraw(history, current, Some(age), everything)
            == current,
{
    damage::older_buffers_lack_more(history, current, age as int);
}

/// What a kept frame has damaged is drawn on every buffer that is older than that
/// frame, as far as its age is known and the kept damage reaches back to it.
pub proof fn kept_frames_are_drawn_on_older_buffers(
    history: Seq<Seq<Rectangle>>,
    current: Seq<Rectangle>,
    age: i32,
    everything: Rectangle,
    i: int,
    x: int,
    y: int,
)
    requires
        1 <= age <= history.len(),
        0 <= i < age - 1,
        damage::covers(history[i], x, y),
    ensures
        damage::covers(redraw(history, current, Some(age), everything), x, y),
{
    lacking_covers(history, current, age as int, i, x, y);
}

proof fn lacking_covers(
    history: Seq<Seq<Rectangle>>,
    current: Seq<Rectangle>,
    age: int,
    i: int,
    x: int,
    y: int,
)
    requires
        1 <= age <= history.len(),
        0 <= i < age - 1,
        damage::covers(history[i], x, y),
    ensures
        damage::covers(damage::missing(history, current, age), x, y),
    decreases age,
{
    damage::older_buffers_lack_more(history, current, age - 1);
    let less = damage::missing(history, current, age - 1);
    let more = damage::missing(history, current, age);
    assert(more == less + history[age - 2]);
    if i == age - 2 {
        let last = history[i];
        let k = choose|k: int| 0 <= k < last.len() && (#[trigger] last[k]).has(x, y);
        assert(more[less.len() + k] == last[k]);
    } else {
        lacking_covers(history, current, age - 1, i, x, y);
        let k = choose|k: int| 0 <= k < less.len() && (#[trigger] less[k]).has(x, y);
        assert(more[k] == less[k]);
    }
}

/// The newest damage that a space keeps covers every pixel that its frame had to
/// draw: the whole of the space where the frame was to be drawn whole, and otherwise
/// what the windows have damaged on the output.
pub proof fn kept_damage_covers_the_frame(
    space: SpaceView,
    windows: Seq<Seq<Rectangle>>,
    output: Rectangle,
    x: int,
    y: int,
)
    ensures
        ({
            let kept = space.after_render_windows(windows, output).w_accumulated_damage;
            &&& kept.len() > 0
            &&& space.full_clear && 0 <= x < space.dimensions.w && 0 <= y < space.dimensions.h
                ==> damage::covers(kept[0], x, y)
            &&& !space.full_clear && SpaceView::mergeable(windows, output) && output.has(x, y) && (
            exists|i: int| 0 <= i < windows.len() && damage::covers(#[trigger] windows[i], x, y))
                ==> damage::covers(kept[0], x, y)
        }),
{
    let frame = space.frame(windows, output);
    let kept = space.after_render_windows(windows, output).w_accumulated_damage;
    damage::four_frames_are_kept(space.w_accumulated_damage, frame, 0);
    assert(kept[0] == frame);
    if space.full_clear {
        assert(frame[0] == space.everything());
    } else if SpaceView::mergeable(windows, output) && output.has(x, y) && (exists|i: int|
        0 <= i < windows.len() && damage::covers(#[trigger] windows[i], x, y)) {
        damage::frame_covers_the_output(windows, output, x, y);
    }
}

/// A frame that is not to be drawn whole keeps and draws no more than any rectangle
/// that holds all the damage of the windows, and a frame that is to be drawn whole no
/// more than the space.
pub proof fn frame_takes_up_no_more_than_the_damage(
    space: SpaceView,
    windows: Seq<Seq<Rectangle>>,
    output: Rectangle,
    outer: Rectangle,
)
    requires
        damage::all_lists_wf(windows),
        outer.wf(),
        forall|i: int| 0 <= i < windows.len() ==> damage::all_within(#[trigger] windows[i], outer),
    ensures
        ({
            let newest = space.after_render_windows(windows, output).w_accumulated_damage[0];
            &&& !space.full_clear ==> damage::all_within(newest, outer)
            &&& space.full_clear ==> newest == seq![Rectangle::at_origin(space.dimensions)]
        }),
{
    damage::frame_stays_within_the_damage(windows, output, outer);
    damage::four_frames_are_kept(space.w_accumulated_damage, space.frame(windows, output), 0);
}

/// The newest damage that a space keeps of a frame that is not to be drawn whole is
/// the merged damage of its windows on the output, which is also what a buffer of the
/// last frame is given of it.
pub proof fn kept_damage_is_what_is_drawn(
    space: SpaceView,
    windows: Seq<Seq<Rectangle>>,
    output: Rectangle,
)
    ensures
        ({
            let newest = space.after_render_windows(windows, output).w_accumulated_damage[0];
            &&& !space.full_clear ==> newest == damage::merge_all(
                damage::on_output(windows, output),
            )
            &&& newest.len() > 0 && space.w_accumulated_damage.len() > 0 ==> redraw(
                space.w_accumulated_damage,
                space.frame(windows, output),
                Some(1),
                space.everything(),
            ) == newest
        }),
{
    let frame = space.frame(windows, output);
    damage::four_frames_are_kept(space.w_accumulated_damage, frame, 0);
    damage::older_buffers_lack_more(space.w_accumulated_damage, frame, 1);
}

/// Drawing the windows keeps the damage of the last three frames behind that of the
/// new one, and changes nothing else.
pub proof fn drawing_keeps_the_last_frames(
    space: SpaceView,
    windows: Seq<Seq<Rectangle>>,
    output: Rectangle,
    i: int,
)
    ensures
        ({
            let after = space.after_render_windows(windows, output);
            let kept = space.w_accumulated_damage;
            &&& after.w_accumulated_damage.len() == if kept.len() < 4 {
                kept.len() + 1
            } else {
                4
            }
            &&& 0 <= i < 3 && i < kept.len() ==> after.w_accumulated_damage[i + 1] == kept[i]
            &&& after == SpaceView { w_accumulated_damage: after.w_accumulated_damage, ..space }
        }),
{
    damage::four_frames_are_kept(space.w_accumulated_damage, space.frame(windows, output), i);
}

impl SpaceView {
    /// The space after a number of frames, each with the damage of the windows and the
    /// output it is drawn for.
    pub open spec fn after_frames(self, frames: Seq<(Seq<Seq<Rectangle>>, Rectangle)>) -> SpaceView
        decreases frames.len(),
    {
        if frames.len() == 0 {
            self
        } else {
            self.after_frames(frames.drop_last()).after_render_windows(
                frames.last().0,
                frames.last().1,
            ).after_finish_render()
        }
    }
}

proof fn frames_push_back_the_newest(
    space: SpaceView,
    frames: Seq<(Seq<Seq<Rectangle>>, Rectangle)>,
)
    requires
        frames.len() <= 3,
        space.w_accumulated_damage.len() > 0,
    ensures
        space.after_frames(frames).w_accumulated_damage.len() > frames.len(),
        space.after_frames(frames).w_accumulated_damage[frames.len() as int]
            == space.w_accumulated_damage[0],
        space.after_frames(frames).dimensions == space.dimensions,
    decreases frames.len(),
{
    if frames.len() > 0 {
        let rest = frames.drop_last();
        frames_push_back_the_newest(space, rest);
        drawing_keeps_the_last_frames(
            space.after_frames(rest),
            frames.last().0,
            frames.last().1,
            frames.len() - 1,
        );
    }
}

/// Once a frame was drawn whole, every later frame draws every pixel of the space on a
/// buffer that is older than that frame, whatever was drawn in between, as far as the
/// age of the buffer is known and the kept damage reaches back to it.
pub proof fn whole_frame_reaches_older_buffers(
    space: SpaceView,
    first: (Seq<Seq<Rectangle>>, Rectangle),
    later: Seq<(Seq<Seq<Rectangle>>, Rectangle)>,
    now: (Seq<Seq<Rectangle>>, Rectangle),
    age: i32,
    x: int,
    y: int,
)
    requires
        space.full_clear,
        0 <= x < space.dimensions.w,
        0 <= y < space.dimensions.h,
        later.len() <= 3,
        ({
            let drawn = space.after_render_windows(
                first.0,
                first.1,
            ).after_finish_render().after_frames(later);
            later.len() + 2 <= age <= drawn.w_accumulated_damage.len()
        }),
    ensures
        ({
            let drawn = space.after_render_windows(
                first.0,
                first.1,
            ).after_finish_render().after_frames(later);
            damage::covers(
                redraw(
                    drawn.w_accumulated_damage,
                    drawn.frame(now.0, now.1),
                    Some(age),
                    drawn.everything(),
                ),
                x,
                y,
            )
        }),
{
    let whole = space.after_render_windows(first.0, first.1).after_finish_render();
    let drawn = whole.after_frames(later);
    kept_damage_covers_the_frame(space, first.0, first.1, x, y);
    frames_push_back_the_newest(whole, later);
    kept_frames_are_drawn_on_older_buffers(
        drawn.w_accumulated_damage,
        drawn.frame(now.0, now.1),
        age,
        drawn.everything(),
        later.len() as int,
        x,
        y,
    );
}

/// Ending a frame makes the next one an ordinary one and changes nothing else.
pub proof fn ended_frame_is_followed_by_an_ordinary_one(space: SpaceView)
    ensures
        !space.after_finish_render().full_clear,
        space.after_finish_render() == (SpaceView {
            full_clear: space.after_finish_render().full_clear,
            ..space
        }),
{
}

/// The damage of a popup is its bounding box where the frame is drawn whole, and
/// otherwise what has changed in it.
pub proof fn popup_is_damaged_where_it_changed(
    space: SpaceView,
    bbox: Rectangle,
    changed: Seq<Rectangle>,
    x: int,
    y: int,
)
    ensures
        space.full_clear ==> space.popup_frame(bbox, changed).len() > 0,
        space.full_clear ==> (damage::covers(space.popup_frame(bbox, changed), x, y) <==> bbox.has(
            x,
            y,
        )),
        !space.full_clear ==> space.popup_frame(bbox, changed) == changed,
{
    if space.full_clear {
        assert(space.popup_frame(bbox, changed)[0] == bbox);
    }
}

/// A popup that is drawn counts as drawn, and keeps the damage of this frame before
/// that of its last three. A popup without any damage stays as it is. Nothing else
/// changes in either case.
pub proof fn drawn_popup_keeps_its_damage(
    space: SpaceView,
    index: int,
    bbox: Rectangle,
    changed: Seq<Rectangle>,
    i: int,
    other: int,
)
    requires
        0 <= index < space.popups.len(),
        0 <= other < space.popups.len(),
    ensures
        ({
            let before = space.popups[index];
            let after = space.after_render_popup(index, bbox, changed);
            let popup = after.popups[index];
            let kept = popup.accumulated_damage;
            &&& after == SpaceView { popups: after.popups, ..space }
            &&& after.popups.len() == space.popups.len()
            &&& other != index ==> after.popups[other] == space.popups[other]
            &&& !space.full_clear && changed.len() == 0 ==> after == space
            &&& space.full_clear || changed.len() > 0 ==> {
                &&& !popup.dirty
                &&& kept.len() == if before.accumulated_damage.len() < 4 {
                    before.accumulated_damage.len() + 1
                } else {
                    4
                }
                &&& kept[0] == if space.full_clear {
                    seq![bbox]
                } else {
                    changed
                }
                &&& 0 <= i < 3 && i < before.accumulated_damage.len() ==> kept[i + 1]
                    == before.accumulated_damage[i]
                &&& popup == PopupView { dirty: false, accumulated_damage: kept, ..before }
            }
        }),
{
    let before = space.popups[index];
    damage::four_frames_are_kept(
        before.accumulated_damage,
        space.popup_frame(bbox, changed),
        i,
    );
    if !space.full_clear && changed.len() == 0 {
        assert(space.after_render_popup(index, bbox, changed).popups =~= space.popups);
    }
}

/// The step after the popups before `from` comes to the first popup from there on that
/// has changed and has nothing left to act upon, for the same output, and ends the
/// frame where there is none.
pub proof fn steps_come_to_every_changed_popup(space: SpaceView, output: u64, from: int, i: int)
    requires
        0 <= from,
        space.popups.len() <= usize::MAX,
    ensures
        from <= i < space.popups.len() && space.popups[i].dirty && space.popups[i].popup_state is None
            && (forall|j: int|
            from <= j < i ==> !(#[trigger] space.popups[j]).dirty || space.popups[j].popup_state is Some)
            ==> {
            &&& space.popup_step(output, from) matches FrameStep::Popup { output: o, index }
            &&& o == output && index == i
        },
        (forall|j: int|
            from <= j < space.popups.len() ==> !(#[trigger] space.popups[j]).dirty
                || space.popups[j].popup_state is Some) ==> space.popup_step(output, from)
            == FrameStep::Finish,
{
    no_changed_popup_is_passed_over(space.popups, from);
}

/// A popup whose surface has changed and that has nothing left to act upon is drawn in
/// the next frame: the steps come to it after the popups before it, or before it to one
/// of those.
pub proof fn changed_popup_is_drawn_again(
    space: SpaceView,
    surface: u64,
    now: u64,
    output: u64,
    i: int,
)
    requires
        space.popups.len() <= usize::MAX,
        0 <= i < space.popups.len(),
        space.popups[i].s_surface == surface,
        space.popups[i].popup_state is None,
        forall|j: int| 0 <= j < i ==> (#[trigger] space.popups[j]).s_surface != surface,
    ensures
        ({
            let after = space.after_dirty_popup(surface, now);
            &&& after.popup_step(output, i) matches FrameStep::Popup { output: o, index }
            &&& o == output && index == i
            &&& after.popup_step(output, 0) matches FrameStep::Popup { index: first, .. }
            &&& first <= i
        }),
{
    let after = space.after_dirty_popup(surface, now);
    popup::changed_surface_of_a_popup_is_noted(space, surface, now, i);
    popup::found_popup_is_the_first(space.popups, surface);
    assert(after.popups[i].dirty && after.popups[i].popup_state is None);
    steps_come_to_every_changed_popup(after, output, i, i);
    no_changed_popup_is_passed_over(after.popups, 0);
}

/// Valid damage of windows that lies within some valid rectangle can be drawn on any valid
/// output.
pub proof fn damage_within_bounds_can_be_drawn(
    windows: Seq<Seq<Rectangle>>,
    output: Rectangle,
    outer: Rectangle,
)
    requires
        damage::all_lists_wf(windows),
        output.wf(),
        outer.wf(),
        forall|i: int| 0 <= i < windows.len() ==> damage::all_within(#[trigger] windows[i], outer),
    ensures
        SpaceView::mergeable(windows, output),
{
    damage::frame_stays_within_the_damage(windows, output, outer);
}

} // verus!
