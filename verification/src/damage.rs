//! Which parts of a surface are drawn again.
//!
//! The damage of a frame is gathered from the windows on an output, cleaned up
//! and merged into few rectangles. The damage of the last frames is kept, so
//! that a buffer that was last drawn some frames ago is brought up to date.

use std::collections::VecDeque;

use vstd::prelude::*;

use crate::geometry;
use crate::geometry::{merge, overlaps, Rectangle};

verus! {

/// How many frames of damage are kept.
pub const KEPT_FRAMES: usize = 4;

/// Every rectangle is valid.
pub open spec fn all_wf(s: Seq<Rectangle>) -> bool {
    forall|i: int| 0 <= i < s.len() ==> (#[trigger] s[i]).wf()
}

/// Every list holds valid rectangles only.
pub open spec fn all_lists_wf(lists: Seq<Seq<Rectangle>>) -> bool {
    forall|i: int| 0 <= i < lists.len() ==> all_wf(#[trigger] lists[i])
}

/// Some rectangle holds the pixel.
pub open spec fn covers(s: Seq<Rectangle>, x: int, y: int) -> bool {
    exists|i: int| 0 <= i < s.len() && (#[trigger] s[i]).has(x, y)
}

/// The sequence without the rectangles that equal the one before them.
pub open spec fn dedup(s: Seq<Rectangle>) -> Seq<Rectangle>
    decreases s.len(),
{
    if s.len() < 2 {
        s
    } else if s.last() == s[s.len() - 2] {
        dedup(s.drop_last())
    } else {
        dedup(s.drop_last()).push(s.last())
    }
}

/// The rectangles that overlap or touch `area`, in order.
pub open spec fn meeting(s: Seq<Rectangle>, area: Rectangle) -> Seq<Rectangle> {
    s.filter(|r: Rectangle| r.meets(area))
}

/// The rectangles that neither overlap nor touch `area`, in order.
pub open spec fn apart(s: Seq<Rectangle>, area: Rectangle) -> Seq<Rectangle> {
    s.filter(|r: Rectangle| !r.meets(area))
}

/// The rectangles with a width and a height, in order.
pub open spec fn non_empty(s: Seq<Rectangle>) -> Seq<Rectangle> {
    s.filter(|r: Rectangle| r.size.h > 0 && r.size.w > 0)
}

/// `rect`, merged with each of `others` in turn.
pub open spec fn absorb(rect: Rectangle, others: Seq<Rectangle>) -> Rectangle
    decreases others.len(),
{
    if others.len() == 0 {
        rect
    } else {
        absorb(rect, others.drop_last()).hull(others.last())
    }
}

/// No rectangle on the way to `absorb(rect, others)` is too wide or too high to
/// be one.
pub open spec fn absorb_fits(rect: Rectangle, others: Seq<Rectangle>) -> bool
    decreases others.len(),
{
    others.len() == 0 || {
        &&& absorb_fits(rect, others.drop_last())
        &&& absorb(rect, others.drop_last()).hull_fits(others.last())
    }
}

/// The damage with overlapping rectangles merged: each rectangle, in order,
/// takes up those before it that it meets, and goes to the end.
pub open spec fn merge_all(s: Seq<Rectangle>) -> Seq<Rectangle>
    decreases s.len(),
{
    if s.len() == 0 {
        s
    } else {
        let before = merge_all(s.drop_last());
        apart(before, s.last()).push(absorb(s.last(), meeting(before, s.last())))
    }
}

/// No merge on the way to `merge_all(s)` gives a rectangle that is too wide or
/// too high to be one.
pub open spec fn merge_fits(s: Seq<Rectangle>) -> bool
    decreases s.len(),
{
    s.len() == 0 || {
        &&& merge_fits(s.drop_last())
        &&& absorb_fits(s.last(), meeting(merge_all(s.drop_last()), s.last()))
    }
}

/// What of the windows' damage, window by window, is to be merged: no
/// rectangle twice in a row, none off the output and none empty.
pub open spec fn on_output(windows: Seq<Seq<Rectangle>>, output: Rectangle) -> Seq<Rectangle> {
    non_empty(meeting(dedup(windows.flatten()), output))
}

/// The contents of each of a list of lists.
pub open spec fn contents(lists: Seq<Vec<Rectangle>>) -> Seq<Seq<Rectangle>> {
    lists.map_values(|list: Vec<Rectangle>| list@)
}

/// The kept damage once `current` has joined it: newest first, and no more
/// than `KEPT_FRAMES` frames.
pub open spec fn remember(
    history: Seq<Seq<Rectangle>>,
    current: Seq<Rectangle>,
) -> Seq<Seq<Rectangle>> {
    let all = seq![current] + history;
    if all.len() > KEPT_FRAMES {
        all.take(KEPT_FRAMES as int)
    } else {
        all
    }
}

/// How many frames ago a buffer was drawn; 0 where that is not known.
pub open spec fn frames_ago(buffer_age: Option<i32>) -> int {
    match buffer_age {
        Some(age) => if age > 0 {
            age as int
        } else {
            0
        },
        None => 0,
    }
}

/// What a buffer drawn `age` frames ago lacks, `current` included; nothing
/// where the kept damage does not reach back that far.
pub open spec fn missing(
    history: Seq<Seq<Rectangle>>,
    current: Seq<Rectangle>,
    age: int,
) -> Seq<Rectangle> {
    if 1 <= age <= history.len() {
        (seq![current] + history).take(age).flatten()
    } else {
        Seq::empty()
    }
}

/// The rectangles without those that equal the one before them.
fn without_repeats(s: Vec<Rectangle>) -> (out: Vec<Rectangle>)
    ensures
        out@ == dedup(s@),
{
    let mut out: Vec<Rectangle> = Vec::new();
    let mut i: usize = 0;
    assert(s@.take(0) =~= Seq::empty());
    while i < s.len()
        invariant
            i <= s.len(),
            out@ == dedup(s@.take(i as int)),
        decreases s.len() - i,
    {
        assert(s@.take(i + 1).drop_last() =~= s@.take(i as int));
        if i == 0 || s[i] != s[i - 1] {
            out.push(s[i]);
        }
        assert(i == 0 ==> out@ =~= s@.take(1));
        i = i + 1;
    }
    assert(s@.take(i as int) =~= s@);
    out
}

/// The rectangles that meet `area`, and those that do not.
fn split(s: &Vec<Rectangle>, area: Rectangle) -> (parts: (Vec<Rectangle>, Vec<Rectangle>))
    requires
        all_wf(s@),
        area.wf(),
    ensures
        parts.0@ == meeting(s@, area),
        parts.1@ == apart(s@, area),
        all_wf(parts.0@),
        all_wf(parts.1@),
{
    let mut inside: Vec<Rectangle> = Vec::new();
    let mut outside: Vec<Rectangle> = Vec::new();
    let mut i: usize = 0;
    proof {
        reveal(Seq::filter);
        assert(s@.take(0) =~= Seq::empty());
    }
    while i < s.len()
        invariant
            i <= s.len(),
            all_wf(s@),
            area.wf(),
            inside@ == meeting(s@.take(i as int), area),
            outside@ == apart(s@.take(i as int), area),
            all_wf(inside@),
            all_wf(outside@),
        decreases s.len() - i,
    {
        proof {
            reveal(Seq::filter);
            assert(s@.take(i + 1).drop_last() =~= s@.take(i as int));
        }
        if overlaps(s[i], area) {
            inside.push(s[i]);
        } else {
            outside.push(s[i]);
        }
        i = i + 1;
    }
    assert(s@.take(i as int) =~= s@);
    (inside, outside)
}

/// The rectangles with a width and a height.
fn keep_non_empty(s: &Vec<Rectangle>) -> (out: Vec<Rectangle>)
    ensures
        out@ == non_empty(s@),
{
    let mut out: Vec<Rectangle> = Vec::new();
    let mut i: usize = 0;
    proof {
        reveal(Seq::filter);
        assert(s@.take(0) =~= Seq::empty());
    }
    while i < s.len()
        invariant
            i <= s.len(),
            out@ == non_empty(s@.take(i as int)),
        decreases s.len() - i,
    {
        proof {
            reveal(Seq::filter);
            assert(s@.take(i + 1).drop_last() =~= s@.take(i as int));
        }
        if s[i].size.h > 0 && s[i].size.w > 0 {
            out.push(s[i]);
        }
        i = i + 1;
    }
    assert(s@.take(i as int) =~= s@);
    out
}

/// `rect` merged with each of `others`, or `None` where a merged rectangle
/// would be too wide or too high to be one.
fn absorb_others(rect: Rectangle, others: &Vec<Rectangle>) -> (merged: Option<Rectangle>)
    requires
        rect.wf(),
        all_wf(others@),
    ensures
        merged is Some == absorb_fits(rect, others@),
        merged matches Some(r) ==> r == absorb(rect, others@) && r.wf(),
{
    let mut merged: Rectangle = rect;
    let mut i: usize = 0;
    assert(others@.take(0) =~= Seq::empty());
    while i < others.len()
        invariant
            i <= others.len(),
            all_wf(others@),
            merged.wf(),
            merged == absorb(rect, others@.take(i as int)),
            absorb_fits(rect, others@.take(i as int)),
        decreases others.len() - i,
    {
        assert(others@.take(i + 1).drop_last() =~= others@.take(i as int));
        if !merged.can_merge(&others[i]) {
            proof {
                absorb_fits_prefix(rect, others@, i + 1);
            }
            return None;
        }
        merged = merge(merged, others[i]);
        i = i + 1;
    }
    assert(others@.take(i as int) =~= others@);
    Some(merged)
}

proof fn absorb_fits_prefix(rect: Rectangle, others: Seq<Rectangle>, n: int)
    requires
        0 <= n <= others.len(),
    ensures
        absorb_fits(rect, others) ==> absorb_fits(rect, others.take(n)),
    decreases others.len(),
{
    if n == others.len() {
        assert(others.take(n) =~= others);
    } else {
        absorb_fits_prefix(rect, others.drop_last(), n);
        assert(others.drop_last().take(n) =~= others.take(n));
    }
}

proof fn merge_fits_prefix(s: Seq<Rectangle>, n: int)
    requires
        0 <= n <= s.len(),
    ensures
        merge_fits(s) ==> merge_fits(s.take(n)),
    decreases s.len(),
{
    if n == s.len() {
        assert(s.take(n) =~= s);
    } else {
        merge_fits_prefix(s.drop_last(), n);
        assert(s.drop_last().take(n) =~= s.take(n));
    }
}

/// The merged damage, or `None` where a merged rectangle would be too wide or
/// too high to be one.
fn merged(damage: &Vec<Rectangle>) -> (out: Option<Vec<Rectangle>>)
    requires
        all_wf(damage@),
    ensures
        out is Some == merge_fits(damage@),
        out matches Some(m) ==> m@ == merge_all(damage@) && all_wf(m@),
{
    let mut out: Vec<Rectangle> = Vec::new();
    let mut i: usize = 0;
    assert(damage@.take(0) =~= Seq::empty());
    while i < damage.len()
        invariant
            i <= damage.len(),
            all_wf(damage@),
            out@ == merge_all(damage@.take(i as int)),
            all_wf(out@),
            merge_fits(damage@.take(i as int)),
        decreases damage.len() - i,
    {
        assert(damage@.take(i + 1).drop_last() =~= damage@.take(i as int));
        let rect: Rectangle = damage[i];
        let (overlapping, mut rest) = split(&out, rect);
        match absorb_others(rect, &overlapping) {
            Some(whole) => {
                rest.push(whole);
            },
            None => {
                proof {
                    merge_fits_prefix(damage@, i + 1);
                }
                return None;
            },
        }
        out = rest;
        i = i + 1;
    }
    assert(damage@.take(i as int) =~= damage@);
    Some(out)
}

/// Whether no merge on the way to the merged damage gives a rectangle that is
/// too wide or too high to be one.
pub fn can_merge_damage(damage: &Vec<Rectangle>) -> (fits: bool)
    requires
        all_wf(damage@),
    ensures
        fits == merge_fits(damage@),
{
    merged(damage).is_some()
}

/// Merges the overlapping rectangles of a frame's damage.
pub fn merge_damage(damage: &Vec<Rectangle>) -> (out: Vec<Rectangle>)
    requires
        all_wf(damage@),
        merge_fits(damage@),
    ensures
        out@ == merge_all(damage@),
        all_wf(out@),
{
    merged(damage).unwrap()
}

/// The rectangles of all lists, one list after the other.
fn joined(lists: &Vec<Vec<Rectangle>>) -> (out: Vec<Rectangle>)
    ensures
        out@ == contents(lists@).flatten(),
{
    let mut out: Vec<Rectangle> = Vec::new();
    let mut i: usize = 0;
    let ghost all = contents(lists@);
    assert(all.take(0) =~= Seq::empty());
    while i < lists.len()
        invariant
            i <= lists.len(),
            all == contents(lists@),
            out@ == all.take(i as int).flatten(),
        decreases lists.len() - i,
    {
        append_all(&mut out, &lists[i]);
        proof {
            all.take(i as int).lemma_flatten_push(all[i as int]);
            assert(all.take(i as int).push(all[i as int]) =~= all.take(i + 1));
        }
        i = i + 1;
    }
    assert(all.take(i as int) =~= all);
    out
}

/// Adds the rectangles of `more` to the end of `out`.
fn append_all(out: &mut Vec<Rectangle>, more: &Vec<Rectangle>)
    ensures
        final(out)@ == old(out)@ + more@,
{
    let mut i: usize = 0;
    while i < more.len()
        invariant
            i <= more.len(),
            out@ == old(out)@ + more@.take(i as int),
        decreases more.len() - i,
    {
        assert(more@.take(i + 1) =~= more@.take(i as int).push(more@[i as int]));
        out.push(more[i]);
        i = i + 1;
    }
    assert(more@.take(i as int) =~= more@);
}

proof fn flatten_wf(lists: Seq<Seq<Rectangle>>)
    requires
        all_lists_wf(lists),
    ensures
        all_wf(lists.flatten()),
    decreases lists.len(),
{
    if lists.len() > 0 {
        assert(all_wf(lists[0]));
        assert(all_lists_wf(lists.drop_first())) by {
            assert forall|i: int| 0 <= i < lists.drop_first().len() implies all_wf(
                #[trigger] lists.drop_first()[i],
            ) by {
                assert(all_wf(lists[i + 1]));
            }
        }
        flatten_wf(lists.drop_first());
    }
}

proof fn dedup_wf(s: Seq<Rectangle>)
    requires
        all_wf(s),
    ensures
        all_wf(dedup(s)),
    decreases s.len(),
{
    if s.len() >= 2 {
        assert(all_wf(s.drop_last()));
        dedup_wf(s.drop_last());
    }
}

proof fn non_empty_wf(s: Seq<Rectangle>)
    requires
        all_wf(s),
    ensures
        all_wf(non_empty(s)),
    decreases s.len(),
{
    reveal(Seq::filter);
    if s.len() > 0 {
        assert(all_wf(s.drop_last()));
        non_empty_wf(s.drop_last());
    }
}

/// What of the windows' damage falls on an output, ready to be merged.
pub fn output_damage(windows: &Vec<Vec<Rectangle>>, output: Rectangle) -> (out: Vec<Rectangle>)
    requires
        all_lists_wf(contents(windows@)),
        output.wf(),
    ensures
        out@ == on_output(contents(windows@), output),
        all_wf(out@),
{
    let damage = without_repeats(joined(windows));
    proof {
        flatten_wf(contents(windows@));
        dedup_wf(contents(windows@).flatten());
    }
    let (on_screen, _) = split(&damage, output);
    proof {
        non_empty_wf(on_screen@);
    }
    keep_non_empty(&on_screen)
}

/// The damage clipped to a window: the part of each rectangle that lies in
/// `bbox`, without the rectangles that miss it.
pub open spec fn clipped(damage: Seq<Rectangle>, bbox: Rectangle) -> Seq<Rectangle> {
    damage.filter_map(
        |r: Rectangle|
            if r.meets(bbox) {
                Some(r.common(bbox))
            } else {
                None
            },
    )
}

/// The part of the damage that a window with the given bounding box has to
/// draw: no rectangle twice in a row.
pub fn window_damage(damage: &Vec<Rectangle>, bbox: Rectangle) -> (out: Vec<Rectangle>)
    requires
        all_wf(damage@),
        bbox.wf(),
    ensures
        out@ == dedup(clipped(damage@, bbox)),
{
    let mut out: Vec<Rectangle> = Vec::new();
    let mut i: usize = 0;
    assert(damage@.take(0) =~= Seq::empty());
    while i < damage.len()
        invariant
            i <= damage.len(),
            all_wf(damage@),
            bbox.wf(),
            out@ == clipped(damage@.take(i as int), bbox),
        decreases damage.len() - i,
    {
        assert(damage@.take(i + 1).drop_last() =~= damage@.take(i as int));
        if let Some(area) = damage[i].intersection(&bbox) {
            out.push(area);
        }
        i = i + 1;
    }
    assert(damage@.take(i as int) =~= damage@);
    without_repeats(out)
}

/// Adds the damage of the current frame to the kept damage, and gives what a
/// buffer of the given age has to draw. Nothing is given where the age is not
/// known or lies further back than the kept damage: such a buffer is to be
/// drawn whole.
pub fn damage_for_buffer(
    cur_damage: Vec<Rectangle>,
    acc_damage: &mut VecDeque<Vec<Rectangle>>,
    buffer_age: Option<i32>,
) -> (out: Vec<Rectangle>)
    ensures
        contents(final(acc_damage)@) == remember(contents(old(acc_damage)@), cur_damage@),
        out@ == missing(contents(old(acc_damage)@), cur_damage@, frames_ago(buffer_age)),
{
    let age: usize = match buffer_age {
        Some(age) => if age > 0 {
            age as usize
        } else {
            0
        },
        None => 0,
    };
    let known: usize = acc_damage.len();
    let ghost history = contents(acc_damage@);
    let ghost current = cur_damage@;
    acc_damage.push_front(cur_damage);
    let ghost all = contents(acc_damage@);
    assert(all =~= seq![current] + history);

    let mut out: Vec<Rectangle> = Vec::new();
    if age != 0 && age <= known {
        let mut i: usize = 0;
        assert(all.take(0) =~= Seq::empty());
        while i < age
            invariant
                i <= age,
                age < acc_damage@.len(),
                all == contents(acc_damage@),
                out@ == all.take(i as int).flatten(),
            decreases age - i,
        {
            append_all(&mut out, &acc_damage[i]);
            proof {
                all.take(i as int).lemma_flatten_push(all[i as int]);
                assert(all.take(i as int).push(all[i as int]) =~= all.take(i + 1));
            }
            i = i + 1;
        }
    }
    if acc_damage.len() > KEPT_FRAMES {
        acc_damage.truncate(KEPT_FRAMES);
        assert(contents(acc_damage@) =~= all.take(KEPT_FRAMES as int));
    }
    out
}

proof fn absorb_covers(rect: Rectangle, others: Seq<Rectangle>)
    requires
        rect.wf(),
        all_wf(others),
        absorb_fits(rect, others),
    ensures
        absorb(rect, others).wf(),
        forall|x: int, y: int|
            rect.has(x, y) || covers(others, x, y) ==> #[trigger] absorb(rect, others).has(x, y),
    decreases others.len(),
{
    if others.len() > 0 {
        let rest = others.drop_last();
        assert(all_wf(rest));
        absorb_covers(rect, rest);
        geometry::hull_contains_both(absorb(rect, rest), others.last());
        assert forall|x: int, y: int| rect.has(x, y) || covers(others, x, y) implies #[trigger] absorb(
            rect,
            others,
        ).has(x, y) by {
            if covers(others, x, y) {
                let i = choose|i: int| 0 <= i < others.len() && (#[trigger] others[i]).has(x, y);
                if i < rest.len() {
                    assert(rest[i].has(x, y));
                    assert(covers(rest, x, y));
                }
            }
            assert(absorb(rect, rest).has(x, y) || others.last().has(x, y));
        }
    }
}

/// Merging loses no damage: every pixel that some rectangle held is held by a
/// merged one. The merged rectangles are valid, and no more than there were.
pub proof fn merging_loses_nothing(s: Seq<Rectangle>)
    requires
        all_wf(s),
        merge_fits(s),
    ensures
        all_wf(merge_all(s)),
        merge_all(s).len() <= s.len(),
        forall|x: int, y: int| #[trigger] covers(s, x, y) ==> covers(merge_all(s), x, y),
    decreases s.len(),
{
    if s.len() > 0 {
        let rest = s.drop_last();
        let rect = s.last();
        let before = merge_all(rest);
        assert(all_wf(rest));
        merging_loses_nothing(rest);
        let near = meeting(before, rect);
        let far = apart(before, rect);
        broadcast use vstd::seq_lib::group_filter_ensures;
        broadcast use Seq::lemma_filter_contains_rev;

        assert(all_wf(near)) by {
            assert forall|i: int| 0 <= i < near.len() implies (#[trigger] near[i]).wf() by {
                assert(near.contains(near[i]));
                assert(before.contains(near[i]));
            }
        }
        assert(all_wf(far)) by {
            assert forall|i: int| 0 <= i < far.len() implies (#[trigger] far[i]).wf() by {
                assert(far.contains(far[i]));
                assert(before.contains(far[i]));
            }
        }
        absorb_covers(rect, near);
        let whole = absorb(rect, near);
        let after = merge_all(s);
        assert(after[after.len() - 1] == whole);
        assert forall|x: int, y: int| #[trigger] covers(s, x, y) implies covers(after, x, y) by {
            let i = choose|i: int| 0 <= i < s.len() && (#[trigger] s[i]).has(x, y);
            if i == s.len() - 1 {
                assert(after[after.len() - 1].has(x, y));
            } else {
                assert(rest[i].has(x, y));
                assert(covers(rest, x, y));
                let j = choose|j: int| 0 <= j < before.len() && (#[trigger] before[j]).has(x, y);
                if before[j].meets(rect) {
                    assert(near.contains(before[j]));
                    let k = choose|k: int| 0 <= k < near.len() && near[k] == before[j];
                    assert(near[k].has(x, y));
                    assert(covers(near, x, y));
                    assert(after[after.len() - 1].has(x, y));
                } else {
                    assert(far.contains(before[j]));
                    let k = choose|k: int| 0 <= k < far.len() && far[k] == before[j];
                    assert(after[k].has(x, y));
                }
            }
        }
    }
}

/// Every rectangle lies within `outer`.
pub open spec fn all_within(s: Seq<Rectangle>, outer: Rectangle) -> bool {
    forall|i: int| 0 <= i < s.len() ==> outer.encloses(#[trigger] s[i])
}

proof fn absorb_within(rect: Rectangle, others: Seq<Rectangle>, outer: Rectangle)
    requires
        rect.wf(),
        all_wf(others),
        outer.wf(),
        outer.encloses(rect),
        all_within(others, outer),
    ensures
        absorb_fits(rect, others),
        absorb(rect, others).wf(),
        outer.encloses(absorb(rect, others)),
    decreases others.len(),
{
    if others.len() > 0 {
        let rest = others.drop_last();
        assert(all_wf(rest));
        assert(all_within(rest, outer));
        absorb_within(rect, rest, outer);
        geometry::hull_is_smallest(absorb(rect, rest), others.last(), outer);
        geometry::hull_contains_both(absorb(rect, rest), others.last());
    }
}

/// Damage that lies within some valid rectangle can be merged, and the merged
/// damage lies within that rectangle too.
pub proof fn merging_stays_within(s: Seq<Rectangle>, outer: Rectangle)
    requires
        all_wf(s),
        outer.wf(),
        all_within(s, outer),
    ensures
        merge_fits(s),
        all_within(merge_all(s), outer),
    decreases s.len(),
{
    if s.len() > 0 {
        let rest = s.drop_last();
        let before = merge_all(rest);
        assert(all_wf(rest));
        assert(all_within(rest, outer));
        merging_stays_within(rest, outer);
        merging_loses_nothing(rest);
        let near = meeting(before, s.last());
        let far = apart(before, s.last());
        broadcast use Seq::lemma_filter_contains_rev;

        assert forall|i: int| 0 <= i < near.len() implies (#[trigger] near[i]).wf()
            && outer.encloses(near[i]) by {
            assert(near.contains(near[i]));
            assert(before.contains(near[i]));
        }
        assert forall|i: int| 0 <= i < far.len() implies outer.encloses(#[trigger] far[i]) by {
            assert(far.contains(far[i]));
            assert(before.contains(far[i]));
        }
        absorb_within(s.last(), near, outer);
    }
}

/// Leaving out repeated rectangles loses no pixel and adds none.
pub proof fn dedup_covers_the_same(s: Seq<Rectangle>, x: int, y: int)
    ensures
        covers(dedup(s), x, y) <==> covers(s, x, y),
    decreases s.len(),
{
    if s.len() >= 2 {
        let rest = s.drop_last();
        dedup_covers_the_same(rest, x, y);
        let d = dedup(rest);
        if covers(s, x, y) {
            let i = choose|i: int| 0 <= i < s.len() && (#[trigger] s[i]).has(x, y);
            if i < rest.len() {
                assert(rest[i].has(x, y));
            } else if s.last() == s[s.len() - 2] {
                assert(rest[s.len() - 2].has(x, y));
            } else {
                assert(d.push(s.last())[d.len() as int].has(x, y));
            }
        }
        if covers(rest, x, y) {
            let i = choose|i: int| 0 <= i < rest.len() && (#[trigger] rest[i]).has(x, y);
            assert(s[i].has(x, y));
            let j = choose|j: int| 0 <= j < d.len() && (#[trigger] d[j]).has(x, y);
            assert(d.push(s.last())[j].has(x, y));
        }
        if covers(dedup(s), x, y) {
            let j = choose|j: int|
                0 <= j < dedup(s).len() && (#[trigger] dedup(s)[j]).has(x, y);
            if j < d.len() {
                assert(d[j].has(x, y));
            } else {
                assert(s[s.len() - 1].has(x, y));
            }
        }
    }
}

/// A pixel of the output that any window has damaged is part of the frame's
/// merged damage.
pub proof fn frame_covers_the_output(
    windows: Seq<Seq<Rectangle>>,
    output: Rectangle,
    x: int,
    y: int,
)
    requires
        all_lists_wf(windows),
        output.wf(),
        merge_fits(on_output(windows, output)),
        output.has(x, y),
        exists|i: int| 0 <= i < windows.len() && covers(#[trigger] windows[i], x, y),
    ensures
        covers(merge_all(on_output(windows, output)), x, y),
{
    let i = choose|i: int| 0 <= i < windows.len() && covers(#[trigger] windows[i], x, y);
    flatten_covers(windows, i, x, y);
    let all = windows.flatten();
    flatten_wf(windows);
    dedup_wf(all);
    dedup_covers_the_same(all, x, y);
    let d = dedup(all);
    let j = choose|j: int| 0 <= j < d.len() && (#[trigger] d[j]).has(x, y);
    broadcast use vstd::seq_lib::group_filter_ensures;
    broadcast use Seq::lemma_filter_contains_rev;

    let near = meeting(d, output);
    assert(d[j].meets(output));
    assert(near.contains(d[j]));
    let k = choose|k: int| 0 <= k < near.len() && near[k] == d[j];
    let kept = non_empty(near);
    assert(near[k].size.h > 0 && near[k].size.w > 0);
    assert(kept.contains(near[k]));
    let m = choose|m: int| 0 <= m < kept.len() && kept[m] == near[k];
    assert(kept[m].has(x, y));
    assert(covers(kept, x, y));
    assert(all_wf(near)) by {
        assert forall|i: int| 0 <= i < near.len() implies (#[trigger] near[i]).wf() by {
            assert(near.contains(near[i]));
            assert(d.contains(near[i]));
        }
    }
    non_empty_wf(near);
    merging_loses_nothing(kept);
}

proof fn flatten_covers(lists: Seq<Seq<Rectangle>>, i: int, x: int, y: int)
    requires
        0 <= i < lists.len(),
        covers(lists[i], x, y),
    ensures
        covers(lists.flatten(), x, y),
    decreases lists.len(),
{
    let first = lists.first();
    let rest = lists.drop_first().flatten();
    if i == 0 {
        let j = choose|j: int| 0 <= j < first.len() && (#[trigger] first[j]).has(x, y);
        assert(lists.flatten()[j].has(x, y));
    } else {
        flatten_covers(lists.drop_first(), i - 1, x, y);
        let j = choose|j: int| 0 <= j < rest.len() && (#[trigger] rest[j]).has(x, y);
        assert(lists.flatten()[first.len() + j].has(x, y));
    }
}

/// What a window draws is exactly the damaged part of its bounding box.
pub proof fn window_draws_its_damage(damage: Seq<Rectangle>, bbox: Rectangle, x: int, y: int)
    requires
        all_wf(damage),
        bbox.wf(),
    ensures
        covers(dedup(clipped(damage, bbox)), x, y) <==> covers(damage, x, y) && bbox.has(x, y),
{
    clipped_covers(damage, bbox, x, y);
    dedup_covers_the_same(clipped(damage, bbox), x, y);
}

proof fn clipped_covers(damage: Seq<Rectangle>, bbox: Rectangle, x: int, y: int)
    requires
        all_wf(damage),
        bbox.wf(),
    ensures
        covers(clipped(damage, bbox), x, y) <==> covers(damage, x, y) && bbox.has(x, y),
    decreases damage.len(),
{
    if damage.len() > 0 {
        let rest = damage.drop_last();
        let last = damage.last();
        assert(all_wf(rest));
        clipped_covers(rest, bbox, x, y);
        geometry::common_is_what_both_hold(last, bbox);
        let c = clipped(rest, bbox);
        let all = clipped(damage, bbox);
        if covers(damage, x, y) && bbox.has(x, y) {
            let i = choose|i: int| 0 <= i < damage.len() && (#[trigger] damage[i]).has(x, y);
            if i < rest.len() {
                assert(rest[i].has(x, y));
                let j = choose|j: int| 0 <= j < c.len() && (#[trigger] c[j]).has(x, y);
                assert(all[j].has(x, y));
            } else {
                assert(last.meets(bbox));
                assert(last.common(bbox).has(x, y));
                assert(all[c.len() as int].has(x, y));
            }
        }
        if covers(all, x, y) {
            let j = choose|j: int| 0 <= j < all.len() && (#[trigger] all[j]).has(x, y);
            if j < c.len() {
                assert(c[j].has(x, y));
                let i = choose|i: int| 0 <= i < rest.len() && (#[trigger] rest[i]).has(x, y);
                assert(damage[i].has(x, y));
            } else {
                assert(last.common(bbox).has(x, y));
                assert(damage[damage.len() - 1].has(x, y));
            }
        }
    }
}

/// The kept damage after frames with the given damage, oldest first, were
/// drawn on a new surface.
pub open spec fn history_after(frames: Seq<Seq<Rectangle>>) -> Seq<Seq<Rectangle>>
    decreases frames.len(),
{
    if frames.len() == 0 {
        Seq::empty()
    } else {
        remember(history_after(frames.drop_last()), frames.last())
    }
}

/// The kept damage is that of the last frames, newest first, and of no more
/// than `KEPT_FRAMES` of them.
pub proof fn history_is_the_last_frames(frames: Seq<Seq<Rectangle>>)
    ensures
        history_after(frames).len() == if frames.len() <= KEPT_FRAMES {
            frames.len()
        } else {
            KEPT_FRAMES as nat
        },
        forall|i: int|
            0 <= i < history_after(frames).len() ==> #[trigger] history_after(frames)[i]
                == frames[frames.len() - 1 - i],
    decreases frames.len(),
{
    if frames.len() > 0 {
        history_is_the_last_frames(frames.drop_last());
    }
}

/// A buffer that was drawn `age` frames ago, no further back than the kept
/// damage reaches, is given the damage of each of the last `age` frames.
pub proof fn stale_buffer_is_brought_up_to_date(
    frames: Seq<Seq<Rectangle>>,
    current: Seq<Rectangle>,
    age: int,
    i: int,
    x: int,
    y: int,
)
    requires
        1 <= age <= history_after(frames).len(),
        0 <= i < age,
        covers(frames.push(current)[frames.len() - i], x, y),
    ensures
        covers(missing(history_after(frames), current, age), x, y),
{
    history_is_the_last_frames(frames);
    let all = (seq![current] + history_after(frames)).take(age);
    assert(all[i] == frames.push(current)[frames.len() - i]);
    flatten_covers(all, i, x, y);
}

/// What a buffer lacks and what is kept for the next ones are valid if the
/// kept damage and that of the current frame are.
pub proof fn known_damage_is_valid(
    history: Seq<Seq<Rectangle>>,
    current: Seq<Rectangle>,
    age: int,
)
    requires
        all_lists_wf(history),
        all_wf(current),
    ensures
        all_wf(missing(history, current, age)),
        all_lists_wf(remember(history, current)),
        remember(history, current).len() <= KEPT_FRAMES,
{
    let all = seq![current] + history;
    assert forall|i: int| 0 <= i < all.len() implies all_wf(#[trigger] all[i]) by {
        if i > 0 {
            assert(all[i] == history[i - 1]);
        }
    }
    if 1 <= age <= history.len() {
        flatten_wf(all.take(age));
    }
}

/// What a buffer lacks holds the damage of the current frame, unless nothing is
/// known of what it lacks.
pub proof fn missing_covers_the_current_frame(
    history: Seq<Seq<Rectangle>>,
    current: Seq<Rectangle>,
    age: int,
    x: int,
    y: int,
)
    requires
        covers(current, x, y),
    ensures
        missing(history, current, age).len() == 0 || covers(missing(history, current, age), x, y),
{
    if 1 <= age <= history.len() {
        let all = (seq![current] + history).take(age);
        assert(all[0] == current);
        flatten_covers(all, 0, x, y);
    }
}

/// A rectangle that equals the one before it is left out, and every other is kept,
/// in its place.
pub proof fn only_repeats_are_left_out(s: Seq<Rectangle>, rect: Rectangle)
    ensures
        s.len() > 0 && s.last() == rect ==> dedup(s.push(rect)) == dedup(s),
        s.len() == 0 || s.last() != rect ==> dedup(s.push(rect)) == dedup(s).push(rect),
{
    assert(s.push(rect).drop_last() =~= s);
    if s.len() == 0 {
        assert(s.push(rect) =~= dedup(s).push(rect));
    } else {
        assert(s.push(rect)[s.push(rect).len() - 2] == s.last());
    }
}

proof fn dedup_keeps_the_last(s: Seq<Rectangle>)
    requires
        s.len() > 0,
    ensures
        dedup(s).len() > 0,
        dedup(s).last() == s.last(),
    decreases s.len(),
{
    if s.len() >= 2 {
        dedup_keeps_the_last(s.drop_last());
    }
}

/// No rectangle is given twice in a row.
pub proof fn nothing_is_repeated(s: Seq<Rectangle>, i: int)
    requires
        0 <= i < dedup(s).len() - 1,
    ensures
        dedup(s)[i] != dedup(s)[i + 1],
    decreases s.len(),
{
    if s.len() >= 2 {
        let rest = s.drop_last();
        dedup_keeps_the_last(rest);
        if i < dedup(rest).len() - 1 {
            nothing_is_repeated(rest, i);
        }
    }
}

/// Of the rectangles so far, a further one is among those that meet an area, or
/// among those that do not, and comes last there.
pub proof fn rectangles_are_told_apart(s: Seq<Rectangle>, rect: Rectangle, area: Rectangle)
    ensures
        rect.meets(area) ==> {
            &&& meeting(s.push(rect), area) == meeting(s, area).push(rect)
            &&& apart(s.push(rect), area) == apart(s, area)
        },
        !rect.meets(area) ==> {
            &&& meeting(s.push(rect), area) == meeting(s, area)
            &&& apart(s.push(rect), area) == apart(s, area).push(rect)
        },
        meeting(Seq::empty(), area) == Seq::<Rectangle>::empty(),
        apart(Seq::empty(), area) == Seq::<Rectangle>::empty(),
{
    reveal(Seq::filter);
    assert(s.push(rect).drop_last() =~= s);
}

/// A rectangle that a window has damaged last of all counts, and comes last, exactly
/// if it has a width and a height, meets the output and does not repeat the one
/// before it. Windows without damage count for nothing.
pub proof fn damage_on_the_output_counts(
    windows: Seq<Seq<Rectangle>>,
    list: Seq<Rectangle>,
    rect: Rectangle,
    output: Rectangle,
)
    ensures
        ({
            let before = windows.flatten() + list;
            let counts = rect.size.w > 0 && rect.size.h > 0 && rect.meets(output) && (before.len()
                == 0 || before.last() != rect);
            let less = on_output(windows.push(list), output);
            let more = on_output(windows.push(list.push(rect)), output);
            &&& counts ==> more == less.push(rect)
            &&& !counts ==> more == less
        }),
        on_output(windows.push(Seq::empty()), output) == on_output(windows, output),
        on_output(Seq::empty(), output) == Seq::<Rectangle>::empty(),
{
    let before = windows.flatten() + list;
    windows.lemma_flatten_push(list);
    windows.lemma_flatten_push(list.push(rect));
    windows.lemma_flatten_push(Seq::empty());
    assert(windows.flatten() + list.push(rect) =~= before.push(rect));
    assert(windows.flatten() + Seq::<Rectangle>::empty() =~= windows.flatten());
    only_repeats_are_left_out(before, rect);
    let d = dedup(before);
    rectangles_are_told_apart(d, rect, output);
    non_empty_push(meeting(d, output), rect);
    assert(Seq::<Seq<Rectangle>>::empty().flatten() =~= Seq::<Rectangle>::empty());
}

proof fn non_empty_push(s: Seq<Rectangle>, rect: Rectangle)
    ensures
        non_empty(s.push(rect)) == if rect.size.h > 0 && rect.size.w > 0 {
            non_empty(s).push(rect)
        } else {
            non_empty(s)
        },
        non_empty(Seq::empty()) == Seq::<Rectangle>::empty(),
{
    reveal(Seq::filter);
    assert(s.push(rect).drop_last() =~= s);
}

proof fn merged_parts_wf(s: Seq<Rectangle>, rect: Rectangle)
    requires
        all_wf(s),
    ensures
        all_wf(meeting(s, rect)),
        all_wf(apart(s, rect)),
{
    broadcast use Seq::lemma_filter_contains_rev;

    let near = meeting(s, rect);
    let far = apart(s, rect);
    assert forall|i: int| 0 <= i < near.len() implies (#[trigger] near[i]).wf() by {
        assert(near.contains(near[i]));
        assert(s.contains(near[i]));
    }
    assert forall|i: int| 0 <= i < far.len() implies (#[trigger] far[i]).wf() by {
        assert(far.contains(far[i]));
        assert(s.contains(far[i]));
    }
}

proof fn absorb_encloses(rect: Rectangle, others: Seq<Rectangle>)
    requires
        rect.wf(),
        all_wf(others),
        absorb_fits(rect, others),
    ensures
        absorb(rect, others).wf(),
        absorb(rect, others).encloses(rect),
        all_within(others, absorb(rect, others)),
    decreases others.len(),
{
    if others.len() > 0 {
        let rest = others.drop_last();
        assert(all_wf(rest));
        absorb_encloses(rect, rest);
        geometry::hull_contains_both(absorb(rect, rest), others.last());
        geometry::hull_encloses_both(absorb(rect, rest), others.last());
        assert forall|i: int| 0 <= i < others.len() implies absorb(rect, others).encloses(
            #[trigger] others[i],
        ) by {
            if i < rest.len() {
                assert(rest[i] == others[i]);
            }
        }
    }
}

/// A further rectangle takes up the merged rectangles that it meets and leaves the
/// others as they are: the last merged rectangle encloses it and them, and is the
/// smallest to do so.
pub proof fn rectangle_takes_up_what_it_meets(
    s: Seq<Rectangle>,
    rect: Rectangle,
    outer: Rectangle,
)
    requires
        all_wf(s),
        rect.wf(),
        merge_fits(s.push(rect)),
        outer.wf(),
    ensures
        ({
            let before = merge_all(s);
            let after = merge_all(s.push(rect));
            &&& after.len() > 0
            &&& after.drop_last() == apart(before, rect)
            &&& after.last().encloses(rect)
            &&& forall|i: int|
                0 <= i < before.len() && (#[trigger] before[i]).meets(rect)
                    ==> after.last().encloses(before[i])
            &&& outer.encloses(rect) && (forall|i: int|
                0 <= i < before.len() && (#[trigger] before[i]).meets(rect) ==> outer.encloses(
                    before[i],
                )) ==> outer.encloses(after.last())
        }),
        merge_all(Seq::empty()) == Seq::<Rectangle>::empty(),
{
    assert(s.push(rect).drop_last() =~= s);
    let before = merge_all(s);
    let after = merge_all(s.push(rect));
    let near = meeting(before, rect);
    merging_loses_nothing(s);
    merged_parts_wf(before, rect);
    absorb_encloses(rect, near);
    assert(after.drop_last() =~= apart(before, rect));
    broadcast use vstd::seq_lib::group_filter_ensures;
    broadcast use Seq::lemma_filter_contains_rev;

    assert forall|i: int| 0 <= i < before.len() && (#[trigger] before[i]).meets(
        rect,
    ) implies after.last().encloses(before[i]) by {
        assert(near.contains(before[i]));
        let k = choose|k: int| 0 <= k < near.len() && near[k] == before[i];
        assert(absorb(rect, near).encloses(near[k]));
    }
    if outer.encloses(rect) && (forall|i: int|
        0 <= i < before.len() && (#[trigger] before[i]).meets(rect) ==> outer.encloses(before[i])) {
        assert forall|k: int| 0 <= k < near.len() implies outer.encloses(#[trigger] near[k]) by {
            assert(near.contains(near[k]));
            assert(before.contains(near[k]));
            assert(near[k].meets(rect));
        }
        absorb_within(rect, near, outer);
    }
}

/// A further rectangle can be merged exactly if those before it can and some valid
/// rectangle encloses it and the merged rectangles that it meets.
pub proof fn merging_stops_at_the_largest_rectangle(
    s: Seq<Rectangle>,
    rect: Rectangle,
    outer: Rectangle,
)
    requires
        all_wf(s),
        rect.wf(),
    ensures
        merge_fits(Seq::empty()),
        merge_fits(s.push(rect)) ==> merge_fits(s) && merge_all(s.push(rect)).last().wf(),
        ({
            &&& merge_fits(s)
            &&& outer.wf()
            &&& outer.encloses(rect)
            &&& all_within(meeting(merge_all(s), rect), outer)
        }) ==> merge_fits(s.push(rect)),
{
    assert(s.push(rect).drop_last() =~= s);
    if merge_fits(s) {
        merging_loses_nothing(s);
        merged_parts_wf(merge_all(s), rect);
        let near = meeting(merge_all(s), rect);
        if outer.wf() && outer.encloses(rect) && all_within(near, outer) {
            absorb_within(rect, near, outer);
        }
        if merge_fits(s.push(rect)) {
            absorb_encloses(rect, near);
        }
    }
}

proof fn all_apart(s: Seq<Rectangle>, rect: Rectangle)
    requires
        forall|i: int| 0 <= i < s.len() ==> !(#[trigger] s[i]).meets(rect),
    ensures
        apart(s, rect) == s,
        meeting(s, rect) == Seq::<Rectangle>::empty(),
    decreases s.len(),
{
    reveal(Seq::filter);
    if s.len() > 0 {
        let rest = s.drop_last();
        assert forall|i: int| 0 <= i < rest.len() implies !(#[trigger] rest[i]).meets(rect) by {
            assert(rest[i] == s[i]);
        }
        all_apart(rest, rect);
        assert(!s[s.len() - 1].meets(rect));
        assert(rest.push(s.last()) =~= s);
    } else {
        assert(s =~= Seq::empty());
    }
}

/// Rectangles of which no two meet are left as they are.
pub proof fn scattered_damage_is_kept(s: Seq<Rectangle>)
    requires
        forall|i: int, j: int|
            0 <= i < j < s.len() ==> !(#[trigger] s[i]).meets(#[trigger] s[j]),
    ensures
        merge_fits(s),
        merge_all(s) == s,
    decreases s.len(),
{
    if s.len() > 0 {
        let rest = s.drop_last();
        assert forall|i: int, j: int| 0 <= i < j < rest.len() implies !(#[trigger] rest[i]).meets(
            #[trigger] rest[j],
        ) by {
            assert(rest[i] == s[i] && rest[j] == s[j]);
        }
        scattered_damage_is_kept(rest);
        assert forall|i: int| 0 <= i < rest.len() implies !(#[trigger] rest[i]).meets(
            s.last(),
        ) by {
            assert(rest[i] == s[i]);
            assert(s.last() == s[s.len() - 1]);
        }
        all_apart(rest, s.last());
        assert(rest.push(s.last()) =~= s);
    }
}

/// A rectangle that misses a window adds nothing to what that window draws, and one
/// that meets it adds the part that both cover, at the end.
pub proof fn window_draws_the_common_parts(
    damage: Seq<Rectangle>,
    rect: Rectangle,
    bbox: Rectangle,
)
    ensures
        !rect.meets(bbox) ==> dedup(clipped(damage.push(rect), bbox)) == dedup(
            clipped(damage, bbox),
        ),
        rect.meets(bbox) ==> {
            let drawn = dedup(clipped(damage.push(rect), bbox));
            &&& drawn.len() > 0
            &&& drawn.last() == rect.common(bbox)
            &&& drawn == dedup(clipped(damage, bbox)) || drawn == dedup(
                clipped(damage, bbox),
            ).push(rect.common(bbox))
        },
        clipped(Seq::empty(), bbox) == Seq::<Rectangle>::empty(),
{
    assert(damage.push(rect).drop_last() =~= damage);
    if rect.meets(bbox) {
        assert(clipped(damage.push(rect), bbox) =~= clipped(damage, bbox).push(rect.common(bbox)));
        only_repeats_are_left_out(clipped(damage, bbox), rect.common(bbox));
        dedup_keeps_the_last(clipped(damage, bbox).push(rect.common(bbox)));
    }
}

/// The damage of a frame is kept before that of the frames before it, of which the
/// last three stay.
pub proof fn four_frames_are_kept(history: Seq<Seq<Rectangle>>, current: Seq<Rectangle>, i: int)
    ensures
        remember(history, current).len() == if history.len() < 4 {
            history.len() + 1
        } else {
            4
        },
        remember(history, current)[0] == current,
        0 <= i < 3 && i < history.len() ==> remember(history, current)[i + 1] == history[i],
{
}

/// A buffer of the last frame lacks the current one alone, and one that is a frame
/// older lacks the damage of one kept frame more, which comes last. A buffer that is
/// older than the kept damage is not known to lack anything.
pub proof fn older_buffers_lack_more(
    history: Seq<Seq<Rectangle>>,
    current: Seq<Rectangle>,
    age: int,
)
    ensures
        history.len() >= 1 ==> missing(history, current, 1) == current,
        1 <= age < history.len() ==> missing(history, current, age + 1) == missing(
            history,
            current,
            age,
        ) + history[age - 1],
        age < 1 || age > history.len() ==> missing(history, current, age).len() == 0,
{
    let all = seq![current] + history;
    if history.len() >= 1 {
        let none = all.take(0);
        assert(none =~= Seq::empty());
        none.lemma_flatten_push(current);
        assert(none.push(current) =~= all.take(1));
        assert(Seq::<Seq<Rectangle>>::empty().flatten() =~= Seq::<Rectangle>::empty());
        assert(Seq::<Rectangle>::empty() + current =~= current);
    }
    if 1 <= age < history.len() {
        all.take(age).lemma_flatten_push(history[age - 1]);
        assert(all.take(age).push(history[age - 1]) =~= all.take(age + 1));
    }
}

/// The age of a buffer counts as it is, and one that is not known or not positive
/// counts as none.
pub proof fn known_ages_count(buffer_age: Option<i32>)
    ensures
        buffer_age matches Some(age) ==> (age >= 1 ==> frames_ago(buffer_age) == age),
        buffer_age matches Some(age) ==> (age < 1 ==> frames_ago(buffer_age) == 0),
        buffer_age is None ==> frames_ago(buffer_age) == 0,
{
}

proof fn dedup_within(s: Seq<Rectangle>, outer: Rectangle)
    requires
        all_within(s, outer),
    ensures
        all_within(dedup(s), outer),
    decreases s.len(),
{
    if s.len() >= 2 {
        let rest = s.drop_last();
        assert forall|i: int| 0 <= i < rest.len() implies outer.encloses(#[trigger] rest[i]) by {
            assert(rest[i] == s[i]);
        }
        dedup_within(rest, outer);
        assert(outer.encloses(s[s.len() - 1]));
    }
}

proof fn flatten_within(lists: Seq<Seq<Rectangle>>, outer: Rectangle)
    requires
        forall|i: int| 0 <= i < lists.len() ==> all_within(#[trigger] lists[i], outer),
    ensures
        all_within(lists.flatten(), outer),
    decreases lists.len(),
{
    if lists.len() > 0 {
        assert(all_within(lists[0], outer));
        let rest = lists.drop_first();
        assert forall|i: int| 0 <= i < rest.len() implies all_within(#[trigger] rest[i], outer) by {
            assert(rest[i] == lists[i + 1]);
        }
        flatten_within(rest, outer);
    }
}

/// Damage of windows that lies within some valid rectangle can be merged, and a frame
/// takes up no more than that rectangle.
pub proof fn frame_stays_within_the_damage(
    windows: Seq<Seq<Rectangle>>,
    output: Rectangle,
    outer: Rectangle,
)
    requires
        all_lists_wf(windows),
        outer.wf(),
        forall|i: int| 0 <= i < windows.len() ==> all_within(#[trigger] windows[i], outer),
    ensures
        merge_fits(on_output(windows, output)),
        all_within(merge_all(on_output(windows, output)), outer),
{
    let all = windows.flatten();
    flatten_within(windows, outer);
    flatten_wf(windows);
    dedup_within(all, outer);
    dedup_wf(all);
    let d = dedup(all);
    let near = meeting(d, output);
    merged_parts_wf(d, output);
    non_empty_wf(near);
    broadcast use Seq::lemma_filter_contains_rev;

    assert forall|i: int| 0 <= i < near.len() implies outer.encloses(#[trigger] near[i]) by {
        assert(near.contains(near[i]));
        assert(d.contains(near[i]));
    }
    let kept = non_empty(near);
    assert forall|i: int| 0 <= i < kept.len() implies outer.encloses(#[trigger] kept[i]) by {
        assert(kept.contains(kept[i]));
        assert(near.contains(kept[i]));
    }
    merging_stays_within(kept, outer);
}

} // verus!
