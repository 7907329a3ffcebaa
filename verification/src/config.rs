//! How a space is set up.

use std::ops::Range;

use vstd::prelude::*;

use crate::geometry;
use crate::geometry::Size;

verus! {

/// The layer of the desktop that a space is shown on.
#[derive(Clone, Copy, Debug, PartialEq, Eq, Structural)]
pub enum Layer {
    Background,
    Bottom,
    Top,
    Overlay,
}

/// Whether a space receives keyboard focus.
#[derive(Clone, Copy, Debug, PartialEq, Eq, Structural)]
pub enum KeyboardInteractivity {
    Never,
    Exclusive,
    OnDemand,
}

/// The configuration of a space.
#[derive(Debug)]
pub struct SimpleWrapperConfig {
    /// the name under which the client is started
    pub name: String,
    /// the stem of the desktop file that describes the client
    pub applet: String,
    /// the edges of the output that the space is anchored to, as a layer-shell bit set
    pub anchor: u32,
    pub layer: Layer,
    pub keyboard_interactivity: KeyboardInteractivity,
    /// the smallest and the largest width
    pub width: Option<Range<u32>>,
    /// the smallest and the largest height
    pub height: Option<Range<u32>>,
}

/// An extent of at least one pixel, moved to the nearest bound of its range:
/// up to the start, or else down to the end.
pub open spec fn constrain(extent: int, range: Option<Range<u32>>) -> int {
    let extent = geometry::max(1, extent);
    match range {
        Some(range) => if extent < range.start {
            range.start as int
        } else if extent > range.end {
            range.end as int
        } else {
            extent
        },
        None => extent,
    }
}

/// The range, if there is one, does not end before it starts.
pub open spec fn ordered(range: Option<Range<u32>>) -> bool {
    range matches Some(r) ==> r.start <= r.end
}

impl SimpleWrapperConfig {
    /// The size has no negative extent, and its constrained extents are extents.
    pub open spec fn accepts(self, size: Size) -> bool {
        &&& size.wf()
        &&& constrain(size.w as int, self.width) <= i32::MAX
        &&& constrain(size.h as int, self.height) <= i32::MAX
    }

    /// The size with each extent constrained.
    pub open spec fn constrained(self, size: Size) -> Size {
        Size {
            w: constrain(size.w as int, self.width) as i32,
            h: constrain(size.h as int, self.height) as i32,
        }
    }

    /// Whether the size can be constrained.
    pub fn can_constrain(&self, size: Size) -> (accepted: bool)
        ensures
            accepted == self.accepts(size),
    {
        size.is_valid() && constrain_extent(size.w as u32, &self.width) <= i32::MAX as u32
            && constrain_extent(size.h as u32, &self.height) <= i32::MAX as u32
    }
}

impl Default for SimpleWrapperConfig {
    /// A configuration without a client, bounds or anchors, in the background.
    /// These values are this library's own choice.
    fn default() -> (config: SimpleWrapperConfig)
        ensures
            config.name@ == Seq::<char>::empty(),
            config.applet@ == Seq::<char>::empty(),
            config.anchor == 0,
            config.layer == Layer::Background,
            config.keyboard_interactivity == KeyboardInteractivity::Never,
            config.width is None,
            config.height is None,
    {
        SimpleWrapperConfig {
            name: String::new(),
            applet: String::new(),
            anchor: 0,
            layer: Layer::Background,
            keyboard_interactivity: KeyboardInteractivity::Never,
            width: None,
            height: None,
        }
    }
}

/// The extent, at least one pixel and within its range.
pub(crate) fn constrain_extent(extent: u32, range: &Option<Range<u32>>) -> (out: u32)
    ensures
        out == constrain(extent as int, *range),
{
    let extent: u32 = if extent < 1 {
        1
    } else {
        extent
    };
    match range {
        Some(range) => if extent < range.start {
            range.start
        } else if extent > range.end {
            range.end
        } else {
            extent
        },
        None => extent,
    }
}

/// A constrained extent lies within its range, or has at least one pixel where
/// there is none.
pub proof fn constrained_size_is_in_range(config: SimpleWrapperConfig, size: Size)
    requires
        config.accepts(size),
    ensures
        config.width matches Some(r) ==> (r.start <= r.end ==> r.start <= config.constrained(size).w
            <= r.end),
        config.height matches Some(r) ==> (r.start <= r.end ==> r.start <= config.constrained(
            size,
        ).h <= r.end),
        config.width is None ==> config.constrained(size).w >= 1,
        config.height is None ==> config.constrained(size).h >= 1,
{
}

/// Constraining a size a second time changes no extent whose range does not end
/// before it starts.
pub proof fn constraining_twice_is_constraining_once(config: SimpleWrapperConfig, size: Size)
    requires
        config.accepts(size),
    ensures
        ordered(config.width) && ordered(config.height) ==> config.accepts(
            config.constrained(size),
        ),
        ordered(config.width) ==> config.constrained(config.constrained(size)).w
            == config.constrained(size).w,
        ordered(config.height) ==> config.constrained(config.constrained(size)).h
            == config.constrained(size).h,
{
}

/// A larger extent never becomes the smaller one by being constrained, unless its
/// range ends before it starts.
pub proof fn constraining_keeps_the_order(config: SimpleWrapperConfig, small: Size, large: Size)
    requires
        config.accepts(small),
        config.accepts(large),
    ensures
        ordered(config.width) && small.w <= large.w ==> config.constrained(small).w
            <= config.constrained(large).w,
        ordered(config.height) && small.h <= large.h ==> config.constrained(small).h
            <= config.constrained(large).h,
{
}

/// An extent of at least one pixel that lies within its range stays as it is.
pub proof fn extent_within_its_range_is_kept(config: SimpleWrapperConfig, size: Size)
    ensures
        size.w >= 1 && (config.width matches Some(r) ==> r.start <= size.w <= r.end)
            ==> config.constrained(size).w == size.w,
        size.h >= 1 && (config.height matches Some(r) ==> r.start <= size.h <= r.end)
            ==> config.constrained(size).h == size.h,
{
}

/// An extent below its range goes up to the start of it, one above its range goes
/// down to the end of it, and no pixel counts as one.
pub proof fn extent_outside_its_range_goes_to_the_bound(config: SimpleWrapperConfig, size: Size)
    requires
        config.accepts(size),
    ensures
        config.width matches Some(r) ==> {
            &&& size.w < r.start && 1 < r.start ==> config.constrained(size).w == r.start
            &&& size.w > r.end && size.w >= r.start && size.w >= 1 ==> config.constrained(size).w
                == r.end
        },
        config.height matches Some(r) ==> {
            &&& size.h < r.start && 1 < r.start ==> config.constrained(size).h == r.start
            &&& size.h > r.end && size.h >= r.start && size.h >= 1 ==> config.constrained(size).h
                == r.end
        },
        size.w == 0 ==> config.constrained(size) == config.constrained(Size { w: 1, h: size.h }),
        size.h == 0 ==> config.constrained(size) == config.constrained(Size { w: size.w, h: 1 }),
{
}

/// What becomes of an extent depends on that extent and its range alone.
pub proof fn extents_are_constrained_apart(
    a: SimpleWrapperConfig,
    b: SimpleWrapperConfig,
    one: Size,
    other: Size,
)
    ensures
        a.width == b.width && one.w == other.w ==> a.constrained(one).w == b.constrained(other).w,
        a.height == b.height && one.h == other.h ==> a.constrained(one).h == b.constrained(
            other,
        ).h,
{
}

/// Every size without a negative extent can be constrained by ranges whose bounds
/// are extents, and no other size can.
pub proof fn sizes_are_accepted(config: SimpleWrapperConfig, size: Size)
    ensures
        size.w >= 0 && size.h >= 0 && (config.width matches Some(r) ==> r.start <= i32::MAX
            && r.end <= i32::MAX) && (config.height matches Some(r) ==> r.start <= i32::MAX
            && r.end <= i32::MAX) ==> config.accepts(size),
        config.accepts(size) ==> size.w >= 0 && size.h >= 0,
{
}

} // verus!
