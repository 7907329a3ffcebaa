//! Points, sizes and rectangles on a surface.

use vstd::prelude::*;

verus! {

/// A position, in pixels.
#[derive(Clone, Copy, Debug, PartialEq, Eq, Structural)]
pub struct Point {
    pub x: i32,
    pub y: i32,
}

/// A width and a height, in pixels.
#[derive(Clone, Copy, Debug, PartialEq, Eq, Structural)]
pub struct Size {
    pub w: i32,
    pub h: i32,
}

/// An area given by its top-left corner and its size.
#[derive(Clone, Copy, Debug, PartialEq, Eq, Structural)]
pub struct Rectangle {
    pub loc: Point,
    pub size: Size,
}

pub open spec fn min(a: int, b: int) -> int {
    if a <= b {
        a
    } else {
        b
    }
}

pub open spec fn max(a: int, b: int) -> int {
    if a >= b {
        a
    } else {
        b
    }
}

impl Size {
    /// No extent is negative.
    pub open spec fn wf(self) -> bool {
        &&& self.w >= 0
        &&& self.h >= 0
    }

    /// Whether no extent is negative.
    pub fn is_valid(&self) -> (valid: bool)
        ensures
            valid == self.wf(),
    {
        self.w >= 0 && self.h >= 0
    }
}

impl Rectangle {
    /// The first column to the right of the rectangle.
    pub open spec fn right(self) -> int {
        self.loc.x + self.size.w
    }

    /// The first row below the rectangle.
    pub open spec fn bottom(self) -> int {
        self.loc.y + self.size.h
    }

    /// The size is not negative and the far corner is a position.
    pub open spec fn wf(self) -> bool {
        &&& self.size.wf()
        &&& self.right() <= i32::MAX
        &&& self.bottom() <= i32::MAX
    }

    /// The pixel in column `x` and row `y` lies in the rectangle.
    pub open spec fn has(self, x: int, y: int) -> bool {
        &&& self.loc.x <= x < self.right()
        &&& self.loc.y <= y < self.bottom()
    }

    /// No edge of `inner` lies beyond this rectangle.
    pub open spec fn encloses(self, inner: Rectangle) -> bool {
        &&& self.loc.x <= inner.loc.x
        &&& self.loc.y <= inner.loc.y
        &&& inner.right() <= self.right()
        &&& inner.bottom() <= self.bottom()
    }

    /// The two rectangles share a pixel, an edge or a corner.
    pub open spec fn meets(self, other: Rectangle) -> bool {
        &&& self.right() >= other.loc.x
        &&& self.loc.x <= other.right()
        &&& self.bottom() >= other.loc.y
        &&& self.loc.y <= other.bottom()
    }

    /// The smallest rectangle around both is not too wide or too high to be one.
    pub open spec fn hull_fits(self, other: Rectangle) -> bool {
        &&& max(self.right(), other.right()) - min(self.loc.x as int, other.loc.x as int)
            <= i32::MAX
        &&& max(self.bottom(), other.bottom()) - min(self.loc.y as int, other.loc.y as int)
            <= i32::MAX
    }

    /// The smallest rectangle around both.
    pub open spec fn hull(self, other: Rectangle) -> Rectangle {
        let x = min(self.loc.x as int, other.loc.x as int);
        let y = min(self.loc.y as int, other.loc.y as int);
        Rectangle {
            loc: Point { x: x as i32, y: y as i32 },
            size: Size {
                w: (max(self.right(), other.right()) - x) as i32,
                h: (max(self.bottom(), other.bottom()) - y) as i32,
            },
        }
    }

    /// The area that both cover; it has no pixel where they only touch.
    pub open spec fn common(self, other: Rectangle) -> Rectangle {
        let x = max(self.loc.x as int, other.loc.x as int);
        let y = max(self.loc.y as int, other.loc.y as int);
        Rectangle {
            loc: Point { x: x as i32, y: y as i32 },
            size: Size {
                w: (min(self.right(), other.right()) - x) as i32,
                h: (min(self.bottom(), other.bottom()) - y) as i32,
            },
        }
    }

    /// The rectangle of the given size at the origin.
    pub open spec fn at_origin(size: Size) -> Rectangle {
        Rectangle { loc: Point { x: 0, y: 0 }, size }
    }

    /// Whether the size is not negative and the far corner is a position.
    pub fn is_valid(&self) -> (valid: bool)
        ensures
            valid == self.wf(),
    {
        self.size.is_valid() && self.loc.x as i64 + self.size.w as i64 <= i32::MAX as i64
            && self.loc.y as i64 + self.size.h as i64 <= i32::MAX as i64
    }

    /// Whether the smallest rectangle around both is not too wide or too high to
    /// be one.
    pub fn can_merge(&self, other: &Rectangle) -> (fits: bool)
        requires
            self.wf(),
            other.wf(),
        ensures
            fits == self.hull_fits(*other),
    {
        let right: i64 = larger(
            self.loc.x as i64 + self.size.w as i64,
            other.loc.x as i64 + other.size.w as i64,
        );
        let bottom: i64 = larger(
            self.loc.y as i64 + self.size.h as i64,
            other.loc.y as i64 + other.size.h as i64,
        );
        let left: i64 = smaller(self.loc.x as i64, other.loc.x as i64);
        let top: i64 = smaller(self.loc.y as i64, other.loc.y as i64);
        right - left <= i32::MAX as i64 && bottom - top <= i32::MAX as i64
    }

    /// The area that both cover, or `None` where the two do not even touch.
    pub fn intersection(&self, other: &Rectangle) -> (area: Option<Rectangle>)
        requires
            self.wf(),
            other.wf(),
        ensures
            area == (if self.meets(*other) {
                Some(self.common(*other))
            } else {
                None
            }),
    {
        if !overlaps(*self, *other) {
            return None;
        }
        let left: i64 = larger(self.loc.x as i64, other.loc.x as i64);
        let top: i64 = larger(self.loc.y as i64, other.loc.y as i64);
        let right: i64 = smaller(
            self.loc.x as i64 + self.size.w as i64,
            other.loc.x as i64 + other.size.w as i64,
        );
        let bottom: i64 = smaller(
            self.loc.y as i64 + self.size.h as i64,
            other.loc.y as i64 + other.size.h as i64,
        );
        Some(
            Rectangle {
                loc: Point { x: left as i32, y: top as i32 },
                size: Size { w: (right - left) as i32, h: (bottom - top) as i32 },
            },
        )
    }
}

fn larger(a: i64, b: i64) -> (r: i64)
    ensures
        r == max(a as int, b as int),
{
    if a >= b {
        a
    } else {
        b
    }
}

fn smaller(a: i64, b: i64) -> (r: i64)
    ensures
        r == min(a as int, b as int),
{
    if a <= b {
        a
    } else {
        b
    }
}

/// `smithay::utils::Rectangle::overlaps`: true unless one rectangle lies wholly
/// left of, right of, above or below the other, where sharing only an edge or
/// a corner still counts as overlapping. The far corners must be positions,
/// since they are computed in `i32`, and the sizes must not be negative, since
/// a `smithay::utils::Size` is only made from such.
#[verifier::external_body]
pub(crate) fn overlaps(a: Rectangle, b: Rectangle) -> (r: bool)
    requires
        a.wf(),
        b.wf(),
    ensures
        r == a.meets(b),
{
    let a: smithay::utils::Rectangle<i32, smithay::utils::Physical> =
        smithay::utils::Rectangle::from_loc_and_size((a.loc.x, a.loc.y), (a.size.w, a.size.h));
    let b: smithay::utils::Rectangle<i32, smithay::utils::Physical> =
        smithay::utils::Rectangle::from_loc_and_size((b.loc.x, b.loc.y), (b.size.w, b.size.h));
    a.overlaps(b)
}

/// `smithay::utils::Rectangle::merge`: the smallest rectangle that contains
/// both. The far corners and the extents of the result are computed in `i32`,
/// so they must be representable.
#[verifier::external_body]
pub(crate) fn merge(a: Rectangle, b: Rectangle) -> (r: Rectangle)
    requires
        a.wf(),
        b.wf(),
        a.hull_fits(b),
    ensures
        r == a.hull(b),
{
    let a: smithay::utils::Rectangle<i32, smithay::utils::Physical> =
        smithay::utils::Rectangle::from_loc_and_size((a.loc.x, a.loc.y), (a.size.w, a.size.h));
    let b: smithay::utils::Rectangle<i32, smithay::utils::Physical> =
        smithay::utils::Rectangle::from_loc_and_size((b.loc.x, b.loc.y), (b.size.w, b.size.h));
    let r = a.merge(b);
    Rectangle { loc: Point { x: r.loc.x, y: r.loc.y }, size: Size { w: r.size.w, h: r.size.h } }
}

/// A merged rectangle is valid and holds every pixel of the two it came from.
pub proof fn hull_contains_both(a: Rectangle, b: Rectangle)
    requires
        a.wf(),
        b.wf(),
        a.hull_fits(b),
    ensures
        a.hull(b).wf(),
        forall|x: int, y: int| a.has(x, y) || b.has(x, y) ==> #[trigger] a.hull(b).has(x, y),
{
}

/// A merged rectangle lies within every valid rectangle that holds both.
pub proof fn hull_is_smallest(a: Rectangle, b: Rectangle, outer: Rectangle)
    requires
        a.wf(),
        b.wf(),
        outer.wf(),
        outer.encloses(a),
        outer.encloses(b),
    ensures
        a.hull_fits(b),
        outer.encloses(a.hull(b)),
{
}

/// The common area of two rectangles holds exactly the pixels that both hold,
/// and rectangles that do not meet have no pixel in common.
pub proof fn common_is_what_both_hold(a: Rectangle, b: Rectangle)
    requires
        a.wf(),
        b.wf(),
    ensures
        a.meets(b) ==> a.common(b).wf(),
        a.meets(b) ==> forall|x: int, y: int| #[trigger]
            a.common(b).has(x, y) <==> a.has(x, y) && b.has(x, y),
        !a.meets(b) ==> forall|x: int, y: int| !(#[trigger] a.has(x, y) && b.has(x, y)),
{
}

/// Rectangles meet exactly when some point of the one, its edges included, is a
/// point of the other.
pub proof fn meeting_is_sharing_a_point(a: Rectangle, b: Rectangle, x: int, y: int)
    requires
        a.wf(),
        b.wf(),
    ensures
        ({
            &&& a.loc.x <= x <= a.loc.x + a.size.w
            &&& a.loc.y <= y <= a.loc.y + a.size.h
            &&& b.loc.x <= x <= b.loc.x + b.size.w
            &&& b.loc.y <= y <= b.loc.y + b.size.h
        }) ==> a.meets(b),
        a.meets(b) ==> ({
            let p = a.common(b).loc;
            &&& a.loc.x <= p.x <= a.loc.x + a.size.w
            &&& a.loc.y <= p.y <= a.loc.y + a.size.h
            &&& b.loc.x <= p.x <= b.loc.x + b.size.w
            &&& b.loc.y <= p.y <= b.loc.y + b.size.h
        }),
        a.meets(b) == b.meets(a),
{
}

/// A merged rectangle encloses the two that it came from, also where they have no
/// pixel.
pub proof fn hull_encloses_both(a: Rectangle, b: Rectangle)
    requires
        a.wf(),
        b.wf(),
        a.hull_fits(b),
    ensures
        a.hull(b).encloses(a),
        a.hull(b).encloses(b),
        a.hull(b) == b.hull(a),
{
}

/// The common area of rectangles that meet lies within both, and every rectangle
/// that lies within both lies within it.
pub proof fn common_is_largest(a: Rectangle, b: Rectangle, inner: Rectangle)
    requires
        a.wf(),
        b.wf(),
        a.meets(b),
    ensures
        a.encloses(a.common(b)),
        b.encloses(a.common(b)),
        a.encloses(inner) && b.encloses(inner) ==> a.common(b).encloses(inner),
{
}

/// The rectangle of a size at the origin has as many columns and rows as the size
/// says, from the first on.
pub proof fn origin_rectangle_has_its_size(size: Size, x: int, y: int)
    ensures
        Rectangle::at_origin(size).has(x, y) <==> 0 <= x < size.w && 0 <= y < size.h,
{
}

/// Empty sizes and rectangles are valid, like all that have no negative extent and whose
/// far corner has coordinates.
pub proof fn only_negative_and_endless_areas_are_not_valid(rect: Rectangle)
    ensures
        rect.size.wf() <==> rect.size.w >= 0 && rect.size.h >= 0,
        rect.wf() <==> {
            &&& rect.size.w >= 0
            &&& rect.size.h >= 0
            &&& rect.loc.x + rect.size.w <= i32::MAX
            &&& rect.loc.y + rect.size.h <= i32::MAX
        },
{
}

} // verus!
