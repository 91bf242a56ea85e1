//! Rectangles of the integer plane.

use vstd::prelude::*;
use crate::scalar::Scalar;

verus! {

/// A rectangle of the integer plane by its edges. It holds the points
/// `(x, y)` with `left <= x < right` and `top <= y < bottom`.
pub struct Bounds {
    pub left: int,
    pub top: int,
    pub right: int,
    pub bottom: int,
}

impl Bounds {
    /// The rectangle holds no point.
    pub open spec fn is_empty(self) -> bool {
        self.left >= self.right || self.top >= self.bottom
    }

    /// The rectangle holds the point `(x, y)`.
    pub open spec fn contains(self, x: int, y: int) -> bool {
        self.left <= x < self.right && self.top <= y < self.bottom
    }

    /// The rectangle of the points that both hold. It is empty where they
    /// share none.
    pub open spec fn intersect(self, other: Bounds) -> Bounds {
        Bounds {
            left: if self.left >= other.left {
                self.left
            } else {
                other.left
            },
            top: if self.top >= other.top {
                self.top
            } else {
                other.top
            },
            right: if self.right <= other.right {
                self.right
            } else {
                other.right
            },
            bottom: if self.bottom <= other.bottom {
                self.bottom
            } else {
                other.bottom
            },
        }
    }

    /// The rectangle with its corner at `(x, y)` and this size.
    pub open spec fn from_xywh(x: int, y: int, width: int, height: int) -> Bounds {
        Bounds { left: x, top: y, right: x + width, bottom: y + height }
    }

    /// The rectangle is one that an [`IntRect`] can hold: it is not empty,
    /// and its edges and its size are 32-bit signed integers.
    pub open spec fn fits_int_rect(self) -> bool {
        &&& !self.is_empty()
        &&& i32::MIN <= self.left
        &&& i32::MIN <= self.top
        &&& self.right <= i32::MAX
        &&& self.bottom <= i32::MAX
        &&& self.right - self.left <= i32::MAX
        &&& self.bottom - self.top <= i32::MAX
    }

    /// The rectangle is one that a [`ScreenIntRect`] can hold: it is not
    /// empty, its corner has no negative coordinate, and its corner and its
    /// size are 32-bit signed integers.
    pub open spec fn fits_screen(self) -> bool {
        &&& !self.is_empty()
        &&& 0 <= self.left <= i32::MAX
        &&& 0 <= self.top <= i32::MAX
        &&& self.right - self.left <= i32::MAX
        &&& self.bottom - self.top <= i32::MAX
    }
}

/// A rectangle of the integer plane that is not empty and whose edges and
/// size are 32-bit signed integers.
#[derive(Copy, Clone, Debug)]
pub struct IntRect {
    x: i32,
    y: i32,
    width: u32,
    height: u32,
}

impl View for IntRect {
    type V = Bounds;

    closed spec fn view(&self) -> Bounds {
        Bounds::from_xywh(self.x as int, self.y as int, self.width as int, self.height as int)
    }
}

impl IntRect {
    /// Every value of the type is a rectangle that is not empty and lies
    /// within the 32-bit signed integers.
    #[verifier::type_invariant]
    pub open spec fn well_formed(self) -> bool {
        self@.fits_int_rect()
    }

    /// The rectangle with its corner at `(x, y)` and this size, if it is not
    /// empty and its far edges are 32-bit signed integers.
    pub fn from_xywh(x: i32, y: i32, width: u32, height: u32) -> (r: Option<IntRect>)
        ensures
            r is Some <==> Bounds::from_xywh(x as int, y as int, width as int, height as int)
                .fits_int_rect(),
            r is Some ==> r.unwrap()@ == Bounds::from_xywh(
                x as int,
                y as int,
                width as int,
                height as int,
            ),
    {
        if width == 0 || height == 0 {
            return None;
        }
        if width > 0x7fff_ffff || height > 0x7fff_ffff {
            return None;
        }
        if x as i64 + width as i64 > 0x7fff_ffff || y as i64 + height as i64 > 0x7fff_ffff {
            return None;
        }
        Some(IntRect { x, y, width, height })
    }

    /// The left edge.
    pub fn x(&self) -> (r: i32)
        ensures
            r == self@.left,
    {
        self.x
    }

    /// The top edge.
    pub fn y(&self) -> (r: i32)
        ensures
            r == self@.top,
    {
        self.y
    }

    /// The width, which is at least one.
    pub fn width(&self) -> (r: u32)
        ensures
            r == self@.right - self@.left,
            r >= 1,
    {
        proof {
            use_type_invariant(self);
        }
        self.width
    }

    /// The height, which is at least one.
    pub fn height(&self) -> (r: u32)
        ensures
            r == self@.bottom - self@.top,
            r >= 1,
    {
        proof {
            use_type_invariant(self);
        }
        self.height
    }

    /// The right edge, one past the last column.
    pub fn right(&self) -> (r: i32)
        ensures
            r == self@.right,
    {
        proof {
            use_type_invariant(self);
        }
        (self.x as i64 + self.width as i64) as i32
    }

    /// The bottom edge, one past the last row.
    pub fn bottom(&self) -> (r: i32)
        ensures
            r == self@.bottom,
    {
        proof {
            use_type_invariant(self);
        }
        (self.y as i64 + self.height as i64) as i32
    }

    /// The part of the rectangle that lies inside `other`, or `None` where
    /// the two share no point.
    pub fn intersect(&self, other: &IntRect) -> (r: Option<IntRect>)
        ensures
            r is None <==> self@.intersect(other@).is_empty(),
            r is Some ==> r.unwrap()@ == self@.intersect(other@),
    {
        proof {
            use_type_invariant(self);
            use_type_invariant(other);
        }
        let left: i32 = if self.x >= other.x {
            self.x
        } else {
            other.x
        };
        let top: i32 = if self.y >= other.y {
            self.y
        } else {
            other.y
        };
        let right: i32 = if self.right() <= other.right() {
            self.right()
        } else {
            other.right()
        };
        let bottom: i32 = if self.bottom() <= other.bottom() {
            self.bottom()
        } else {
            other.bottom()
        };
        if right <= left || bottom <= top {
            return None;
        }
        let width: u32 = (right as i64 - left as i64) as u32;
        let height: u32 = (bottom as i64 - top as i64) as u32;
        IntRect::from_xywh(left, top, width, height)
    }

    /// The same rectangle as one of the screen, if no coordinate of its
    /// corner is negative.
    pub fn to_screen_int_rect(&self) -> (r: Option<ScreenIntRect>)
        ensures
            r is Some <==> self@.left >= 0 && self@.top >= 0,
            r is Some ==> r.unwrap()@ == self@,
    {
        proof {
            use_type_invariant(self);
        }
        if self.x < 0 || self.y < 0 {
            return None;
        }
        ScreenIntRect::from_xywh(self.x as u32, self.y as u32, self.width, self.height)
    }

    /// The part of the rectangle that lies inside the screen rectangle
    /// `clip`, or `None` where the two share no point.
    pub fn clip_to(&self, clip: &ScreenIntRect) -> (r: Option<ScreenIntRect>)
        ensures
            r is None <==> self@.intersect(clip@).is_empty(),
            r is Some ==> r.unwrap()@ == self@.intersect(clip@),
    {
        proof {
            use_type_invariant(self);
            use_type_invariant(clip);
        }
        let left: i64 = if self.x as i64 >= clip.x() as i64 {
            self.x as i64
        } else {
            clip.x() as i64
        };
        let top: i64 = if self.y as i64 >= clip.y() as i64 {
            self.y as i64
        } else {
            clip.y() as i64
        };
        let right: i64 = if self.right() as i64 <= clip.right() as i64 {
            self.right() as i64
        } else {
            clip.right() as i64
        };
        let bottom: i64 = if self.bottom() as i64 <= clip.bottom() as i64 {
            self.bottom() as i64
        } else {
            clip.bottom() as i64
        };
        if right <= left || bottom <= top {
            return None;
        }
        ScreenIntRect::from_xywh(
            left as u32,
            top as u32,
            (right - left) as u32,
            (bottom - top) as u32,
        )
    }
}

/// A rectangle of the screen: not empty, its corner without a negative
/// coordinate, its corner and its size 32-bit signed integers.
#[derive(Copy, Clone, Debug)]
pub struct ScreenIntRect {
    x: u32,
    y: u32,
    width: u32,
    height: u32,
}

impl View for ScreenIntRect {
    type V = Bounds;

    closed spec fn view(&self) -> Bounds {
        Bounds::from_xywh(self.x as int, self.y as int, self.width as int, self.height as int)
    }
}

impl ScreenIntRect {
    /// Every value of the type is a rectangle that a screen can hold.
    #[verifier::type_invariant]
    pub open spec fn well_formed(self) -> bool {
        self@.fits_screen()
    }

    /// The rectangle with its corner at `(x, y)` and this size, if it is not
    /// empty and each of the four is a 32-bit signed integer.
    pub fn from_xywh(x: u32, y: u32, width: u32, height: u32) -> (r: Option<ScreenIntRect>)
        ensures
            r is Some <==> Bounds::from_xywh(x as int, y as int, width as int, height as int)
                .fits_screen(),
            r is Some ==> r.unwrap()@ == Bounds::from_xywh(
                x as int,
                y as int,
                width as int,
                height as int,
            ),
    {
        if x > 0x7fff_ffff || y > 0x7fff_ffff || width > 0x7fff_ffff || height > 0x7fff_ffff {
            return None;
        }
        if width == 0 || height == 0 {
            return None;
        }
        Some(ScreenIntRect { x, y, width, height })
    }

    /// The left edge.
    pub fn x(&self) -> (r: u32)
        ensures
            r == self@.left,
    {
        self.x
    }

    /// The top edge.
    pub fn y(&self) -> (r: u32)
        ensures
            r == self@.top,
    {
        self.y
    }

    /// The width, which is at least one.
    pub fn width(&self) -> (r: u32)
        ensures
            r == self@.right - self@.left,
            r >= 1,
    {
        proof {
            use_type_invariant(self);
        }
        self.width
    }

    /// The height, which is at least one.
    pub fn height(&self) -> (r: u32)
        ensures
            r == self@.bottom - self@.top,
            r >= 1,
    {
        proof {
            use_type_invariant(self);
        }
        self.height
    }

    /// The right edge, one past the last column.
    pub fn right(&self) -> (r: u32)
        ensures
            r == self@.right,
    {
        proof {
            use_type_invariant(self);
        }
        self.x + self.width
    }

    /// The bottom edge, one past the last row.
    pub fn bottom(&self) -> (r: u32)
        ensures
            r == self@.bottom,
    {
        proof {
            use_type_invariant(self);
        }
        self.y + self.height
    }

    /// The same rectangle among those of the whole plane, if its far edges
    /// are 32-bit signed integers.
    pub fn to_int_rect(&self) -> (r: Option<IntRect>)
        ensures
            r is Some <==> self@.right <= i32::MAX && self@.bottom <= i32::MAX,
            r is Some ==> r.unwrap()@ == self@,
    {
        proof {
            use_type_invariant(self);
        }
        IntRect::from_xywh(self.x as i32, self.y as i32, self.width, self.height)
    }
}

/// The intersection holds exactly the points that both rectangles hold, and
/// is empty exactly where they share none.
pub proof fn lemma_intersect_is_common_points(a: Bounds, b: Bounds)
    ensures
        forall|x: int, y: int|
            #[trigger] a.intersect(b).contains(x, y) <==> a.contains(x, y) && b.contains(x, y),
        a.intersect(b).is_empty() <==> forall|x: int, y: int|
            !(#[trigger] a.contains(x, y) && b.contains(x, y)),
        a.intersect(b) == b.intersect(a),
{
    let c = a.intersect(b);
    if !c.is_empty() {
        assert(a.contains(c.left, c.top) && b.contains(c.left, c.top));
    }
}

/// A rectangle is empty exactly where it holds no point.
pub proof fn lemma_empty_holds_nothing(a: Bounds)
    ensures
        a.is_empty() <==> forall|x: int, y: int| !#[trigger] a.contains(x, y),
{
    if !a.is_empty() {
        assert(a.contains(a.left, a.top));
    }
}

/// A rectangle by its corner and its size, all finite, the width and the
/// height above zero.
#[derive(Copy, Clone, Debug)]
pub struct NonZeroRect {
    x: Scalar,
    y: Scalar,
    width: Scalar,
    height: Scalar,
}

/// The corner and the size of a rectangle, as the four values of it.
pub struct Extent {
    pub x: Scalar,
    pub y: Scalar,
    pub width: Scalar,
    pub height: Scalar,
}

impl Extent {
    /// The four values are finite, and the width and the height are above
    /// zero.
    pub open spec fn is_non_zero(self) -> bool {
        &&& self.x.finite()
        &&& self.y.finite()
        &&& self.width.finite()
        &&& self.height.finite()
        &&& self.width.key() > 0
        &&& self.height.key() > 0
    }
}

impl View for NonZeroRect {
    type V = Extent;

    closed spec fn view(&self) -> Extent {
        Extent { x: self.x, y: self.y, width: self.width, height: self.height }
    }
}

impl NonZeroRect {
    /// Every value of the type is finite and has a width and a height above
    /// zero.
    #[verifier::type_invariant]
    pub open spec fn well_formed(self) -> bool {
        self@.is_non_zero()
    }

    /// The rectangle with this corner and size, if the four values are
    /// finite and the width and the height are above zero.
    pub fn from_xywh(x: Scalar, y: Scalar, width: Scalar, height: Scalar) -> (r: Option<NonZeroRect>)
        ensures
            r is Some <==> (Extent { x, y, width, height }).is_non_zero(),
            r is Some ==> r.unwrap()@ == (Extent { x, y, width, height }),
    {
        let zero = Scalar::zero();
        if x.is_finite() && y.is_finite() && width.is_finite() && height.is_finite() && width.gt(
            &zero,
        ) && height.gt(&zero) {
            Some(NonZeroRect { x, y, width, height })
        } else {
            None
        }
    }

    /// The left edge.
    pub fn x(&self) -> (r: Scalar)
        ensures
            r == self@.x,
    {
        self.x
    }

    /// The top edge.
    pub fn y(&self) -> (r: Scalar)
        ensures
            r == self@.y,
    {
        self.y
    }

    /// The width, which is above zero.
    pub fn width(&self) -> (r: Scalar)
        ensures
            r == self@.width,
            r.finite() && r.key() > 0,
    {
        proof {
            use_type_invariant(self);
        }
        self.width
    }

    /// The height, which is above zero.
    pub fn height(&self) -> (r: Scalar)
        ensures
            r == self@.height,
            r.finite() && r.key() > 0,
    {
        proof {
            use_type_invariant(self);
        }
        self.height
    }
}

} // verus!
