//! Rectangle fills: from a rectangle and a clip to what is painted.
//!
//! A fill decides; it does not paint. It hands back the pixels to blit, and
//! the caller passes them to its blitter, or does nothing where there are
//! none.

use vstd::prelude::*;
use crate::arithmetic::RectArithmetic;
use crate::geom::Bounds;
use crate::geom::IntRect;
use crate::geom::ScreenIntRect;
use crate::scalar::Scalar;

verus! {

/// The four edges of a rectangle, as values.
pub struct Edges {
    pub left: Scalar,
    pub top: Scalar,
    pub right: Scalar,
    pub bottom: Scalar,
}

impl Edges {
    /// The edges are finite and in order: the left is not right of the
    /// right, nor the top below the bottom.
    pub open spec fn in_order(self) -> bool {
        &&& self.left.finite()
        &&& self.top.finite()
        &&& self.right.finite()
        &&& self.bottom.finite()
        &&& self.left.key() <= self.right.key()
        &&& self.top.key() <= self.bottom.key()
    }
}

/// A rectangle by its edges, which are finite and in order, with a width
/// and a height that are finite too.
#[derive(Copy, Clone, Debug)]
pub struct Rect {
    left: Scalar,
    top: Scalar,
    right: Scalar,
    bottom: Scalar,
}

impl View for Rect {
    type V = Edges;

    closed spec fn view(&self) -> Edges {
        Edges { left: self.left, top: self.top, right: self.right, bottom: self.bottom }
    }
}

impl Rect {
    /// Every value of the type has finite edges, in order.
    #[verifier::type_invariant]
    pub open spec fn well_formed(self) -> bool {
        self@.in_order()
    }

    /// The rectangle with these edges, if they are finite and in order and
    /// its width and its height are finite as well.
    pub fn from_ltrb<A: RectArithmetic>(
        left: Scalar,
        top: Scalar,
        right: Scalar,
        bottom: Scalar,
        arith: &A,
    ) -> (r: Option<Rect>)
        ensures
            r matches Some(rect) ==> rect@ == (Edges { left, top, right, bottom }) && rect@.in_order(),
            !(Edges { left, top, right, bottom }).in_order() ==> r is None,
            (Edges { left, top, right, bottom }).in_order() ==> exists|width: Scalar, height: Scalar|
                {
                    &&& #[trigger] call_ensures(A::extent, (arith, left, right), width)
                    &&& #[trigger] call_ensures(A::extent, (arith, top, bottom), height)
                    &&& r is Some <==> width.finite() && height.finite()
                },
    {
        if !(left.is_finite() && top.is_finite() && right.is_finite() && bottom.is_finite()) {
            return None;
        }
        if !(left.le(&right) && top.le(&bottom)) {
            return None;
        }
        // Width and height must not overflow.
        let width = arith.extent(left, right);
        let height = arith.extent(top, bottom);
        if width.is_finite() && height.is_finite() {
            Some(Rect { left, top, right, bottom })
        } else {
            None
        }
    }

    /// The left edge.
    pub fn left(&self) -> (r: Scalar)
        ensures
            r == self@.left,
    {
        self.left
    }

    /// The top edge.
    pub fn top(&self) -> (r: Scalar)
        ensures
            r == self@.top,
    {
        self.top
    }

    /// The right edge.
    pub fn right(&self) -> (r: Scalar)
        ensures
            r == self@.right,
    {
        self.right
    }

    /// The bottom edge.
    pub fn bottom(&self) -> (r: Scalar)
        ensures
            r == self@.bottom,
    {
        self.bottom
    }

    /// `rounded` is the rectangle with its corner and its size each rounded
    /// to the nearest integer.
    pub open spec fn is_rounded<A: RectArithmetic>(self, arith: &A, rounded: RoundedRect) -> bool {
        exists|width: Scalar, height: Scalar|
            {
                &&& #[trigger] call_ensures(A::extent, (arith, self@.left, self@.right), width)
                &&& #[trigger] call_ensures(A::extent, (arith, self@.top, self@.bottom), height)
                &&& call_ensures(A::saturate_round, (arith, self@.left), rounded.x)
                &&& call_ensures(A::saturate_round, (arith, self@.top), rounded.y)
                &&& call_ensures(A::saturate_round, (arith, width), rounded.width)
                &&& call_ensures(A::saturate_round, (arith, height), rounded.height)
            }
    }

    /// The pixels that the rectangle covers once its corner and its size
    /// are rounded to whole numbers, a size that rounds to zero counting as
    /// one. `None` where the far edges are no 32-bit signed integers.
    pub fn round<A: RectArithmetic>(&self, arith: &A) -> (r: Option<IntRect>)
        ensures
            exists|rounded: RoundedRect|
                {
                    &&& #[trigger] self.is_rounded(arith, rounded)
                    &&& r is Some <==> rounded.bounds() is Some
                    &&& r is Some ==> r.unwrap()@ == rounded.bounds().unwrap()
                },
    {
        let rounded = self.rounded(arith);
        rounded.to_int_rect()
    }

    /// The corner and the size, each rounded to the nearest integer.
    pub fn rounded<A: RectArithmetic>(&self, arith: &A) -> (r: RoundedRect)
        ensures
            self.is_rounded(arith, r),
    {
        let width = arith.extent(self.left, self.right);
        let height = arith.extent(self.top, self.bottom);
        RoundedRect {
            x: arith.saturate_round(self.left),
            y: arith.saturate_round(self.top),
            width: arith.saturate_round(width),
            height: arith.saturate_round(height),
        }
    }
}

/// A rectangle whose corner and size were each rounded to the nearest
/// integer, values beyond the 32-bit signed integers taking the nearest of
/// them.
#[derive(Copy, Clone, Debug)]
pub struct RoundedRect {
    pub x: i32,
    pub y: i32,
    pub width: i32,
    pub height: i32,
}

impl RoundedRect {
    /// The pixels the rectangle covers: a size that rounded to zero counts
    /// as one. `None` where the size is negative or the far edges are no
    /// 32-bit signed integers.
    pub open spec fn bounds(self) -> Option<Bounds> {
        let width: int = if self.width == 0 {
            1
        } else {
            self.width as int
        };
        let height: int = if self.height == 0 {
            1
        } else {
            self.height as int
        };
        let b = Bounds::from_xywh(self.x as int, self.y as int, width, height);
        if b.fits_int_rect() {
            Some(b)
        } else {
            None
        }
    }

    /// What a fill of the rectangle under `clip` paints, if anything: the
    /// pixels of the rectangle that the clip holds.
    pub open spec fn painted(self, clip: Bounds) -> Option<Bounds> {
        match self.bounds() {
            Some(b) => if b.intersect(clip).is_empty() {
                None
            } else {
                Some(b.intersect(clip))
            },
            None => None,
        }
    }

    /// The rectangle of pixels covered, if there is one.
    pub fn to_int_rect(&self) -> (r: Option<IntRect>)
        ensures
            r is Some <==> self.bounds() is Some,
            r is Some ==> r.unwrap()@ == self.bounds().unwrap(),
    {
        if self.width < 0 || self.height < 0 {
            return None;
        }
        let width: u32 = if self.width == 0 {
            1
        } else {
            self.width as u32
        };
        let height: u32 = if self.height == 0 {
            1
        } else {
            self.height as u32
        };
        IntRect::from_xywh(self.x, self.y, width, height)
    }
}

/// Fills a rectangle, without antialiasing.
///
/// The rectangle is rounded to whole pixels. The one rectangle to blit is
/// returned: the pixels of the rounded rectangle that the clip holds.
/// `None` is returned, and nothing is to be blitted, where there are no such
/// pixels: where the rounded rectangle lies outside the clip, or covers no
/// pixels that 32-bit integers name.
pub fn fill_rect<A: RectArithmetic>(rect: &Rect, clip: &ScreenIntRect, arith: &A) -> (blit: Option<
    ScreenIntRect,
>)
    ensures
        exists|rounded: RoundedRect|
            {
                &&& #[trigger] rect.is_rounded(arith, rounded)
                &&& blit is Some <==> rounded.painted(clip@) is Some
                &&& blit is Some ==> blit.unwrap()@ == rounded.painted(clip@).unwrap()
                &&& rounded.bounds() is Some && rounded.bounds().unwrap().intersect(clip@).is_empty()
                    ==> blit is None
            },
{
    let rounded = rect.rounded(arith);
    match rounded.to_int_rect() {
        Some(rect) => fill_int_rect(&rect, clip),
        None => None,
    }
}

/// Fills a rectangle of whole pixels.
///
/// Returns the one rectangle to blit, the part of `rect` inside `clip`, or
/// `None` where the two share no pixel.
pub fn fill_int_rect(rect: &IntRect, clip: &ScreenIntRect) -> (blit: Option<ScreenIntRect>)
    ensures
        blit is None <==> rect@.intersect(clip@).is_empty(),
        blit is Some ==> blit.unwrap()@ == rect@.intersect(clip@),
{
    rect.clip_to(clip)
}

/// What is blitted lies inside the rectangle and inside the clip, and is
/// every pixel that lies in both; nothing is blitted exactly where no pixel
/// does.
pub proof fn lemma_fill_paints_the_common_pixels(rect: RoundedRect, clip: Bounds)
    requires
        rect.bounds() is Some,
    ensures
        rect.painted(clip) is None <==> forall|x: int, y: int|
            !(#[trigger] rect.bounds().unwrap().contains(x, y) && clip.contains(x, y)),
        rect.painted(clip) is Some ==> forall|x: int, y: int|
            #[trigger] rect.painted(clip).unwrap().contains(x, y) <==> rect.bounds().unwrap().contains(
                x,
                y,
            ) && clip.contains(x, y),
{
    crate::geom::lemma_intersect_is_common_points(rect.bounds().unwrap(), clip);
}

} // verus!
