//! Conics: rational quadratic curves, and their approximation by chains of
//! quadratics.

use vstd::prelude::*;
use crate::arithmetic::ChopTerms;
use crate::arithmetic::CurveArithmetic;
use crate::point::Point;
use crate::scalar::Scalar;
use crate::scalar::QUARTER_BITS;

verus! {

/// The most halvings a conic goes through on its way to quadratics.
pub const MAX_CONIC_TO_QUAD_POW2: u8 = 4;

/// A rational quadratic curve: three control points and the weight of the
/// middle one.
#[derive(Copy, Clone, Debug)]
pub struct Conic {
    pub points: [Point; 3],
    pub weight: Scalar,
}

impl Conic {
    /// The conic can be approximated within `tolerance`: the tolerance is
    /// finite and not negative, and the weight and every control point are
    /// finite.
    pub open spec fn approximable(self, tolerance: Scalar) -> bool {
        &&& tolerance.finite()
        &&& tolerance.key() >= 0
        &&& self.weight.finite()
        &&& self.points[0].finite()
        &&& self.points[1].finite()
        &&& self.points[2].finite()
    }

    /// The conic through these control points.
    pub fn new(pt0: Point, pt1: Point, pt2: Point, weight: Scalar) -> (r: Conic)
        ensures
            r.points[0] == pt0,
            r.points[1] == pt1,
            r.points[2] == pt2,
            r.weight == weight,
    {
        Conic { points: [pt0, pt1, pt2], weight }
    }

    /// The conic through the first three of `points`.
    pub fn from_points(points: &[Point], weight: Scalar) -> (r: Conic)
        requires
            points.len() >= 3,
        ensures
            r.points[0] == points[0],
            r.points[1] == points[1],
            r.points[2] == points[2],
            r.weight == weight,
    {
        Conic { points: [points[0], points[1], points[2]], weight }
    }

    /// Whether an approximation by quadratics may be looked for at all.
    pub fn accepts_tolerance(&self, tolerance: Scalar) -> (r: bool)
        ensures
            r == self.approximable(tolerance),
    {
        if tolerance.lt(&Scalar::zero()) || !tolerance.is_finite() {
            return false;
        }
        if !self.weight.is_finite() {
            return false;
        }
        if !self.points[0].is_finite() || !self.points[1].is_finite()
            || !self.points[2].is_finite() {
            return false;
        }
        true
    }
}

impl Default for Conic {
    /// The conic with every control point at the origin and the weight
    /// zero.
    fn default() -> (r: Conic)
        ensures
            r.weight.bits == 0,
            forall|i: int| 0 <= i < 3 ==> (#[trigger] r.points[i]).x.bits == 0 && r.points[i].y.bits == 0,
    {
        Conic { points: [Point::zero(), Point::zero(), Point::zero()], weight: Scalar::zero() }
    }
}

/// The number of halvings after which the error is within the tolerance:
/// the least from one to four, and four where none is.
///
/// `errors[k]` is the error left after `k` halvings. One halving is the
/// least ever asked for, so an error that is small at once gives one.
pub open spec fn halvings_needed(errors: [Scalar; 4], tolerance: Scalar) -> int {
    if errors[0].at_most(tolerance) || errors[1].at_most(tolerance) {
        1
    } else if errors[2].at_most(tolerance) {
        2
    } else if errors[3].at_most(tolerance) {
        3
    } else {
        4
    }
}

/// How often a conic is halved before quadratics take its place.
///
/// `errors[k]` is the estimate of the error after `k` halvings, each a
/// quarter of the one before. The count stops at the first estimate within
/// `tolerance`, is never above four, and never below one.
pub fn quad_pow2_for_errors(errors: &[Scalar; 4], tolerance: Scalar) -> (pow2: u8)
    ensures
        pow2 == halvings_needed(*errors, tolerance),
        1 <= pow2 <= MAX_CONIC_TO_QUAD_POW2,
{
    let mut pow2: u8 = 0;
    while pow2 < MAX_CONIC_TO_QUAD_POW2
        invariant
            pow2 <= MAX_CONIC_TO_QUAD_POW2,
            forall|k: int| 0 <= k < pow2 ==> !(#[trigger] errors[k]).at_most(tolerance),
        ensures
            pow2 <= MAX_CONIC_TO_QUAD_POW2,
            forall|k: int| 0 <= k < pow2 ==> !(#[trigger] errors[k]).at_most(tolerance),
            pow2 < MAX_CONIC_TO_QUAD_POW2 ==> errors[pow2 as int].at_most(tolerance),
        decreases MAX_CONIC_TO_QUAD_POW2 - pow2,
    {
        if errors[pow2 as usize].le(&tolerance) {
            break;
        }
        pow2 += 1;
    }
    if pow2 < 1 {
        1
    } else {
        pow2
    }
}

/// The number of quadratics that `pow2` halvings give.
pub open spec fn quad_count(pow2: u8) -> int {
    if pow2 == 0 {
        1
    } else if pow2 == 1 {
        2
    } else if pow2 == 2 {
        4
    } else if pow2 == 3 {
        8
    } else {
        16
    }
}

/// The number of points that the quadratics of `pow2` halvings take up: two
/// each, and the first point of the chain.
pub open spec fn quad_point_count(pow2: u8) -> int {
    2 * quad_count(pow2) + 1
}

/// Every one of the first `count` points is finite.
pub open spec fn all_finite(points: Seq<Point>, count: int) -> bool {
    forall|i: int| 0 <= i < count ==> (#[trigger] points[i]).finite()
}

/// The points with every one between the first and the last of the leading
/// `count` moved to `control`.
pub open spec fn pinned(points: Seq<Point>, count: int, control: Point) -> Seq<Point> {
    Seq::new(
        points.len(),
        |i: int|
            if 1 <= i < count - 1 {
                control
            } else {
                points[i]
            },
    )
}

/// Checks the chain of quadratics that a conic was chopped into, and returns
/// how many quadratics it holds.
///
/// The chain takes up the first `2 * 2^pow2 + 1` of `points`. If all of them
/// are finite, nothing changes. If one is not, every point of the chain but
/// its two ends moves to `control`, the middle control point of the conic;
/// the ends, which are the ends of the conic, stay.
pub fn pin_non_finite(points: &mut [Point], pow2: u8, control: Point) -> (quads: u8)
    requires
        pow2 <= MAX_CONIC_TO_QUAD_POW2,
        old(points).len() >= quad_point_count(pow2),
    ensures
        quads == quad_count(pow2),
        final(points)@ == if all_finite(old(points)@, quad_point_count(pow2)) {
            old(points)@
        } else {
            pinned(old(points)@, quad_point_count(pow2), control)
        },
        final(points)@.len() == old(points)@.len(),
        final(points)@[0] == old(points)@[0],
        final(points)@[quad_point_count(pow2) - 1] == old(points)@[quad_point_count(pow2) - 1],
{
    let quads: u8 = if pow2 == 0 {
        1
    } else if pow2 == 1 {
        2
    } else if pow2 == 2 {
        4
    } else if pow2 == 3 {
        8
    } else {
        16
    };
    let count: usize = 2 * (quads as usize) + 1;
    let mut finite = true;
    let mut i: usize = 0;
    while i < count
        invariant
            i <= count <= points.len(),
            finite == all_finite(points@, i as int),
        decreases count - i,
    {
        if !points[i].is_finite() {
            finite = false;
        }
        i += 1;
    }
    if !finite {
        let mut k: usize = 1;
        while k < count - 1
            invariant
                1 <= k <= count - 1,
                3 <= count <= points.len(),
                points.len() == old(points).len(),
                forall|j: int| 1 <= j < k ==> #[trigger] points@[j] == control,
                forall|j: int|
                    0 <= j < points.len() && !(1 <= j < k) ==> #[trigger] points@[j] == old(
                        points,
                    )@[j],
            decreases count - 1 - k,
        {
            points[k] = control;
            k += 1;
        }
        assert(points@ =~= pinned(old(points)@, count as int, control));
    }
    quads
}

/// The conic with its `index`-th control point moved to `point`.
pub open spec fn with_point(conic: Conic, index: int, point: Point) -> Conic {
    Conic {
        points: [
            if index == 0 {
                point
            } else {
                conic.points[0]
            },
            if index == 1 {
                point
            } else {
                conic.points[1]
            },
            if index == 2 {
                point
            } else {
                conic.points[2]
            },
        ],
        weight: conic.weight,
    }
}

/// The conic with its `index`-th control point moved, along y, to `y`.
pub open spec fn with_y(conic: Conic, index: int, y: Scalar) -> Conic {
    with_point(conic, index, Point { x: conic.points[index].x, y })
}

/// The two halves of `src` that meet at `middle`, with the control points
/// and the weight that the chop computed. The first half starts where `src`
/// starts, and the second ends where `src` ends.
pub open spec fn halves_of(src: Conic, terms: ChopTerms, middle: Point) -> (Conic, Conic) {
    (
        Conic { points: [src.points[0], terms.first_control, middle], weight: terms.weight },
        Conic { points: [middle, terms.second_control, src.points[2]], weight: terms.weight },
    )
}

/// `first` and `second` are the two halves of `src`: made of what the
/// arithmetic computes in single precision, or, where the middle of the
/// conic is not finite then, with the middle computed in double precision.
pub open spec fn is_chopped<A: CurveArithmetic>(
    arith: &A,
    src: Conic,
    first: Conic,
    second: Conic,
) -> bool {
    exists|terms: ChopTerms|
        {
            &&& #[trigger] call_ensures(A::chop, (arith, src), terms)
            &&& if terms.middle.finite() {
                (first, second) == halves_of(src, terms, terms.middle)
            } else {
                exists|middle: Point|
                    {
                        &&& #[trigger] call_ensures(A::chop_midpoint, (arith, src), middle)
                        &&& (first, second) == halves_of(src, terms, middle)
                    }
            }
        }
}

/// `b` lies between `a` and `c`, `product` being `(a - b) * (c - b)`: the
/// product is at most zero. A product that is no number says that it does
/// not.
pub open spec fn is_between(product: Scalar) -> bool {
    product.at_most(Scalar { bits: 0 })
}

/// A value lies nearer to a first place than to a second, `to_first` and
/// `to_second` being how far it lies from each: the first distance is the
/// smaller, whatever the signs.
pub open spec fn is_nearer(to_first: Scalar, to_second: Scalar) -> bool {
    to_first.absolute().less(to_second.absolute())
}

/// The halves `c0` and `c1` of a conic that runs from `start_y` to `end_y`
/// along y, with their shared middle moved to the nearer end where it lies
/// outside the two.
pub open spec fn middle_kept_in_order(
    c0: Conic,
    c1: Conic,
    start_y: Scalar,
    end_y: Scalar,
    middle_between: bool,
    nearer_start: bool,
) -> (Conic, Conic) {
    if middle_between {
        (c0, c1)
    } else {
        let y = if nearer_start {
            start_y
        } else {
            end_y
        };
        (with_y(c0, 2, y), with_y(c1, 0, y))
    }
}

/// `first` and `second` are the halves `c0` and `c1` of `src` kept in order
/// along y, the arithmetic having returned what is given: the product that
/// tells whether the middle lies between the ends of `src`; if it does not,
/// how far the middle lies from the start and from the end; and the products
/// that tell whether the control point of either half lies between the ends
/// of that half.
pub open spec fn is_kept_in_order_by<A: CurveArithmetic>(
    arith: &A,
    src: Conic,
    c0: Conic,
    c1: Conic,
    first: Conic,
    second: Conic,
    middle_product: Scalar,
    to_start: Scalar,
    to_end: Scalar,
    first_product: Scalar,
    second_product: Scalar,
) -> bool {
    let start_y = src.points[0].y;
    let end_y = src.points[2].y;
    let (d0, d1) = middle_kept_in_order(
        c0,
        c1,
        start_y,
        end_y,
        is_between(middle_product),
        is_nearer(to_start, to_end),
    );
    &&& call_ensures(A::between_product, (arith, start_y, c0.points[2].y, end_y), middle_product)
    &&& !is_between(middle_product) ==> {
        &&& call_ensures(A::offset, (arith, c0.points[2].y, start_y), to_start)
        &&& call_ensures(A::offset, (arith, c0.points[2].y, end_y), to_end)
    }
    &&& call_ensures(
        A::between_product,
        (arith, start_y, d0.points[1].y, d0.points[2].y),
        first_product,
    )
    &&& call_ensures(
        A::between_product,
        (arith, d1.points[0].y, d1.points[1].y, end_y),
        second_product,
    )
    &&& first == if is_between(first_product) {
        d0
    } else {
        with_y(d0, 1, start_y)
    }
    &&& second == if is_between(second_product) {
        d1
    } else {
        with_y(d1, 1, end_y)
    }
}

/// `first` and `second` are the halves `c0` and `c1` of `src`, which runs
/// in one direction along y, kept in that order: the middle moved to the
/// nearer end if it lies outside the ends of `src`, then the control point
/// of the first half moved to the start if it does not lie between the ends
/// of that half, and that of the second half to the end likewise.
pub open spec fn is_kept_in_order<A: CurveArithmetic>(
    arith: &A,
    src: Conic,
    c0: Conic,
    c1: Conic,
    first: Conic,
    second: Conic,
) -> bool {
    exists|
        middle_product: Scalar,
        to_start: Scalar,
        to_end: Scalar,
        first_product: Scalar,
        second_product: Scalar,
    |
        #[trigger] is_kept_in_order_by(
            arith,
            src,
            c0,
            c1,
            first,
            second,
            middle_product,
            to_start,
            to_end,
            first_product,
            second_product,
        )
}

/// `first` and `second` are the two halves of `src`, kept in order along y
/// where `src` itself runs in one direction along y: where its control
/// point lies between its ends.
pub open spec fn is_halved<A: CurveArithmetic>(
    arith: &A,
    src: Conic,
    first: Conic,
    second: Conic,
) -> bool {
    exists|c0: Conic, c1: Conic, product: Scalar|
        {
            &&& #[trigger] is_chopped(arith, src, c0, c1)
            &&& #[trigger] call_ensures(
                A::between_product,
                (arith, src.points[0].y, src.points[1].y, src.points[2].y),
                product,
            )
            &&& if is_between(product) {
                is_kept_in_order(arith, src, c0, c1, first, second)
            } else {
                first == c0 && second == c1
            }
        }
}

/// The halves of a conic start and end where the conic does, meet in one
/// point and have one weight, whatever the arithmetic.
pub proof fn lemma_chop_keeps_the_ends<A: CurveArithmetic>(
    arith: &A,
    src: Conic,
    first: Conic,
    second: Conic,
)
    requires
        is_chopped(arith, src, first, second),
    ensures
        first.points[0] == src.points[0],
        second.points[2] == src.points[2],
        first.points[2] == second.points[0],
        first.weight == second.weight,
{
}

/// Halving keeps the ends too: it moves nothing but the middle and the two
/// control points, those along y only, and the middle in both halves alike.
pub proof fn lemma_halving_moves_the_inner_points_only<A: CurveArithmetic>(
    arith: &A,
    src: Conic,
    first: Conic,
    second: Conic,
)
    requires
        is_halved(arith, src, first, second),
    ensures
        first.points[0] == src.points[0],
        second.points[2] == src.points[2],
        first.points[2] == second.points[0],
        first.weight == second.weight,
        exists|c0: Conic, c1: Conic|
            {
                &&& #[trigger] is_chopped(arith, src, c0, c1)
                &&& first.points[1].x == c0.points[1].x
                &&& second.points[1].x == c1.points[1].x
                &&& first.points[2].x == c0.points[2].x
                &&& first.weight == c0.weight
            },
{
    let (c0, c1, product) = choose|c0: Conic, c1: Conic, product: Scalar|
        {
            &&& #[trigger] is_chopped(arith, src, c0, c1)
            &&& #[trigger] call_ensures(
                A::between_product,
                (arith, src.points[0].y, src.points[1].y, src.points[2].y),
                product,
            )
            &&& if is_between(product) {
                is_kept_in_order(arith, src, c0, c1, first, second)
            } else {
                first == c0 && second == c1
            }
        };
    lemma_chop_keeps_the_ends(arith, src, c0, c1);
    assert(is_chopped(arith, src, c0, c1));
}

/// The number of points that `level` halvings of a conic leave behind its
/// first point: two for the conic itself, and twice as many with each
/// halving.
pub open spec fn chain_len(level: nat) -> nat
    decreases level,
{
    if level == 0 {
        2
    } else {
        2 * chain_len((level - 1) as nat)
    }
}

/// `chain` is what `level` halvings of `src` leave behind the first point of
/// `src`: the control point and the end of `src` itself where it is not
/// halved, else what the halvings of its first half leave, then what those
/// of its second half leave.
pub open spec fn is_chain_of<A: CurveArithmetic>(
    arith: &A,
    src: Conic,
    level: nat,
    chain: Seq<Point>,
) -> bool
    decreases level,
{
    if level == 0 {
        chain == seq![src.points[1], src.points[2]]
    } else {
        let half = chain_len((level - 1) as nat) as int;
        &&& chain.len() == 2 * half
        &&& exists|first: Conic, second: Conic|
            {
                &&& #[trigger] is_halved(arith, src, first, second)
                &&& is_chain_of(arith, first, (level - 1) as nat, chain.subrange(0, half))
                &&& is_chain_of(arith, second, (level - 1) as nat, chain.subrange(half, 2 * half))
            }
    }
}

/// A chain has the length that its level gives, and ends where the conic
/// ends.
pub proof fn lemma_chain_ends_with_the_conic<A: CurveArithmetic>(
    arith: &A,
    src: Conic,
    level: nat,
    chain: Seq<Point>,
)
    requires
        is_chain_of(arith, src, level, chain),
    ensures
        chain.len() == chain_len(level),
        chain.len() >= 2,
        chain.last() == src.points[2],
    decreases level,
{
    if level > 0 {
        let half = chain_len((level - 1) as nat) as int;
        let (first, second) = choose|first: Conic, second: Conic|
            {
                &&& #[trigger] is_halved(arith, src, first, second)
                &&& is_chain_of(arith, first, (level - 1) as nat, chain.subrange(0, half))
                &&& is_chain_of(arith, second, (level - 1) as nat, chain.subrange(half, 2 * half))
            };
        lemma_halving_moves_the_inner_points_only(arith, src, first, second);
        lemma_chain_ends_with_the_conic(arith, first, (level - 1) as nat, chain.subrange(0, half));
        lemma_chain_ends_with_the_conic(
            arith,
            second,
            (level - 1) as nat,
            chain.subrange(half, 2 * half),
        );
        assert(chain.subrange(half, 2 * half).last() == chain.last());
    }
}

/// The lengths of the chains of the levels in use.
pub proof fn lemma_chain_len_values()
    ensures
        chain_len(0) == 2,
        chain_len(1) == 4,
        chain_len(2) == 8,
        chain_len(3) == 16,
        chain_len(4) == 32,
        forall|pow2: u8| pow2 <= 4 ==> #[trigger] chain_len(pow2 as nat) == 2 * quad_count(pow2),
{
    reveal_with_fuel(chain_len, 5);
}

/// The conic with its `index`-th control point moved to `point`.
fn move_point(conic: Conic, index: usize, point: Point) -> (r: Conic)
    requires
        index < 3,
    ensures
        r == with_point(conic, index as int, point),
{
    let p0 = if index == 0 {
        point
    } else {
        conic.points[0]
    };
    let p1 = if index == 1 {
        point
    } else {
        conic.points[1]
    };
    let p2 = if index == 2 {
        point
    } else {
        conic.points[2]
    };
    let r = Conic { points: [p0, p1, p2], weight: conic.weight };
    assert(r.points =~= with_point(conic, index as int, point).points);
    r
}

/// The conic with its `index`-th control point moved, along y, to `y`.
fn move_y(conic: Conic, index: usize, y: Scalar) -> (r: Conic)
    requires
        index < 3,
    ensures
        r == with_y(conic, index as int, y),
{
    move_point(conic, index, Point::from_xy(conic.points[index].x, y))
}

/// Whether the product that tells so says that a value lies between two
/// others.
fn lies_between(product: Scalar) -> (r: bool)
    ensures
        r == is_between(product),
{
    product.le(&Scalar::zero())
}

impl Conic {
    /// Chops the conic at the middle of its parameter range.
    ///
    /// The first half starts where the conic starts, the second ends where
    /// it ends, and the two meet at the middle. The control points of the
    /// halves, their weight and the middle are the arithmetic's; where the
    /// middle it computes in single precision is not finite, the middle is
    /// computed again in double precision.
    pub fn chop<A: CurveArithmetic>(&self, arith: &A) -> (r: (Conic, Conic))
        ensures
            is_chopped(arith, *self, r.0, r.1),
            r.0.points[0] == self.points[0],
            r.1.points[2] == self.points[2],
            r.0.points[2] == r.1.points[0],
            r.0.weight == r.1.weight,
    {
        let terms = arith.chop(*self);
        let middle = if terms.middle.is_finite() {
            terms.middle
        } else {
            arith.chop_midpoint(*self)
        };
        let first = Conic {
            points: [self.points[0], terms.first_control, middle],
            weight: terms.weight,
        };
        let second = Conic {
            points: [middle, terms.second_control, self.points[2]],
            weight: terms.weight,
        };
        assert((first, second) == halves_of(*self, terms, middle));
        (first, second)
    }

    /// Chops the conic in two and keeps the halves in order along y.
    ///
    /// A conic that runs in one direction along y must give halves that do
    /// so too, or what scans them will not end. So where the control point of
    /// the conic lies between its ends along y, the middle is moved to the
    /// nearer end if rounding took it outside the two, and the control point
    /// of either half is moved to the outer end of that half if it does not
    /// lie between the ends of the half. Nothing else moves: the halves
    /// start and end where the conic does, and meet in one point.
    pub fn halve<A: CurveArithmetic>(&self, arith: &A) -> (r: (Conic, Conic))
        ensures
            is_halved(arith, *self, r.0, r.1),
            r.0.points[0] == self.points[0],
            r.1.points[2] == self.points[2],
            r.0.points[2] == r.1.points[0],
            r.0.weight == r.1.weight,
    {
        let (c0, c1) = self.chop(arith);
        let start_y = self.points[0].y;
        let end_y = self.points[2].y;
        let product = arith.between_product(start_y, self.points[1].y, end_y);
        if !lies_between(product) {
            return (c0, c1);
        }
        let mid_y = c0.points[2].y;
        let middle_product = arith.between_product(start_y, mid_y, end_y);
        let mut to_start = Scalar::zero();
        let mut to_end = Scalar::zero();
        let mut d0 = c0;
        let mut d1 = c1;
        if !lies_between(middle_product) {
            to_start = arith.offset(mid_y, start_y);
            to_end = arith.offset(mid_y, end_y);
            let closer_y = if to_start.abs().lt(&to_end.abs()) {
                start_y
            } else {
                end_y
            };
            d0 = move_y(c0, 2, closer_y);
            d1 = move_y(c1, 0, closer_y);
        }
        let first_product = arith.between_product(start_y, d0.points[1].y, d0.points[2].y);
        let first = if lies_between(first_product) {
            d0
        } else {
            move_y(d0, 1, start_y)
        };
        let second_product = arith.between_product(d1.points[0].y, d1.points[1].y, end_y);
        let second = if lies_between(second_product) {
            d1
        } else {
            move_y(d1, 1, end_y)
        };
        proof {
            assert((d0, d1) == middle_kept_in_order(
                c0,
                c1,
                start_y,
                end_y,
                is_between(middle_product),
                is_nearer(to_start, to_end),
            ));
            assert(is_kept_in_order_by(
                arith,
                *self,
                c0,
                c1,
                first,
                second,
                middle_product,
                to_start,
                to_end,
                first_product,
                second_product,
            ));
        }
        (first, second)
    }
}

/// Halves a conic `level` times and writes what is left behind its first
/// point to `points`, from `start` on: two points for every conic that the
/// halving ends in, in the order of the curve. Returns where the next point
/// would go.
pub fn subdivide<A: CurveArithmetic>(
    src: &Conic,
    points: &mut [Point],
    start: usize,
    level: u8,
    arith: &A,
) -> (next: usize)
    requires
        level <= MAX_CONIC_TO_QUAD_POW2,
        start + chain_len(level as nat) <= old(points).len(),
    ensures
        next == start + chain_len(level as nat),
        final(points).len() == old(points).len(),
        forall|i: int|
            0 <= i < start || next <= i < old(points).len() ==> #[trigger] final(points)@[i] == old(
                points,
            )@[i],
        is_chain_of(arith, *src, level as nat, final(points)@.subrange(start as int, next as int)),
    decreases level,
{
    proof {
        lemma_chain_len_values();
    }
    if level == 0 {
        points[start] = src.points[1];
        points[start + 1] = src.points[2];
        assert(points@.subrange(start as int, start + 2) =~= seq![src.points[1], src.points[2]]);
        start + 2
    } else {
        let (first, second) = src.halve(arith);
        let middle = subdivide(&first, points, start, level - 1, arith);
        let ghost between = points@;
        let next = subdivide(&second, points, middle, level - 1, arith);
        proof {
            let half = chain_len((level - 1) as nat) as int;
            let chain = points@.subrange(start as int, next as int);
            assert(chain.subrange(0, half) =~= between.subrange(start as int, middle as int));
            assert(chain.subrange(half, 2 * half) =~= points@.subrange(middle as int, next as int));
        }
        next
    }
}

/// `pow2` is how often `conic` is halved to stay within `tolerance`: the
/// count that the bound of the error, and a quarter of it for each halving,
/// give.
pub open spec fn is_quad_pow2<A: CurveArithmetic>(
    arith: &A,
    conic: Conic,
    tolerance: Scalar,
    pow2: u8,
) -> bool {
    exists|errors: [Scalar; 4]|
        {
            &&& call_ensures(A::quad_error, (arith, conic), errors[0])
            &&& call_ensures(A::quarter, (arith, errors[0]), errors[1])
            &&& call_ensures(A::quarter, (arith, errors[1]), errors[2])
            &&& call_ensures(A::quarter, (arith, errors[2]), errors[3])
            &&& pow2 == #[trigger] halvings_needed(errors, tolerance)
        }
}

/// The chain as it is handed out: as it was computed where every point of
/// it is finite, else with every point but the two ends moved to `control`.
pub open spec fn settled(chain: Seq<Point>, control: Point) -> Seq<Point> {
    if all_finite(chain, chain.len() as int) {
        chain
    } else {
        pinned(chain, chain.len() as int, control)
    }
}

impl Conic {
    /// How often the conic is to be halved so that quadratics through the
    /// control points of the pieces stay within `tolerance` of it: at least
    /// once, at most four times. `None` where the tolerance is negative or
    /// not finite, or the weight or a control point is not finite.
    ///
    /// The bound of the error is the arithmetic's, and so is a quarter of
    /// it, which is what each halving leaves. The count stops at the first
    /// bound within the tolerance.
    pub fn compute_quad_pow2<A: CurveArithmetic>(&self, tolerance: Scalar, arith: &A) -> (r: Option<
        u8,
    >)
        ensures
            r is Some <==> self.approximable(tolerance),
            r matches Some(pow2) ==> {
                &&& 1 <= pow2 <= MAX_CONIC_TO_QUAD_POW2
                &&& is_quad_pow2(arith, *self, tolerance, pow2)
            },
    {
        if !self.accepts_tolerance(tolerance) {
            return None;
        }
        let e0 = arith.quad_error(*self);
        let e1 = arith.quarter(e0);
        let e2 = arith.quarter(e1);
        let e3 = arith.quarter(e2);
        let errors = [e0, e1, e2, e3];
        Some(quad_pow2_for_errors(&errors, tolerance))
    }

    /// Chops the conic into `2^pow2` quadratics, stored one after the other
    /// at the front of `points`, each sharing its last point with the next
    /// one's first. Returns how many there are.
    ///
    /// The chain starts at the conic's first point. Behind it come the points
    /// that `pow2` halvings leave. If one of them is not finite, all but the
    /// two ends of the chain move to the conic's control point. The chain
    /// ends at the conic's last point.
    pub fn chop_into_quads_pow2<A: CurveArithmetic>(
        &self,
        pow2: u8,
        points: &mut [Point],
        arith: &A,
    ) -> (quads: u8)
        requires
            pow2 <= MAX_CONIC_TO_QUAD_POW2,
            old(points).len() >= quad_point_count(pow2),
        ensures
            quads == quad_count(pow2),
            final(points).len() == old(points).len(),
            final(points)@[0] == self.points[0],
            final(points)@[quad_point_count(pow2) - 1] == self.points[2],
            forall|i: int|
                quad_point_count(pow2) <= i < old(points).len() ==> #[trigger] final(points)@[i]
                    == old(points)@[i],
            exists|chain: Seq<Point>|
                {
                    &&& is_chain_of(arith, *self, pow2 as nat, chain)
                    &&& final(points)@.take(quad_point_count(pow2)) == settled(
                        seq![self.points[0]] + chain,
                        self.points[1],
                    )
                },
    {
        proof {
            lemma_chain_len_values();
        }
        points[0] = self.points[0];
        let end = subdivide(self, points, 1, pow2, arith);
        let ghost chain = points@.subrange(1, end as int);
        let ghost computed = points@;
        proof {
            lemma_chain_ends_with_the_conic(arith, *self, pow2 as nat, chain);
            assert(computed.take(end as int) =~= seq![self.points[0]] + chain);
            assert(computed[end - 1] == chain.last());
        }
        let quads = pin_non_finite(points, pow2, self.points[1]);
        proof {
            let n = quad_point_count(pow2);
            let whole = seq![self.points[0]] + chain;
            assert(all_finite(computed, n) <==> all_finite(whole, n)) by {
                if all_finite(computed, n) {
                    assert forall|i: int| 0 <= i < n implies (#[trigger] whole[i]).finite() by {
                        assert(computed[i].finite());
                    }
                }
                if all_finite(whole, n) {
                    assert forall|i: int| 0 <= i < n implies (#[trigger] computed[i]).finite() by {
                        assert(whole[i].finite());
                    }
                }
            }
            assert(points@.take(n) =~= settled(whole, self.points[1]));
        }
        quads
    }
}

/// The conic through these control points.
pub open spec fn conic_through(pt0: Point, pt1: Point, pt2: Point, weight: Scalar) -> Conic {
    Conic { points: [pt0, pt1, pt2], weight }
}

/// `quads` holds the quadratics that stand for `conic` within a quarter of
/// a unit: as many as the halvings that this takes give, in a chain that
/// starts at the first point of the conic, goes on with what the halvings
/// leave, and is settled.
pub open spec fn is_chain_of_quads<A: CurveArithmetic>(
    arith: &A,
    conic: Conic,
    quads: AutoConicToQuads,
) -> bool {
    exists|pow2: u8, chain: Seq<Point>|
        {
            &&& 1 <= pow2 <= MAX_CONIC_TO_QUAD_POW2
            &&& #[trigger] is_quad_pow2(arith, conic, Scalar { bits: QUARTER_BITS }, pow2)
            &&& quads.len == quad_count(pow2)
            &&& #[trigger] is_chain_of(arith, conic, pow2 as nat, chain)
            &&& quads.points@.take(quad_point_count(pow2)) == settled(
                seq![conic.points[0]] + chain,
                conic.points[1],
            )
        }
}

/// The quadratics that stand for a conic, within a quarter of a unit.
pub struct AutoConicToQuads {
    /// The chain of quadratics: the first `2 * len + 1` points.
    pub points: [Point; 64],
    /// The number of quadratics.
    pub len: u8,
}

impl AutoConicToQuads {
    /// Turns the conic through `pt0`, `pt1` and `pt2` with the weight
    /// `weight` into quadratics that stay within a quarter of a unit of it:
    /// two, four, eight or sixteen of them. `None` where the weight or a
    /// control point is not finite.
    ///
    /// The chain starts at `pt0` and ends at `pt2`. What lies behind the
    /// chain is zero.
    pub fn compute<A: CurveArithmetic>(
        pt0: Point,
        pt1: Point,
        pt2: Point,
        weight: Scalar,
        arith: &A,
    ) -> (r: Option<AutoConicToQuads>)
        ensures
            r is Some <==> weight.finite() && pt0.finite() && pt1.finite() && pt2.finite(),
            r matches Some(quads) ==> {
                &&& quads.len == 2 || quads.len == 4 || quads.len == 8 || quads.len == 16
                &&& quads.points[0] == pt0
                &&& quads.points[2 * quads.len as int] == pt2
                &&& forall|i: int|
                    2 * quads.len < i < 64 ==> #[trigger] quads.points[i] == (Point {
                        x: Scalar { bits: 0 },
                        y: Scalar { bits: 0 },
                    })
                &&& is_chain_of_quads(arith, conic_through(pt0, pt1, pt2, weight), quads)
            },
    {
        let conic = Conic::new(pt0, pt1, pt2, weight);
        let pow2 = match conic.compute_quad_pow2(Scalar::from_bits(QUARTER_BITS), arith) {
            Some(pow2) => pow2,
            None => {
                return None;
            },
        };
        let mut points = [Point::zero();64];
        let len = conic.chop_into_quads_pow2(pow2, &mut points, arith);
        let quads = AutoConicToQuads { points, len };
        proof {
            assert(conic.points =~= conic_through(pt0, pt1, pt2, weight).points);
            let chain = choose|chain: Seq<Point>|
                {
                    &&& is_chain_of(arith, conic, pow2 as nat, chain)
                    &&& points@.take(quad_point_count(pow2)) == settled(
                        seq![conic.points[0]] + chain,
                        conic.points[1],
                    )
                };
            assert(is_quad_pow2(arith, conic, Scalar { bits: QUARTER_BITS }, pow2));
            assert(is_chain_of(arith, conic, pow2 as nat, chain));
            assert(is_chain_of_quads(arith, conic, quads));
        }
        Some(quads)
    }
}

} // verus!
