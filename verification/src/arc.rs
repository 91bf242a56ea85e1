//! Arcs of the unit circle, built out of conics.

use vstd::prelude::*;
use crate::arithmetic::CurveArithmetic;
use crate::arithmetic::TransformArithmetic;
use crate::conic::Conic;
use crate::point::Point;
use crate::scalar::Scalar;
use crate::scalar::MINUS_ONE_BITS;
use crate::scalar::NEARLY_ZERO_BITS;
use crate::scalar::ONE_BITS;
use crate::scalar::ROOT_2_OVER_2_BITS;
use crate::transform::Transform;

verus! {

/// The direction in which a path runs round its interior.
#[derive(Copy, Clone, PartialEq, Eq, Structural, Debug)]
pub enum PathDirection {
    /// Clockwise.
    CW,
    /// Counter-clockwise.
    CCW,
}

/// Whether the arc from the unit vector `(1, 0)` to `(x, y)` in direction
/// `dir` is empty: the two vectors all but coincide, and the little that
/// parts them lies on the side the direction does not go.
pub open spec fn arc_is_empty(x: Scalar, y: Scalar, dir: PathDirection) -> bool {
    let zero = Scalar { bits: 0 };
    &&& y.absolute().at_most(Scalar { bits: NEARLY_ZERO_BITS })
    &&& zero.less(x)
    &&& ((zero.at_most(y) && dir == PathDirection::CW) || (y.at_most(zero) && dir
        == PathDirection::CCW))
}

/// The quarter of the circle, counted from `(1, 0)` towards `(0, 1)`, in
/// which the unit vector `(x, y)` lies: 0 for `(0, 90)` degrees, 1 for
/// `[90, 180)`, 2 for `[180, 270)` and 3 for `[270, 360)`. A vector with `y`
/// zero counts as half a turn: the arc to `(1, 0)` itself is empty.
pub open spec fn quadrant_of(x: Scalar, y: Scalar) -> usize {
    let zero = Scalar { bits: 0 };
    if y.same(zero) {
        2
    } else if x.same(zero) {
        if zero.less(y) {
            1
        } else {
            3
        }
    } else if y.less(zero) {
        if x.less(zero) {
            2
        } else {
            3
        }
    } else {
        if x.less(zero) {
            1
        } else {
            0
        }
    }
}

/// Where an arc of the unit circle ends.
///
/// `x` and `y` are the dot and the cross product of the unit vectors at which
/// the arc starts and stops, so that `(x, y)` is the stop vector seen from
/// the start. Returns `None` where the arc is empty. Otherwise returns the
/// number of whole quarters the arc runs through, and `y` as it is once a
/// counter-clockwise arc has been mirrored into a clockwise one.
pub fn unit_arc_quadrant(x: Scalar, y: Scalar, dir: PathDirection) -> (r: Option<(usize, Scalar)>)
    ensures
        r is None <==> arc_is_empty(x, y, dir),
        r matches Some((quadrant, turned)) ==> {
            &&& turned == if dir == PathDirection::CCW {
                y.negated()
            } else {
                y
            }
            &&& quadrant == quadrant_of(x, turned)
            &&& quadrant <= 3
        },
{
    let zero = Scalar::zero();
    let abs_y = y.abs();
    if abs_y.le(&Scalar::from_bits(NEARLY_ZERO_BITS)) && x.gt(&zero) && ((y.ge(&zero) && dir
        == PathDirection::CW) || (y.le(&zero) && dir == PathDirection::CCW)) {
        return None;
    }
    let mut y = y;
    if dir == PathDirection::CCW {
        y = y.neg();
    }
    let mut quadrant: usize = 0;
    if y == zero {
        quadrant = 2;
    } else if x == zero {
        quadrant = if y.gt(&zero) {
            1
        } else {
            3
        };
    } else {
        if y.lt(&zero) {
            quadrant += 2;
        }
        if x.lt(&zero) != y.lt(&zero) {
            quadrant += 1;
        }
    }
    Some((quadrant, y))
}

/// The coordinate `-1`, `0` or `1` as a value.
pub open spec fn unit_coordinate(c: int) -> Scalar {
    if c < 0 {
        Scalar { bits: MINUS_ONE_BITS }
    } else if c == 0 {
        Scalar { bits: 0 }
    } else {
        Scalar { bits: ONE_BITS }
    }
}

/// The `index`-th of the eight points that lie, an eighth of a turn apart,
/// on the square round the unit circle: `(1, 0)`, `(1, 1)`, `(0, 1)`,
/// `(-1, 1)`, `(-1, 0)`, `(-1, -1)`, `(0, -1)`, `(1, -1)`.
pub open spec fn octant_point(index: int) -> Point {
    let x: int = if index == 0 || index == 1 || index == 7 {
        1
    } else if index == 2 || index == 6 {
        0
    } else {
        -1
    };
    let y: int = if index == 1 || index == 2 || index == 3 {
        1
    } else if index == 0 || index == 4 {
        0
    } else {
        -1
    };
    Point { x: unit_coordinate(x), y: unit_coordinate(y) }
}

/// The conic that is the `index`-th quarter of the unit circle: from one
/// axis to the next, round the corner of the square between them, with the
/// weight of a right angle.
pub open spec fn quarter_circle(index: int) -> Conic {
    Conic {
        points: [
            octant_point(2 * index),
            octant_point(2 * index + 1),
            octant_point(2 * index + 2),
        ],
        weight: Scalar { bits: ROOT_2_OVER_2_BITS },
    }
}

/// The point on the unit circle at which the `quadrant`-th quarter starts.
pub fn unit_axis_point(quadrant: usize) -> (r: Point)
    requires
        quadrant <= 3,
    ensures
        r == octant_point(2 * quadrant),
{
    let one = Scalar::one();
    let zero = Scalar::zero();
    let minus_one = Scalar::from_bits(MINUS_ONE_BITS);
    if quadrant == 0 {
        Point::from_xy(one, zero)
    } else if quadrant == 1 {
        Point::from_xy(zero, one)
    } else if quadrant == 2 {
        Point::from_xy(minus_one, zero)
    } else {
        Point::from_xy(zero, minus_one)
    }
}

/// Writes the whole quarters of an arc to the front of `dst`: the first
/// `quadrant` quarters of the unit circle, in order. The rest of `dst` stays.
pub fn fill_quadrant_conics(quadrant: usize, dst: &mut [Conic; 5])
    requires
        quadrant <= 3,
    ensures
        forall|i: int| 0 <= i < quadrant ==> #[trigger] final(dst)[i] == quarter_circle(i),
        forall|i: int| quadrant <= i < 5 ==> #[trigger] final(dst)[i] == old(dst)[i],
{
    let one = Scalar::one();
    let zero = Scalar::zero();
    let minus_one = Scalar::from_bits(MINUS_ONE_BITS);
    let quadrant_points: [Point; 8] = [
        Point::from_xy(one, zero),
        Point::from_xy(one, one),
        Point::from_xy(zero, one),
        Point::from_xy(minus_one, one),
        Point::from_xy(minus_one, zero),
        Point::from_xy(minus_one, minus_one),
        Point::from_xy(zero, minus_one),
        Point::from_xy(one, minus_one),
    ];
    assert(forall|k: int| 0 <= k < 8 ==> #[trigger] quadrant_points[k] == octant_point(k));
    let weight = Scalar::from_bits(ROOT_2_OVER_2_BITS);
    let mut i: usize = 0;
    while i < quadrant
        invariant
            i <= quadrant <= 3,
            weight.bits == ROOT_2_OVER_2_BITS,
            forall|k: int| 0 <= k < 8 ==> #[trigger] quadrant_points[k] == octant_point(k),
            forall|k: int| 0 <= k < i ==> #[trigger] dst[k] == quarter_circle(k),
            forall|k: int| i <= k < 5 ==> #[trigger] dst[k] == old(dst)[k],
        decreases quadrant - i,
    {
        let conic = Conic::new(
            quadrant_points[i * 2],
            quadrant_points[i * 2 + 1],
            quadrant_points[i * 2 + 2],
            weight,
        );
        assert(conic.points =~= quarter_circle(i as int).points);
        dst[i] = conic;
        i += 1;
    }
}

/// The conic with every control point mapped by `ts`, and the weight it had.
pub open spec fn is_mapped_conic<A: TransformArithmetic>(
    ts: Transform,
    arith: &A,
    before: Conic,
    after: Conic,
) -> bool {
    &&& ts.is_mapped(arith, before.points[0], after.points[0])
    &&& ts.is_mapped(arith, before.points[1], after.points[1])
    &&& ts.is_mapped(arith, before.points[2], after.points[2])
    &&& after.weight == before.weight
}

/// The first `count` conics of `after` are those of `before`, each mapped
/// by `ts`.
pub open spec fn conics_mapped<A: TransformArithmetic>(
    ts: Transform,
    arith: &A,
    before: [Conic; 5],
    after: [Conic; 5],
    count: int,
) -> bool {
    forall|i: int| 0 <= i < count ==> is_mapped_conic(ts, arith, before[i], #[trigger] after[i])
}

/// `y` as it is once a counter-clockwise arc has been mirrored into a
/// clockwise one.
pub open spec fn mirrored(y: Scalar, dir: PathDirection) -> Scalar {
    if dir == PathDirection::CCW {
        y.negated()
    } else {
        y
    }
}

/// `ts` is the transform that carries an arc built from `(1, 0)` to where it
/// belongs: the rotation that turns `(1, 0)` into `u_start`, applied after
/// a mirroring in the horizontal axis where the arc runs counter-clockwise,
/// and before `user_transform`.
pub open spec fn is_arc_transform<A: TransformArithmetic>(
    arith: &A,
    u_start: Point,
    dir: PathDirection,
    user_transform: Transform,
    ts: Transform,
) -> bool {
    let rotation = Transform {
        sx: u_start.x,
        ky: u_start.y,
        kx: u_start.y.negated(),
        sy: u_start.x,
        ..Transform::identity_value()
    };
    exists|turned: Transform|
        {
            &&& dir == PathDirection::CCW ==> rotation.is_concat(
                Transform::scale_value(Scalar { bits: ONE_BITS }, Scalar { bits: MINUS_ONE_BITS }),
                arith,
                turned,
            )
            &&& dir != PathDirection::CCW ==> turned == rotation
            &&& #[trigger] user_transform.is_concat(turned, arith, ts)
        }
}

/// The number of conics in an arc of `whole` quarters and, where `last` is
/// one, the conic for what the quarters leave.
pub open spec fn arc_count(whole: int, last: Option<Conic>) -> int {
    if last is Some {
        whole + 1
    } else {
        whole
    }
}

/// The conics of an arc before they are carried to where the arc belongs:
/// the first `whole` quarters of the unit circle, then `last` if there is
/// one, then what `before` holds.
pub open spec fn arc_conics(before: [Conic; 5], whole: int, last: Option<Conic>, built: [Conic; 5]) -> bool {
    &&& forall|i: int| 0 <= i < whole ==> #[trigger] built[i] == quarter_circle(i)
    &&& last matches Some(conic) ==> built[whole] == conic
    &&& forall|i: int|
        arc_count(whole, last) <= i < 5 ==> #[trigger] built[i] == before[i]
}

/// The vector itself where it has a direction, else zero.
pub open spec fn direction_or_zero(vector: Point) -> Point {
    if vector.normalizable() {
        vector
    } else {
        Point { x: Scalar { bits: 0 }, y: Scalar { bits: 0 } }
    }
}

/// `last` is the conic for what the whole quarters of an arc leave, from
/// `from` on the unit circle to `to`: none where the two coincide, as a dot
/// product that is not below one tells, nor where the control point all but
/// coincides with `from`.
pub open spec fn is_arc_remainder<A: CurveArithmetic>(
    arith: &A,
    from: Point,
    to: Point,
    last: Option<Conic>,
) -> bool {
    exists|dot: Scalar, cross: Scalar|
        {
            &&& #[trigger] call_ensures(A::arc_products, (arith, from, to), (dot, cross))
            &&& if dot.less(Scalar { bits: ONE_BITS }) {
                exists|scaled: Point, weight: Scalar, apart: Point|
                    {
                        &&& #[trigger] call_ensures(
                            A::arc_control,
                            (arith, from, to, dot),
                            (scaled, weight),
                        )
                        &&& #[trigger] call_ensures(
                            A::difference,
                            (arith, from, direction_or_zero(scaled)),
                            apart,
                        )
                        &&& last == if apart.normalizable() {
                            Some(Conic { points: [from, direction_or_zero(scaled), to], weight })
                        } else {
                            None
                        }
                    }
            } else {
                last is None
            }
        }
}

/// `after` and `r` are what building the arc from `u_start` to `u_stop`
/// leaves of `before` and returns, `x` and `y` being the dot and the cross
/// product of the two vectors.
///
/// An empty arc leaves everything as it is. Any other arc is made of the
/// whole quarters of the circle that it runs through and of the conic for
/// what is left, if anything is; each is carried to where the arc belongs;
/// and their number is returned, if it is not zero.
pub open spec fn is_unit_arc<A: CurveArithmetic + TransformArithmetic>(
    arith: &A,
    u_start: Point,
    dir: PathDirection,
    user_transform: Transform,
    before: [Conic; 5],
    after: [Conic; 5],
    r: Option<usize>,
    x: Scalar,
    y: Scalar,
) -> bool {
    let whole = quadrant_of(x, mirrored(y, dir)) as int;
    if arc_is_empty(x, y, dir) {
        r is None && after == before
    } else {
        exists|last: Option<Conic>, built: [Conic; 5], ts: Transform|
            {
                &&& is_arc_remainder(
                    arith,
                    octant_point(2 * whole),
                    Point { x, y: mirrored(y, dir) },
                    last,
                )
                &&& arc_conics(before, whole, last, built)
                &&& is_arc_transform(arith, u_start, dir, user_transform, ts)
                &&& #[trigger] conics_mapped(
                    ts,
                    arith,
                    built,
                    after,
                    arc_count(whole, last),
                )
                &&& forall|i: int|
                    arc_count(whole, last) <= i < 5 ==> #[trigger] after[i] == before[i]
                &&& r == if whole == 0 && last is None {
                    None
                } else {
                    Some(arc_count(whole, last) as usize)
                }
            }
    }
}

impl Conic {
    /// Builds the arc of the unit circle from the unit vector `u_start` to
    /// the unit vector `u_stop`, in the direction `dir`, out of conics: one
    /// for every whole quarter of a turn, and one for what is left. The
    /// conics are written to the front of `dst`, each mapped by the rotation
    /// that turns `(1, 0)` into `u_start`, mirrored for a counter-clockwise
    /// arc, and then by `user_transform`. Their number, from one to four, is
    /// returned; `None` where the arc is empty.
    pub fn build_unit_arc<A: CurveArithmetic + TransformArithmetic>(
        u_start: Point,
        u_stop: Point,
        dir: PathDirection,
        user_transform: Transform,
        dst: &mut [Conic; 5],
        arith: &A,
    ) -> (r: Option<usize>)
        ensures
            r matches Some(count) ==> 1 <= count <= 4,
            exists|x: Scalar, y: Scalar|
                {
                    &&& call_ensures(A::arc_products, (arith, u_start, u_stop), (x, y))
                    &&& is_unit_arc(
                        arith,
                        u_start,
                        dir,
                        user_transform,
                        *old(dst),
                        *final(dst),
                        r,
                        x,
                        y,
                    )
                },
    {
        // Seen from the start vector, the stop vector is (x, y).
        let (x, y0) = arith.arc_products(u_start, u_stop);

        // An arc between vectors that all but coincide is empty; any other
        // ends in one of the four quarters of the circle.
        let (quadrant, y) = match unit_arc_quadrant(x, y0, dir) {
            Some(found) => found,
            None => {
                assert(is_unit_arc(arith, u_start, dir, user_transform, *old(dst), *dst, None, x, y0));
                return None;
            },
        };

        // One conic for each quarter that the arc runs through in full.
        fill_quadrant_conics(quadrant, dst);
        let mut conic_count = quadrant;

        // One more for what is left, which is less than a quarter.
        let last_q = unit_axis_point(quadrant);
        let final_pt = Point::from_xy(x, y);
        let products = arith.arc_products(last_q, final_pt);
        let dot = products.0;
        assert(call_ensures(A::arc_products, (arith, last_q, final_pt), (dot, products.1)));
        let mut last: Option<Conic> = None;
        if dot.lt(&Scalar::one()) {
            let (scaled, weight) = arith.arc_control(last_q, final_pt, dot);
            // A vector that could not be scaled to the length counts as zero.
            let off_curve = if scaled.can_normalize() {
                scaled
            } else {
                Point::zero()
            };
            assert(off_curve == direction_or_zero(scaled));
            let apart = arith.difference(last_q, off_curve);
            if apart.can_normalize() {
                let conic = Conic::new(last_q, off_curve, final_pt, weight);
                assert(conic.points =~= [last_q, off_curve, final_pt]);
                last = Some(conic);
            }
        }
        assert(is_arc_remainder(arith, last_q, final_pt, last));
        match last {
            Some(conic) => {
                dst[conic_count] = conic;
                conic_count += 1;
            },
            None => {},
        }
        let ghost built = *dst;
        assert(arc_conics(*old(dst), quadrant as int, last, built));

        // The arc was built clockwise from (1, 0): mirror and rotate it to
        // where it belongs.
        let mut transform = Transform::from_sin_cos(u_start.y, u_start.x);
        if dir == PathDirection::CCW {
            transform =
            transform.pre_scale(Scalar::one(), Scalar::from_bits(MINUS_ONE_BITS), arith);
        }
        let ghost turned = transform;
        transform = transform.post_concat(user_transform, arith);
        assert(user_transform.is_concat(turned, arith, transform));
        assert(is_arc_transform(arith, u_start, dir, user_transform, transform));

        let mut i: usize = 0;
        while i < conic_count
            invariant
                i <= conic_count <= 4,
                forall|k: int|
                    0 <= k < i ==> is_mapped_conic(transform, arith, built[k], #[trigger] dst[k]),
                forall|k: int| i <= k < 5 ==> #[trigger] dst[k] == built[k],
            decreases conic_count - i,
        {
            let mut conic = dst[i];
            let mut p0 = conic.points[0];
            let mut p1 = conic.points[1];
            let mut p2 = conic.points[2];
            transform.map_point(&mut p0, arith);
            transform.map_point(&mut p1, arith);
            transform.map_point(&mut p2, arith);
            conic.points = [p0, p1, p2];
            dst[i] = conic;
            i += 1;
        }
        assert(conics_mapped(transform, arith, built, *dst, conic_count as int));

        let r = if conic_count == 0 {
            None
        } else {
            Some(conic_count)
        };
        proof {
            let whole = quadrant as int;
            assert(!arc_is_empty(x, y0, dir));
            assert(whole == quadrant_of(x, mirrored(y0, dir)));
            assert(is_arc_remainder(
                arith,
                octant_point(2 * whole),
                Point { x, y: mirrored(y0, dir) },
                last,
            ));
            assert(arc_count(whole, last) == conic_count);
            assert(forall|k: int| conic_count <= k < 5 ==> #[trigger] dst[k] == old(dst)[k]);
            assert(r == if whole == 0 && last is None {
                None
            } else {
                Some(arc_count(whole, last) as usize)
            });
        }
        assert(is_unit_arc(arith, u_start, dir, user_transform, *old(dst), *dst, r, x, y0));
        r
    }
}

} // verus!
