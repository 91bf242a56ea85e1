//! Affine transforms: their coefficients, what kind of map they are, and
//! mapping, composing and inverting them, each by the cheapest path that its
//! kind allows.

use vstd::prelude::*;
use vstd::std_specs::cmp::PartialEqSpecImpl;
use crate::arithmetic::ScaleTranslate;
use crate::arithmetic::TransformArithmetic;
use crate::geom::NonZeroRect;
use crate::point::Point;
use crate::scalar::Scalar;
use crate::scalar::EPSILON_BITS;
use crate::scalar::NEARLY_ZERO_CUBED_BITS;
use crate::scalar::ONE_BITS;

verus! {

/// An affine transformation matrix,
///
/// ```text
/// | sx kx tx |
/// | ky sy ty |
/// |  0  0  1 |
/// ```
///
/// Nothing is asked of the coefficients: a matrix of zeros is a value of the
/// type, and so is one with a coefficient that is not finite.
#[derive(Copy, Clone, Debug)]
pub struct Transform {
    pub sx: Scalar,
    pub kx: Scalar,
    pub ky: Scalar,
    pub sy: Scalar,
    pub tx: Scalar,
    pub ty: Scalar,
}

/// The path that mapping a point through a transform takes.
#[derive(Copy, Clone, PartialEq, Eq, Structural, Debug)]
pub enum MapPath {
    /// The point stays.
    Identity,
    /// The translation is added.
    Translate,
    /// Each coordinate is scaled, then the translation is added.
    ScaleTranslate,
    /// The full matrix is applied.
    General,
}

/// The path that composing two transforms takes.
#[derive(Copy, Clone, PartialEq, Eq, Structural, Debug)]
pub enum ConcatPath {
    /// The first is the identity: the second is the result.
    TakeSecond,
    /// The second is the identity: the first is the result.
    TakeFirst,
    /// Neither skews: scales multiply, and the second's translation is scaled
    /// by the first before the first's is added.
    ScaleTranslate,
    /// The full product.
    General,
}

/// The path that inverting a transform takes.
#[derive(Copy, Clone, Debug)]
pub enum InvertPath {
    /// The inverse is known without a division: it is the value held.
    Done(Transform),
    /// The transform scales and may translate: each scale is inverted, if
    /// the determinant allows it.
    Scale,
    /// The transform skews: the determinant is inverted, if it allows it.
    General,
}

impl Transform {
    /// The identity.
    pub open spec fn identity_value() -> Transform {
        Transform {
            sx: Scalar { bits: ONE_BITS },
            kx: Scalar { bits: 0 },
            ky: Scalar { bits: 0 },
            sy: Scalar { bits: ONE_BITS },
            tx: Scalar { bits: 0 },
            ty: Scalar { bits: 0 },
        }
    }

    /// Coefficient by coefficient, the two transforms are equal numbers.
    pub open spec fn same(self, other: Transform) -> bool {
        &&& self.sx.same(other.sx)
        &&& self.kx.same(other.kx)
        &&& self.ky.same(other.ky)
        &&& self.sy.same(other.sy)
        &&& self.tx.same(other.tx)
        &&& self.ty.same(other.ty)
    }

    /// Every coefficient is finite.
    pub open spec fn finite(self) -> bool {
        &&& self.sx.finite()
        &&& self.ky.finite()
        &&& self.kx.finite()
        &&& self.sy.finite()
        &&& self.tx.finite()
        &&& self.ty.finite()
    }

    /// The transform is the identity.
    pub open spec fn identical(self) -> bool {
        self.same(Transform::identity_value())
    }

    /// A scale differs from one.
    pub open spec fn scales(self) -> bool {
        !self.sx.same(Scalar { bits: ONE_BITS }) || !self.sy.same(Scalar { bits: ONE_BITS })
    }

    /// A skew differs from zero.
    pub open spec fn skews(self) -> bool {
        !self.kx.same(Scalar { bits: 0 }) || !self.ky.same(Scalar { bits: 0 })
    }

    /// A translation differs from zero.
    pub open spec fn translates(self) -> bool {
        !self.tx.same(Scalar { bits: 0 }) || !self.ty.same(Scalar { bits: 0 })
    }

    /// The cheapest path that maps a point as the full matrix would.
    pub open spec fn map_path_of(self) -> MapPath {
        if self.skews() {
            MapPath::General
        } else if self.scales() {
            MapPath::ScaleTranslate
        } else if self.translates() {
            MapPath::Translate
        } else {
            MapPath::Identity
        }
    }

    /// The cheapest path that composes `self` with `other`.
    pub open spec fn concat_path_of(self, other: Transform) -> ConcatPath {
        if self.identical() {
            ConcatPath::TakeSecond
        } else if other.identical() {
            ConcatPath::TakeFirst
        } else if !self.skews() && !other.skews() {
            ConcatPath::ScaleTranslate
        } else {
            ConcatPath::General
        }
    }

    /// The translation by the opposite of this transform's.
    pub open spec fn opposite_translation(self) -> Transform {
        Transform {
            sx: Scalar { bits: ONE_BITS },
            kx: Scalar { bits: 0 },
            ky: Scalar { bits: 0 },
            sy: Scalar { bits: ONE_BITS },
            tx: self.tx.negated(),
            ty: self.ty.negated(),
        }
    }

    /// The path that inverts the transform: the identity is its own
    /// inverse, a translation is undone by the opposite one, and every
    /// other transform needs a division.
    pub open spec fn invert_path_of(self) -> InvertPath {
        if self.identical() {
            InvertPath::Done(self)
        } else if self.skews() {
            InvertPath::General
        } else if self.scales() {
            InvertPath::Scale
        } else {
            InvertPath::Done(self.opposite_translation())
        }
    }

    /// Creates an identity transform.
    pub fn identity() -> (r: Transform)
        ensures
            r == Transform::identity_value(),
    {
        Transform {
            sx: Scalar::one(),
            kx: Scalar::zero(),
            ky: Scalar::zero(),
            sy: Scalar::one(),
            tx: Scalar::zero(),
            ty: Scalar::zero(),
        }
    }

    /// Creates a transform from its coefficients, column by column: the
    /// second argument is `ky`, the third `kx`.
    pub fn from_row(sx: Scalar, ky: Scalar, kx: Scalar, sy: Scalar, tx: Scalar, ty: Scalar) -> (r:
        Transform)
        ensures
            r == (Transform { sx, kx, ky, sy, tx, ty }),
    {
        Transform { sx, ky, kx, sy, tx, ty }
    }

    /// Creates a translating transform.
    pub fn from_translate(tx: Scalar, ty: Scalar) -> (r: Transform)
        ensures
            r == (Transform { tx, ty, ..Transform::identity_value() }),
    {
        Transform::from_row(
            Scalar::one(),
            Scalar::zero(),
            Scalar::zero(),
            Scalar::one(),
            tx,
            ty,
        )
    }

    /// Creates a scaling transform.
    pub fn from_scale(sx: Scalar, sy: Scalar) -> (r: Transform)
        ensures
            r == (Transform { sx, sy, ..Transform::identity_value() }),
    {
        Transform::from_row(sx, Scalar::zero(), Scalar::zero(), sy, Scalar::zero(), Scalar::zero())
    }

    /// Creates a skewing transform.
    pub fn from_skew(kx: Scalar, ky: Scalar) -> (r: Transform)
        ensures
            r == (Transform { kx, ky, ..Transform::identity_value() }),
    {
        Transform::from_row(Scalar::one(), ky, kx, Scalar::one(), Scalar::zero(), Scalar::zero())
    }

    /// Creates the rotation by the angle with this sine and cosine.
    pub fn from_sin_cos(sin: Scalar, cos: Scalar) -> (r: Transform)
        ensures
            r == Transform::rotation_value(sin, cos),
    {
        Transform::from_row(cos, sin, sin.neg(), cos, Scalar::zero(), Scalar::zero())
    }

    /// Converts a bounding box into the transform that maps the unit square
    /// onto it: the scales are its width and its height, the translation its
    /// corner.
    pub fn from_bbox(bbox: NonZeroRect) -> (r: Transform)
        ensures
            r == (Transform {
                sx: bbox@.width,
                sy: bbox@.height,
                tx: bbox@.x,
                ty: bbox@.y,
                ..Transform::identity_value()
            }),
            r.finite(),
            !r.skews(),
    {
        proof {
            use_type_invariant(bbox);
        }
        Transform::from_row(
            bbox.width(),
            Scalar::zero(),
            Scalar::zero(),
            bbox.height(),
            bbox.x(),
            bbox.y(),
        )
    }

    /// Checks that transform is finite.
    pub fn is_finite(&self) -> (r: bool)
        ensures
            r == self.finite(),
    {
        self.sx.is_finite() && self.ky.is_finite() && self.kx.is_finite() && self.sy.is_finite()
            && self.tx.is_finite() && self.ty.is_finite()
    }

    /// Checks that transform is identity.
    pub fn is_identity(&self) -> (r: bool)
        ensures
            r == self.identical(),
    {
        *self == Transform::identity()
    }

    /// Checks that transform is scale-only.
    pub fn is_scale(&self) -> (r: bool)
        ensures
            r == (self.scales() && !self.skews() && !self.translates()),
    {
        self.has_scale() && !self.has_skew() && !self.has_translate()
    }

    /// Checks that transform is skew-only.
    pub fn is_skew(&self) -> (r: bool)
        ensures
            r == (!self.scales() && self.skews() && !self.translates()),
    {
        !self.has_scale() && self.has_skew() && !self.has_translate()
    }

    /// Checks that transform is translate-only.
    pub fn is_translate(&self) -> (r: bool)
        ensures
            r == (!self.scales() && !self.skews() && self.translates()),
    {
        !self.has_scale() && !self.has_skew() && self.has_translate()
    }

    /// Checks that transform contains only scale and translate.
    pub fn is_scale_translate(&self) -> (r: bool)
        ensures
            r == ((self.scales() || self.translates()) && !self.skews()),
    {
        (self.has_scale() || self.has_translate()) && !self.has_skew()
    }

    /// Checks that transform contains a scale part.
    pub fn has_scale(&self) -> (r: bool)
        ensures
            r == self.scales(),
    {
        self.sx != Scalar::one() || self.sy != Scalar::one()
    }

    /// Checks that transform contains a skew part.
    pub fn has_skew(&self) -> (r: bool)
        ensures
            r == self.skews(),
    {
        self.kx != Scalar::zero() || self.ky != Scalar::zero()
    }

    /// Checks that transform contains a translate part.
    pub fn has_translate(&self) -> (r: bool)
        ensures
            r == self.translates(),
    {
        self.tx != Scalar::zero() || self.ty != Scalar::zero()
    }

    /// The path by which a point is mapped: the cheapest that gives what
    /// the full matrix would.
    pub fn map_path(&self) -> (r: MapPath)
        ensures
            r == self.map_path_of(),
    {
        if self.is_identity() {
            MapPath::Identity
        } else if self.is_translate() {
            MapPath::Translate
        } else if self.is_scale_translate() {
            MapPath::ScaleTranslate
        } else {
            MapPath::General
        }
    }

    /// The path by which `self` is composed with `other`, `other` being the
    /// one applied first.
    pub fn concat_path(&self, other: &Transform) -> (r: ConcatPath)
        ensures
            r == self.concat_path_of(*other),
    {
        if self.is_identity() {
            ConcatPath::TakeSecond
        } else if other.is_identity() {
            ConcatPath::TakeFirst
        } else if !self.has_skew() && !other.has_skew() {
            ConcatPath::ScaleTranslate
        } else {
            ConcatPath::General
        }
    }

    /// The path by which the transform is inverted. Where no division is
    /// needed, the inverse itself is returned.
    pub fn invert_path(&self) -> (r: InvertPath)
        ensures
            r == self.invert_path_of(),
    {
        if self.is_identity() {
            return InvertPath::Done(*self);
        }
        if self.is_scale_translate() {
            if self.has_scale() {
                InvertPath::Scale
            } else {
                InvertPath::Done(Transform::from_translate(self.tx.neg(), self.ty.neg()))
            }
        } else {
            InvertPath::General
        }
    }

    /// The transform, if every coefficient of it is finite: what an inverse
    /// that was computed has to pass before it is handed out.
    pub fn finite_or_none(self) -> (r: Option<Transform>)
        ensures
            r == if self.finite() {
                Some(self)
            } else {
                None
            },
    {
        if self.is_finite() {
            Some(self)
        } else {
            None
        }
    }
}

/// Whether a determinant is too close to zero to be inverted: its absolute
/// value is at most the cube of the nearly-zero tolerance. The determinant
/// grows with the cube of the coefficients, hence the cube.
pub fn determinant_is_degenerate(det: Scalar) -> (r: bool)
    ensures
        r == det.absolute().at_most(Scalar { bits: NEARLY_ZERO_CUBED_BITS }),
{
    det.is_nearly_zero_within_tolerance(Scalar::from_bits(NEARLY_ZERO_CUBED_BITS))
}

impl Default for Transform {
    fn default() -> (r: Transform)
        ensures
            r == Transform::identity_value(),
    {
        Transform::identity()
    }
}

impl PartialEq for Transform {
    fn eq(&self, other: &Transform) -> (r: bool) {
        self.sx == other.sx && self.kx == other.kx && self.ky == other.ky && self.sy == other.sy
            && self.tx == other.tx && self.ty == other.ty
    }
}

impl PartialEqSpecImpl for Transform {
    open spec fn obeys_eq_spec() -> bool {
        true
    }

    open spec fn eq_spec(&self, other: &Transform) -> bool {
        self.same(*other)
    }
}

/// A transform is the identity exactly where it neither scales, skews nor
/// translates.
pub proof fn lemma_identity_has_no_part(ts: Transform)
    ensures
        ts.identical() <==> !ts.scales() && !ts.skews() && !ts.translates(),
{
}

/// Every transform takes exactly one path when a point is mapped: the
/// identity path where it is the identity, the translating one where it
/// only translates, the scaling one where it scales and does not skew, and
/// the general one where it skews.
pub proof fn lemma_map_path_partitions(ts: Transform)
    ensures
        ts.map_path_of() == MapPath::Identity <==> ts.identical(),
        ts.map_path_of() == MapPath::Translate <==> !ts.scales() && !ts.skews() && ts.translates(),
        ts.map_path_of() == MapPath::ScaleTranslate <==> ts.scales() && !ts.skews(),
        ts.map_path_of() == MapPath::General <==> ts.skews(),
{
}

/// A cheaper path is taken only where the coefficients it passes over are
/// those of the identity: the skews are zero off the general path, the
/// scales are one on the translating path.
pub proof fn lemma_map_path_skips_only_identity_parts(ts: Transform)
    ensures
        ts.map_path_of() != MapPath::General ==> ts.kx.same(Scalar { bits: 0 }) && ts.ky.same(
            Scalar { bits: 0 },
        ),
        ts.map_path_of() == MapPath::Translate || ts.map_path_of() == MapPath::Identity
            ==> ts.sx.same(Scalar { bits: ONE_BITS }) && ts.sy.same(Scalar { bits: ONE_BITS }),
        ts.map_path_of() == MapPath::Identity ==> ts.tx.same(Scalar { bits: 0 }) && ts.ty.same(
            Scalar { bits: 0 },
        ),
{
}

/// A translation is inverted without a division, into a translation again,
/// and inverting that one gives the first translation back.
pub proof fn lemma_opposite_translation_twice(ts: Transform)
    requires
        !ts.identical(),
        !ts.scales(),
        !ts.skews(),
    ensures
        ts.invert_path_of() == InvertPath::Done(ts.opposite_translation()),
        !ts.opposite_translation().scales(),
        !ts.opposite_translation().skews(),
        ts.opposite_translation().translates(),
        ts.opposite_translation().opposite_translation() == (Transform {
            tx: ts.tx,
            ty: ts.ty,
            ..Transform::identity_value()
        }),
{
}

impl Transform {
    /// The transform that scales by these factors.
    pub open spec fn scale_value(sx: Scalar, sy: Scalar) -> Transform {
        Transform { sx, sy, ..Transform::identity_value() }
    }

    /// The transform that translates by this vector.
    pub open spec fn translate_value(tx: Scalar, ty: Scalar) -> Transform {
        Transform { tx, ty, ..Transform::identity_value() }
    }

    /// The rotation by the angle with this sine and cosine: both scales are
    /// the cosine, the skews the sine and its opposite, and nothing is
    /// translated.
    pub open spec fn rotation_value(sin: Scalar, cos: Scalar) -> Transform {
        Transform { sx: cos, ky: sin, kx: sin.negated(), sy: cos, ..Transform::identity_value() }
    }

    /// The transform with these scales and this translation, and no skew.
    pub open spec fn scale_translate_value(parts: ScaleTranslate) -> Transform {
        Transform {
            sx: parts.sx,
            sy: parts.sy,
            tx: parts.tx,
            ty: parts.ty,
            ..Transform::identity_value()
        }
    }

    /// `r` is the rotation by `angle` degrees: the rotation by the angle
    /// with the sine and the cosine that the arithmetic finds.
    pub open spec fn is_rotation<A: TransformArithmetic>(arith: &A, angle: Scalar, r: Transform) -> bool {
        exists|sin: Scalar, cos: Scalar|
            {
                &&& #[trigger] call_ensures(A::sin_cos, (arith, angle), (sin, cos))
                &&& r == Transform::rotation_value(sin, cos)
            }
    }

    /// `r` is `self` composed with `other`, `other` being the one applied
    /// first. The identity on either side leaves the other side as it is.
    /// Where neither skews, the scales and the translation are the
    /// arithmetic's, and the product does not skew. Everything else is a
    /// product that the arithmetic made.
    pub open spec fn is_concat<A: TransformArithmetic>(
        self,
        other: Transform,
        arith: &A,
        r: Transform,
    ) -> bool {
        match self.concat_path_of(other) {
            ConcatPath::TakeSecond => r == other,
            ConcatPath::TakeFirst => r == self,
            ConcatPath::ScaleTranslate => exists|parts: ScaleTranslate|
                {
                    &&& #[trigger] call_ensures(
                        A::concat_scale_translate,
                        (arith, self, other),
                        parts,
                    )
                    &&& r == Transform::scale_translate_value(parts)
                },
            ConcatPath::General => call_ensures(A::concat_general, (arith, self, other), r),
        }
    }

    /// `after` is `before` mapped by the transform. The identity leaves the
    /// point as it is, bit for bit; every other transform maps it by the
    /// cheapest path that gives what the full matrix would.
    pub open spec fn is_mapped<A: TransformArithmetic>(
        self,
        arith: &A,
        before: Point,
        after: Point,
    ) -> bool {
        match self.map_path_of() {
            MapPath::Identity => after == before,
            MapPath::Translate => call_ensures(A::map_translate, (arith, self, before), after),
            MapPath::ScaleTranslate => call_ensures(
                A::map_scale_translate,
                (arith, self, before),
                after,
            ),
            MapPath::General => call_ensures(A::map_general, (arith, self, before), after),
        }
    }

    /// `inverse` is what the arithmetic makes of inverting the transform:
    /// by the full matrix where it skews; where not, by its scales alone,
    /// and then the inverse does not skew either.
    pub open spec fn is_computed_inverse<A: TransformArithmetic>(self, arith: &A, inverse: Transform) -> bool {
        if self.skews() {
            call_ensures(A::invert_general, (arith, self), inverse)
        } else {
            exists|parts: ScaleTranslate|
                {
                    &&& #[trigger] call_ensures(A::invert_scale_translate, (arith, self), parts)
                    &&& inverse == Transform::scale_translate_value(parts)
                }
        }
    }

    /// `r` is what inverting the transform gives. The identity and the
    /// translations are inverted without arithmetic. Any other transform has
    /// no inverse where its determinant is within the cube of the nearly-zero
    /// tolerance of zero; else its inverse is what the arithmetic makes of
    /// it. Whatever the path, an inverse that is not finite is none.
    pub open spec fn is_inverse<A: TransformArithmetic>(self, arith: &A, r: Option<Transform>) -> bool {
        match self.invert_path_of() {
            InvertPath::Done(inverse) => r == if inverse.finite() {
                Some(inverse)
            } else {
                None
            },
            _ => exists|det: Scalar|
                {
                    &&& call_ensures(A::determinant, (arith, self), det)
                    &&& if det.absolute().at_most(Scalar { bits: NEARLY_ZERO_CUBED_BITS }) {
                        r is None
                    } else {
                        exists|inverse: Transform|
                            {
                                &&& self.is_computed_inverse(arith, inverse)
                                &&& r == if inverse.finite() {
                                    Some(inverse)
                                } else {
                                    None
                                }
                            }
                    }
                },
        }
    }

    /// `r` is the rotation by `angle` degrees about the point `(tx, ty)`:
    /// the translation to the point, the rotation, and the translation back,
    /// composed in this order.
    pub open spec fn is_rotation_at<A: TransformArithmetic>(
        arith: &A,
        angle: Scalar,
        tx: Scalar,
        ty: Scalar,
        r: Transform,
    ) -> bool {
        exists|there: Transform, rotation: Transform, turned: Transform|
            {
                &&& #[trigger] Transform::identity_value().is_concat(
                    Transform::translate_value(tx, ty),
                    arith,
                    there,
                )
                &&& #[trigger] Transform::is_rotation(arith, angle, rotation)
                &&& #[trigger] there.is_concat(rotation, arith, turned)
                &&& turned.is_concat(
                    Transform::translate_value(tx.negated(), ty.negated()),
                    arith,
                    r,
                )
            }
    }

    /// Creates a new rotating `Transform`. `angle` in degrees.
    ///
    /// The sine and the cosine are the arithmetic's. Whatever they are, the
    /// two scales are equal, one skew is the opposite of the other, and
    /// nothing is translated.
    pub fn from_rotate<A: TransformArithmetic>(angle: Scalar, arith: &A) -> (r: Transform)
        ensures
            Transform::is_rotation(arith, angle, r),
            r.sy == r.sx,
            r.kx == r.ky.negated(),
            r.tx.bits == 0,
            r.ty.bits == 0,
    {
        let (sin, cos) = arith.sin_cos(angle);
        Transform::from_sin_cos(sin, cos)
    }

    /// Creates a new rotating `Transform` at the specified position: the
    /// translation to the position, the rotation, and the translation back,
    /// composed in this order.
    pub fn from_rotate_at<A: TransformArithmetic>(angle: Scalar, tx: Scalar, ty: Scalar, arith: &A) -> (r:
        Transform)
        ensures
            Transform::is_rotation_at(arith, angle, tx, ty, r),
    {
        let there = Transform::identity().pre_translate(tx, ty, arith);
        let rotation = Transform::from_rotate(angle, arith);
        let turned = there.pre_concat(rotation, arith);
        let r = turned.pre_translate(tx.neg(), ty.neg(), arith);
        proof {
            assert(Transform::identity_value().is_concat(
                Transform::translate_value(tx, ty),
                arith,
                there,
            ));
            assert(there.is_concat(rotation, arith, turned));
        }
        r
    }

    /// Checks that transform is finite and has non-zero scale: neither
    /// column of its matrix has a length within the machine epsilon of zero.
    pub fn is_valid<A: TransformArithmetic>(&self, arith: &A) -> (r: bool)
        ensures
            !self.finite() ==> !r,
            self.finite() ==> exists|x_scale: Scalar, y_scale: Scalar|
                {
                    &&& call_ensures(A::scale_magnitudes, (arith, *self), (x_scale, y_scale))
                    &&& r == !(x_scale.absolute().at_most(Scalar { bits: EPSILON_BITS })
                        || y_scale.absolute().at_most(Scalar { bits: EPSILON_BITS }))
                },
    {
        if self.is_finite() {
            let (sx, sy) = self.get_scale(arith);
            let epsilon = Scalar::from_bits(EPSILON_BITS);
            !(sx.is_nearly_zero_within_tolerance(epsilon) || sy.is_nearly_zero_within_tolerance(
                epsilon,
            ))
        } else {
            false
        }
    }

    /// Returns transform's scale part: the lengths of the two columns of
    /// its matrix.
    pub fn get_scale<A: TransformArithmetic>(&self, arith: &A) -> (r: (Scalar, Scalar))
        ensures
            call_ensures(A::scale_magnitudes, (arith, *self), r),
    {
        arith.scale_magnitudes(*self)
    }

    /// Pre-scales the current transform.
    pub fn pre_scale<A: TransformArithmetic>(&self, sx: Scalar, sy: Scalar, arith: &A) -> (r:
        Transform)
        ensures
            self.is_concat(Transform::scale_value(sx, sy), arith, r),
    {
        self.pre_concat(Transform::from_scale(sx, sy), arith)
    }

    /// Post-scales the current transform.
    pub fn post_scale<A: TransformArithmetic>(&self, sx: Scalar, sy: Scalar, arith: &A) -> (r:
        Transform)
        ensures
            Transform::scale_value(sx, sy).is_concat(*self, arith, r),
    {
        self.post_concat(Transform::from_scale(sx, sy), arith)
    }

    /// Pre-translates the current transform.
    pub fn pre_translate<A: TransformArithmetic>(&self, tx: Scalar, ty: Scalar, arith: &A) -> (r:
        Transform)
        ensures
            self.is_concat(Transform::translate_value(tx, ty), arith, r),
    {
        self.pre_concat(Transform::from_translate(tx, ty), arith)
    }

    /// Post-translates the current transform.
    pub fn post_translate<A: TransformArithmetic>(&self, tx: Scalar, ty: Scalar, arith: &A) -> (r:
        Transform)
        ensures
            Transform::translate_value(tx, ty).is_concat(*self, arith, r),
    {
        self.post_concat(Transform::from_translate(tx, ty), arith)
    }

    /// Pre-rotates the current transform. `angle` in degrees.
    pub fn pre_rotate<A: TransformArithmetic>(&self, angle: Scalar, arith: &A) -> (r: Transform)
        ensures
            exists|rotation: Transform|
                {
                    &&& #[trigger] Transform::is_rotation(arith, angle, rotation)
                    &&& self.is_concat(rotation, arith, r)
                },
    {
        self.pre_concat(Transform::from_rotate(angle, arith), arith)
    }

    /// Post-rotates the current transform. `angle` in degrees.
    pub fn post_rotate<A: TransformArithmetic>(&self, angle: Scalar, arith: &A) -> (r: Transform)
        ensures
            exists|rotation: Transform|
                {
                    &&& #[trigger] Transform::is_rotation(arith, angle, rotation)
                    &&& rotation.is_concat(*self, arith, r)
                },
    {
        self.post_concat(Transform::from_rotate(angle, arith), arith)
    }

    /// Pre-rotates the current transform by the specified position.
    pub fn pre_rotate_at<A: TransformArithmetic>(
        &self,
        angle: Scalar,
        tx: Scalar,
        ty: Scalar,
        arith: &A,
    ) -> (r: Transform)
        ensures
            exists|rotation: Transform|
                {
                    &&& #[trigger] Transform::is_rotation_at(arith, angle, tx, ty, rotation)
                    &&& self.is_concat(rotation, arith, r)
                },
    {
        self.pre_concat(Transform::from_rotate_at(angle, tx, ty, arith), arith)
    }

    /// Post-rotates the current transform by the specified position.
    pub fn post_rotate_at<A: TransformArithmetic>(
        &self,
        angle: Scalar,
        tx: Scalar,
        ty: Scalar,
        arith: &A,
    ) -> (r: Transform)
        ensures
            exists|rotation: Transform|
                {
                    &&& #[trigger] Transform::is_rotation_at(arith, angle, tx, ty, rotation)
                    &&& rotation.is_concat(*self, arith, r)
                },
    {
        self.post_concat(Transform::from_rotate_at(angle, tx, ty, arith), arith)
    }

    /// Pre-concats the current transform: the result applies `other` first.
    pub fn pre_concat<A: TransformArithmetic>(&self, other: Transform, arith: &A) -> (r: Transform)
        ensures
            self.is_concat(other, arith, r),
    {
        concat(*self, other, arith)
    }

    /// Post-concats the current transform: the result applies `other` last.
    pub fn post_concat<A: TransformArithmetic>(&self, other: Transform, arith: &A) -> (r: Transform)
        ensures
            other.is_concat(*self, arith, r),
    {
        concat(other, *self, arith)
    }

    /// Transforms a point using the current transform.
    pub fn map_point<A: TransformArithmetic>(&self, point: &mut Point, arith: &A)
        ensures
            self.is_mapped(arith, *old(point), *final(point)),
    {
        match self.map_path() {
            MapPath::Identity => {},
            MapPath::Translate => {
                *point = arith.map_translate(*self, *point);
            },
            MapPath::ScaleTranslate => {
                *point = arith.map_scale_translate(*self, *point);
            },
            MapPath::General => {
                *point = arith.map_general(*self, *point);
            },
        }
    }

    /// Transforms a slice of points using the current transform.
    pub fn map_points<A: TransformArithmetic>(&self, points: &mut [Point], arith: &A)
        ensures
            final(points).len() == old(points).len(),
            forall|i: int|
                0 <= i < old(points).len() ==> self.is_mapped(
                    arith,
                    old(points)@[i],
                    #[trigger] final(points)@[i],
                ),
            self.identical() ==> final(points)@ == old(points)@,
    {
        let path = self.map_path();
        if matches!(path, MapPath::Identity) {
            return ;
        }
        let mut i: usize = 0;
        while i < points.len()
            invariant
                i <= points.len(),
                points.len() == old(points).len(),
                path == self.map_path_of(),
                forall|k: int| 0 <= k < i ==> self.is_mapped(arith, old(points)@[k], #[trigger] points@[k]),
                forall|k: int| i <= k < points.len() ==> #[trigger] points@[k] == old(points)@[k],
            decreases points.len() - i,
        {
            let p = points[i];
            points[i] = match path {
                MapPath::Identity => p,
                MapPath::Translate => arith.map_translate(*self, p),
                MapPath::ScaleTranslate => arith.map_scale_translate(*self, p),
                MapPath::General => arith.map_general(*self, p),
            };
            i += 1;
        }
    }

    /// Returns an inverted transform, or `None` where there is none: where
    /// the determinant is nearly zero, and where the inverse is not finite.
    pub fn invert<A: TransformArithmetic>(&self, arith: &A) -> (r: Option<Transform>)
        ensures
            self.is_inverse(arith, r),
            self.identical() ==> r == Some(*self),
            r matches Some(inverse) ==> inverse.finite(),
            r matches Some(inverse) ==> !self.skews() ==> !inverse.skews(),
    {
        match self.invert_path() {
            InvertPath::Done(inverse) => inverse.finite_or_none(),
            InvertPath::Scale => {
                let det = arith.determinant(*self);
                if determinant_is_degenerate(det) {
                    None
                } else {
                    let parts = arith.invert_scale_translate(*self);
                    let inverse = Transform::from_row(
                        parts.sx,
                        Scalar::zero(),
                        Scalar::zero(),
                        parts.sy,
                        parts.tx,
                        parts.ty,
                    );
                    assert(inverse == Transform::scale_translate_value(parts));
                    assert(self.is_computed_inverse(arith, inverse));
                    inverse.finite_or_none()
                }
            },
            InvertPath::General => {
                let det = arith.determinant(*self);
                if determinant_is_degenerate(det) {
                    None
                } else {
                    let inverse = arith.invert_general(*self);
                    assert(self.is_computed_inverse(arith, inverse));
                    inverse.finite_or_none()
                }
            },
        }
    }
}

/// Composes two transforms: the result applies `b` first, then `a`. Where
/// neither skews, the result does not skew.
pub fn concat<A: TransformArithmetic>(a: Transform, b: Transform, arith: &A) -> (r: Transform)
    ensures
        a.is_concat(b, arith, r),
        !a.skews() && !b.skews() ==> !r.skews(),
{
    match a.concat_path(&b) {
        ConcatPath::TakeSecond => b,
        ConcatPath::TakeFirst => a,
        ConcatPath::ScaleTranslate => {
            let parts = arith.concat_scale_translate(a, b);
            let r = Transform::from_row(
                parts.sx,
                Scalar::zero(),
                Scalar::zero(),
                parts.sy,
                parts.tx,
                parts.ty,
            );
            assert(r == Transform::scale_translate_value(parts));
            r
        },
        ConcatPath::General => arith.concat_general(a, b),
    }
}

/// The identity is neutral: composing it with a transform, on either side,
/// gives that transform, bit for bit, whatever the arithmetic.
pub proof fn lemma_identity_is_neutral<A: TransformArithmetic>(ts: Transform, arith: &A, r: Transform)
    ensures
        Transform::identity_value().is_concat(ts, arith, r) <==> r == ts,
        !ts.identical() ==> (ts.is_concat(Transform::identity_value(), arith, r) <==> r == ts),
{
}

} // verus!
