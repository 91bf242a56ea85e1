//! The kernel of a 2D vector-graphics path engine: the analysis and
//! subdivision of Bezier curves, affine transforms, the approximation of
//! conics by quadratics, arcs of the unit circle, the table of blend modes,
//! and rectangle fills.
//!
//! Every number here is an IEEE-754 single-precision value, held as its bit
//! pattern ([`scalar`]). The kernel compares, negates, selects, orders and
//! dispatches such values, and proves what each of its functions returns. It
//! never rounds: where a function needs a sum, a product, a quotient or a
//! root, it asks its caller for it, through the traits of [`arithmetic`],
//! and its contract says what it makes of whatever comes back.
//!
//! What the bit patterns mean as numbers is the matter of [`value`], and
//! what the kernel's constructions give where the arithmetic rounds nothing
//! that of [`exact`].

pub mod arc;
pub mod arithmetic;
pub mod blend_mode;
pub mod conic;
pub mod exact;
pub mod f32x2_t;
pub mod geom;
pub mod normalized;
pub mod path_geometry;
pub mod point;
pub mod scalar;
pub mod scan;
pub mod transform;
pub mod value;
