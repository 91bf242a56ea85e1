use path_kernel::scalar::Scalar;
use path_kernel::transform::{
    determinant_is_degenerate, ConcatPath, InvertPath, MapPath, Transform,
};

fn s(x: f32) -> Scalar {
    Scalar::from_bits(x.to_bits())
}

fn from_row(sx: f32, ky: f32, kx: f32, sy: f32, tx: f32, ty: f32) -> Transform {
    Transform::from_row(s(sx), s(ky), s(kx), s(sy), s(tx), s(ty))
}

fn from_scale(sx: f32, sy: f32) -> Transform {
    Transform::from_scale(s(sx), s(sy))
}

fn from_skew(kx: f32, ky: f32) -> Transform {
    Transform::from_skew(s(kx), s(ky))
}

fn from_translate(tx: f32, ty: f32) -> Transform {
    Transform::from_translate(s(tx), s(ty))
}

#[test]
fn transform() {
    assert_eq!(
        Transform::identity(),
        from_row(1.0, 0.0, 0.0, 1.0, 0.0, 0.0)
    );

    assert_eq!(
        from_scale(1.0, 2.0),
        from_row(1.0, 0.0, 0.0, 2.0, 0.0, 0.0)
    );

    assert_eq!(
        from_skew(2.0, 3.0),
        from_row(1.0, 3.0, 2.0, 1.0, 0.0, 0.0)
    );

    assert_eq!(
        from_translate(5.0, 6.0),
        from_row(1.0, 0.0, 0.0, 1.0, 5.0, 6.0)
    );

    let ts = Transform::identity();
    assert!( ts.is_identity());
    assert!(!ts.is_scale());
    assert!(!ts.is_skew());
    assert!(!ts.is_translate());
    assert!(!ts.is_scale_translate());
    assert!(!ts.has_scale());
    assert!(!ts.has_skew());
    assert!(!ts.has_translate());

    let ts = from_scale(2.0, 3.0);
    assert!(!ts.is_identity());
    assert!( ts.is_scale());
    assert!(!ts.is_skew());
    assert!(!ts.is_translate());
    assert!( ts.is_scale_translate());
    assert!( ts.has_scale());
    assert!(!ts.has_skew());
    assert!(!ts.has_translate());

    let ts = from_skew(2.0, 3.0);
    assert!(!ts.is_identity());
    assert!(!ts.is_scale());
    assert!( ts.is_skew());
    assert!(!ts.is_translate());
    assert!(!ts.is_scale_translate());
    assert!(!ts.has_scale());
    assert!( ts.has_skew());
    assert!(!ts.has_translate());

    let ts = from_translate(2.0, 3.0);
    assert!(!ts.is_identity());
    assert!(!ts.is_scale());
    assert!(!ts.is_skew());
    assert!( ts.is_translate());
    assert!( ts.is_scale_translate());
    assert!(!ts.has_scale());
    assert!(!ts.has_skew());
    assert!( ts.has_translate());

    let ts = from_row(1.0, 2.0, 3.0, 4.0, 5.0, 6.0);
    assert!(!ts.is_identity());
    assert!(!ts.is_scale());
    assert!(!ts.is_skew());
    assert!(!ts.is_translate());
    assert!(!ts.is_scale_translate());
    assert!( ts.has_scale());
    assert!( ts.has_skew());
    assert!( ts.has_translate());

    let ts = from_scale(1.0, 1.0);
    assert!(!ts.has_scale());

    let ts = from_skew(0.0, 0.0);
    assert!(!ts.has_skew());

    let ts = from_translate(0.0, 0.0);
    assert!(!ts.has_translate());
}

#[test]
fn from_row_takes_ky_before_kx() {
    let ts = from_row(1.0, 2.0, 3.0, 4.0, 5.0, 6.0);
    assert_eq!(ts.sx.to_bits(), 1.0f32.to_bits());
    assert_eq!(ts.ky.to_bits(), 2.0f32.to_bits());
    assert_eq!(ts.kx.to_bits(), 3.0f32.to_bits());
    assert_eq!(ts.sy.to_bits(), 4.0f32.to_bits());
    assert_eq!(ts.tx.to_bits(), 5.0f32.to_bits());
    assert_eq!(ts.ty.to_bits(), 6.0f32.to_bits());
}

#[test]
fn default_is_the_identity() {
    assert_eq!(Transform::default(), Transform::identity());
    assert!(Transform::default().is_identity());
}

#[test]
fn from_sin_cos_is_a_rotation() {
    let ts = Transform::from_sin_cos(s(0.6), s(0.8));
    assert_eq!(ts, from_row(0.8, 0.6, -0.6, 0.8, 0.0, 0.0));
    let quarter = Transform::from_sin_cos(s(1.0), s(0.0));
    assert_eq!(quarter.kx.to_bits(), (-1.0f32).to_bits());
}

#[test]
fn negative_zero_is_zero() {
    assert!(from_translate(-0.0, 0.0).is_identity());
    assert!(!from_translate(-0.0, -0.0).has_translate());
    assert_eq!(from_skew(-0.0, 0.0), Transform::identity());
}

#[test]
fn nan_is_a_part_of_its_own() {
    let ts = from_scale(f32::NAN, 1.0);
    assert!(ts.has_scale());
    assert!(!ts.is_identity());
    assert!(ts != ts);
    assert!(from_translate(f32::NAN, 0.0).has_translate());
    assert!(from_skew(0.0, f32::NAN).has_skew());
}

#[test]
fn is_finite() {
    assert!(from_row(1.0, 2.0, 3.0, 4.0, 5.0, 6.0).is_finite());
    assert!(from_row(0.0, 0.0, 0.0, 0.0, 0.0, 0.0).is_finite());
    for bad in [f32::NAN, f32::INFINITY, f32::NEG_INFINITY] {
        assert!(!from_row(bad, 2.0, 3.0, 4.0, 5.0, 6.0).is_finite());
        assert!(!from_row(1.0, bad, 3.0, 4.0, 5.0, 6.0).is_finite());
        assert!(!from_row(1.0, 2.0, bad, 4.0, 5.0, 6.0).is_finite());
        assert!(!from_row(1.0, 2.0, 3.0, bad, 5.0, 6.0).is_finite());
        assert!(!from_row(1.0, 2.0, 3.0, 4.0, bad, 6.0).is_finite());
        assert!(!from_row(1.0, 2.0, 3.0, 4.0, 5.0, bad).is_finite());
    }
}

#[test]
fn map_paths() {
    assert_eq!(Transform::identity().map_path(), MapPath::Identity);
    assert_eq!(from_translate(1.0, 0.0).map_path(), MapPath::Translate);
    assert_eq!(from_scale(2.0, 1.0).map_path(), MapPath::ScaleTranslate);
    assert_eq!(from_row(2.0, 0.0, 0.0, 3.0, 4.0, 5.0).map_path(), MapPath::ScaleTranslate);
    assert_eq!(from_skew(0.5, 0.0).map_path(), MapPath::General);
    assert_eq!(from_row(1.0, 2.0, 3.0, 4.0, 5.0, 6.0).map_path(), MapPath::General);
    assert_eq!(from_row(1.2, 3.4, -5.6, -7.8, 1.2, 3.4).map_path(), MapPath::General);
}

#[test]
fn concat_paths() {
    let id = Transform::identity();
    let scale = from_scale(2.0, -4.0);
    let general = from_row(1.2, 3.4, -5.6, -7.8, 1.2, 3.4);
    assert_eq!(id.concat_path(&general), ConcatPath::TakeSecond);
    assert_eq!(id.concat_path(&id), ConcatPath::TakeSecond);
    assert_eq!(general.concat_path(&id), ConcatPath::TakeFirst);
    assert_eq!(scale.concat_path(&from_translate(1.0, 2.0)), ConcatPath::ScaleTranslate);
    assert_eq!(general.concat_path(&scale), ConcatPath::General);
    assert_eq!(scale.concat_path(&general), ConcatPath::General);
}

#[test]
fn invert_paths() {
    match Transform::identity().invert_path() {
        InvertPath::Done(ts) => assert_eq!(ts, Transform::identity()),
        _ => panic!("the identity is its own inverse"),
    }
    match from_translate(3.0, -4.0).invert_path() {
        InvertPath::Done(ts) => assert_eq!(ts, from_translate(-3.0, 4.0)),
        _ => panic!("a translation is undone by the opposite one"),
    }
    assert!(matches!(from_scale(2.0, 3.0).invert_path(), InvertPath::Scale));
    assert!(matches!(
        from_row(2.0, 0.0, 0.0, 3.0, 4.0, 5.0).invert_path(),
        InvertPath::Scale
    ));
    assert!(matches!(from_skew(1.0, 0.0).invert_path(), InvertPath::General));
    assert!(matches!(
        from_row(1.0, 2.0, 3.0, 4.0, 5.0, 6.0).invert_path(),
        InvertPath::General
    ));
}

#[test]
fn finite_or_none() {
    assert_eq!(from_scale(2.0, 3.0).finite_or_none(), Some(from_scale(2.0, 3.0)));
    assert!(from_scale(f32::INFINITY, 3.0).finite_or_none().is_none());
    assert!(from_translate(0.0, f32::NAN).finite_or_none().is_none());
}

#[test]
fn degenerate_determinants() {
    let tolerance = (1.0f32 / 4096.0) * (1.0 / 4096.0) * (1.0 / 4096.0);
    assert!(determinant_is_degenerate(s(0.0)));
    assert!(determinant_is_degenerate(s(-0.0)));
    assert!(determinant_is_degenerate(s(tolerance)));
    assert!(determinant_is_degenerate(s(-tolerance)));
    assert!(determinant_is_degenerate(s(1.0e-12)));
    assert!(!determinant_is_degenerate(s(1.0e-10)));
    assert!(!determinant_is_degenerate(s(-1.0e-10)));
    assert!(!determinant_is_degenerate(s(1.0)));
    assert!(!determinant_is_degenerate(s(f32::NAN)));
    assert!(!determinant_is_degenerate(s(f32::INFINITY)));
    for det in [0.0f32, 1.0e-11, 1.4e-11, 1.5e-11, 1.0e-5, -3.0, f32::NAN] {
        assert_eq!(determinant_is_degenerate(s(det)), det.abs() <= tolerance);
    }
}
