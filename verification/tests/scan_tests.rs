use path_kernel::arithmetic::RectArithmetic;
use path_kernel::geom::{IntRect, ScreenIntRect};
use path_kernel::scalar::Scalar;
use path_kernel::scan::{fill_int_rect, fill_rect, Rect, RoundedRect};

fn scalar(x: f32) -> Scalar {
    Scalar::from_bits(x.to_bits())
}

fn float(s: Scalar) -> f32 {
    f32::from_bits(s.to_bits())
}

/// The arithmetic of the machine.
struct Hardware;

impl RectArithmetic for Hardware {
    fn extent(&self, low: Scalar, high: Scalar) -> Scalar {
        scalar(float(high) - float(low))
    }

    fn saturate_round(&self, value: Scalar) -> i32 {
        let x = (float(value) + 0.5).floor();
        let max = 2147483520.0f32;
        let x = if x < max { x } else { max };
        let x = if x > -max { x } else { -max };
        x as i32
    }
}

fn ltrb(left: f32, top: f32, right: f32, bottom: f32) -> Rect {
    Rect::from_ltrb(scalar(left), scalar(top), scalar(right), scalar(bottom), &Hardware).unwrap()
}

fn rounded(x: i32, y: i32, width: i32, height: i32) -> RoundedRect {
    RoundedRect { x, y, width, height }
}

fn xywh(r: Option<ScreenIntRect>) -> Option<(u32, u32, u32, u32)> {
    r.map(|r| (r.x(), r.y(), r.width(), r.height()))
}

fn clip() -> ScreenIntRect {
    ScreenIntRect::from_xywh(0, 0, 100, 50).unwrap()
}

// A blitter that keeps what it is asked to paint.
struct Keeping {
    blits: Vec<(u32, u32, u32, u32)>,
}

impl Keeping {
    fn fill_rect(&mut self, rect: &Rect, clip: &ScreenIntRect) {
        if let Some(blit) = fill_rect(rect, clip, &Hardware) {
            self.blits.push((blit.x(), blit.y(), blit.width(), blit.height()));
        }
    }
}

#[test]
fn rect_needs_finite_edges_in_order() {
    let rect = |l: f32, t: f32, r: f32, b: f32| {
        Rect::from_ltrb(scalar(l), scalar(t), scalar(r), scalar(b), &Hardware)
    };
    assert!(rect(0.0, 0.0, 1.0, 1.0).is_some());
    assert!(rect(0.0, 0.0, 0.0, 0.0).is_some());
    assert!(rect(-0.0, 0.0, 0.0, -0.0).is_some());
    assert!(rect(1.0, 0.0, 0.0, 1.0).is_none());
    assert!(rect(0.0, 1.0, 1.0, 0.0).is_none());
    assert!(rect(f32::NAN, 0.0, 1.0, 1.0).is_none());
    assert!(rect(0.0, 0.0, f32::INFINITY, 1.0).is_none());
    assert!(rect(0.0, f32::NEG_INFINITY, 1.0, 1.0).is_none());
    // The edges are finite, the width is not.
    assert!(rect(f32::MIN, 0.0, f32::MAX, 1.0).is_none());
    assert!(rect(0.0, f32::MIN, 1.0, f32::MAX).is_none());
    let r = rect(1.0, 2.0, 3.0, 4.0).unwrap();
    assert_eq!(
        (float(r.left()), float(r.top()), float(r.right()), float(r.bottom())),
        (1.0, 2.0, 3.0, 4.0)
    );
}

#[test]
fn rect_rounds_its_corner_and_its_size() {
    let r = ltrb(10.4, 20.5, 40.6, 25.0).rounded(&Hardware);
    assert_eq!((r.x, r.y, r.width, r.height), (10, 21, 30, 5));
    let r = ltrb(-0.5, -0.6, 0.2, 0.3).rounded(&Hardware);
    assert_eq!((r.x, r.y, r.width, r.height), (0, -1, 1, 1));
    let r = ltrb(-3.0e9, 0.0, 3.0e9, 1.0).rounded(&Hardware);
    assert_eq!((r.x, r.width), (-2147483520, 2147483520));
    let whole = ltrb(10.4, 20.5, 40.6, 25.0).round(&Hardware).unwrap();
    assert_eq!((whole.x(), whole.y(), whole.width(), whole.height()), (10, 21, 30, 5));
    let wide = ltrb(-3.0e9, 0.0, 3.0e9, 1.0).round(&Hardware).unwrap();
    assert_eq!((wide.x(), wide.right()), (-2147483520, 0));
    assert!(ltrb(200.0, 0.0, 3.0e9, 1.0).round(&Hardware).is_none());
}

#[test]
fn fill_rect_inside_the_clip_blits_it_whole() {
    assert_eq!(
        xywh(fill_rect(&ltrb(10.0, 20.0, 40.0, 25.0), &clip(), &Hardware)),
        Some((10, 20, 30, 5))
    );
    assert_eq!(
        xywh(fill_rect(&ltrb(9.6, 19.5, 40.4, 25.4), &clip(), &Hardware)),
        Some((10, 20, 31, 6))
    );
}

#[test]
fn fill_rect_across_the_clip_blits_the_part_inside() {
    assert_eq!(
        xywh(fill_rect(&ltrb(-10.0, 40.0, 20.0, 70.0), &clip(), &Hardware)),
        Some((0, 40, 20, 10))
    );
}

#[test]
fn fill_rect_outside_the_clip_blits_nothing() {
    let mut blitter = Keeping { blits: Vec::new() };
    blitter.fill_rect(&ltrb(100.0, 0.0, 110.0, 10.0), &clip());
    blitter.fill_rect(&ltrb(0.0, 50.0, 10.0, 60.0), &clip());
    blitter.fill_rect(&ltrb(-10.0, 0.0, 0.0, 10.0), &clip());
    blitter.fill_rect(&ltrb(0.0, -10.0, 10.0, 0.0), &clip());
    blitter.fill_rect(&ltrb(1000.0, 1000.0, 1010.0, 1010.0), &clip());
    blitter.fill_rect(&ltrb(-1.0e20, -1.0e20, -1.0e19, -1.0e19), &clip());
    assert_eq!(blitter.blits.len(), 0);
}

#[test]
fn fill_rect_counts_a_size_of_zero_as_one() {
    assert_eq!(
        xywh(fill_rect(&ltrb(3.0, 4.0, 3.25, 4.25), &clip(), &Hardware)),
        Some((3, 4, 1, 1))
    );
    assert_eq!(xywh(fill_rect(&ltrb(3.0, 4.0, 3.0, 4.0), &clip(), &Hardware)), Some((3, 4, 1, 1)));
}

#[test]
fn fill_rect_beyond_the_integers_blits_nothing() {
    assert_eq!(xywh(fill_rect(&ltrb(3.0e9, 0.0, 4.0e9, 10.0), &clip(), &Hardware)), None);
    assert_eq!(xywh(fill_rect(&ltrb(50.0, 1.0, 3.0e9, 2.0), &clip(), &Hardware)), Some((50, 1, 50, 1)));
    assert_eq!(xywh(fill_rect(&ltrb(90.0, 1.0, 3.0e9, 2.0), &clip(), &Hardware)), Some((90, 1, 10, 1)));
    assert_eq!(xywh(fill_rect(&ltrb(99.0, 1.0, 4.0e9, 2.0), &clip(), &Hardware)), Some((99, 1, 1, 1)));
    // The far edge is no 32-bit integer, though the near corner is in sight.
    let wide_clip = ScreenIntRect::from_xywh(0, 0, 1000, 1000).unwrap();
    assert_eq!(xywh(fill_rect(&ltrb(200.0, 1.0, 4.0e9, 2.0), &wide_clip, &Hardware)), None);
    assert_eq!(
        xywh(fill_rect(&ltrb(100.0, 1.0, 4.0e9, 2.0), &wide_clip, &Hardware)),
        Some((100, 1, 900, 1))
    );
    assert_eq!(xywh(fill_rect(&ltrb(-3.0e9, 0.0, 3.0e9, 10.0), &clip(), &Hardware)), None);
}

#[test]
fn fill_rect_blits_once_for_each_rectangle_in_sight() {
    let mut blitter = Keeping { blits: Vec::new() };
    blitter.fill_rect(&ltrb(1.0, 1.0, 3.0, 3.0), &clip());
    blitter.fill_rect(&ltrb(200.0, 200.0, 202.0, 202.0), &clip());
    blitter.fill_rect(&ltrb(5.0, 5.0, 7.0, 7.0), &clip());
    assert_eq!(blitter.blits, vec![(1, 1, 2, 2), (5, 5, 2, 2)]);
}

#[test]
fn fill_int_rect_blits_the_common_part() {
    let rect = IntRect::from_xywh(90, -5, 20, 10).unwrap();
    assert_eq!(xywh(fill_int_rect(&rect, &clip())), Some((90, 0, 10, 5)));
    let outside = IntRect::from_xywh(-20, -20, 20, 20).unwrap();
    assert_eq!(xywh(fill_int_rect(&outside, &clip())), None);
}

#[test]
fn rounded_rect_to_int_rect() {
    let r = rounded(-3, 4, 10, 0).to_int_rect().unwrap();
    assert_eq!((r.x(), r.y(), r.width(), r.height()), (-3, 4, 10, 1));
    assert!(rounded(0, 0, -5, 5).to_int_rect().is_none());
    assert!(rounded(0, 0, 5, -5).to_int_rect().is_none());
    assert!(rounded(i32::MAX, 0, 0, 0).to_int_rect().is_none());
    assert!(rounded(i32::MAX - 1, i32::MAX - 1, 0, 0).to_int_rect().is_some());
    assert!(rounded(1, 1, i32::MAX, 1).to_int_rect().is_none());
}
