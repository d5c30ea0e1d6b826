use roarsvg::LyonTranslationError;
use roarsvg::bounds::LocalRect;
use roarsvg::bounds::ViewBounds;
use roarsvg::bounds::corner_points;
use roarsvg::bounds::dimension_or_fallback;
use roarsvg::bounds::finalize_view;
use roarsvg::bounds::fold_bounds;
use roarsvg::path::DrawCmd;
use roarsvg::path::PathEvent;
use roarsvg::path::Point;
use roarsvg::path::translate;

fn pt(x: f32, y: f32) -> Point {
    Point { x: x.to_bits(), y: y.to_bits() }
}

fn rect(left: f32, top: f32, right: f32, bottom: f32) -> LocalRect {
    LocalRect {
        left: left.to_bits(),
        top: top.to_bits(),
        right: right.to_bits(),
        bottom: bottom.to_bits(),
    }
}

fn map_through(transform: usvg::Transform, points: &[Point]) -> Vec<Point> {
    points
        .iter()
        .map(|p| {
            let mut mapped = usvg::tiny_skia_path::Point::from_xy(
                f32::from_bits(p.x),
                f32::from_bits(p.y),
            );
            transform.map_point(&mut mapped);
            pt(mapped.x, mapped.y)
        })
        .collect()
}

fn spans(b: &ViewBounds) -> (u32, u32) {
    let span_x = f32::from_bits(b.max_x) - f32::from_bits(b.min_x);
    let span_y = f32::from_bits(b.max_y) - f32::from_bits(b.min_y);
    (span_x.to_bits(), span_y.to_bits())
}

#[test]
fn axis_aligned_bounds() {
    let rects = vec![rect(0.0, 0.0, 4.0, 2.0)];
    let corners = corner_points(&rects);
    assert_eq!(corners.len(), 4);
    let b = fold_bounds(&corners);
    assert_eq!(b.min_x, 0.0f32.to_bits());
    assert_eq!(b.max_x, 4.0f32.to_bits());
    assert_eq!(b.min_y, 0.0f32.to_bits());
    assert_eq!(b.max_y, 2.0f32.to_bits());
    let (sx, sy) = spans(&b);
    let dims = finalize_view(&b, sx, sy).expect("a positive-area box is accepted");
    assert_eq!(dims.width, 4.0f32.to_bits());
    assert_eq!(dims.height, 2.0f32.to_bits());
}

#[test]
fn rotated_square_bounds() {
    // A quarter-turn: x maps to -y, y maps to x.
    let quarter_turn = usvg::Transform::from_row(0.0, 1.0, -1.0, 0.0, 0.0, 0.0);
    let rects = vec![rect(0.0, 0.0, 1.0, 1.0)];
    let corners = map_through(quarter_turn, &corner_points(&rects));
    let b = fold_bounds(&corners);
    assert_eq!(f32::from_bits(b.min_x), -1.0);
    assert_eq!(f32::from_bits(b.max_x), 0.0);
    assert_eq!(f32::from_bits(b.min_y), 0.0);
    assert_eq!(f32::from_bits(b.max_y), 1.0);
    let (sx, sy) = spans(&b);
    let dims = finalize_view(&b, sx, sy).expect("the rotated box is accepted");
    assert_eq!(f32::from_bits(dims.width), 1.0);
    assert_eq!(f32::from_bits(dims.height), 1.0);
}

#[test]
fn empty_collection_falls_back_to_default_canvas() {
    let rects: Vec<LocalRect> = Vec::new();
    let corners = corner_points(&rects);
    assert!(corners.is_empty());
    let b = fold_bounds(&corners);
    assert_eq!(b.min_x, f32::INFINITY.to_bits());
    assert_eq!(b.max_x, f32::NEG_INFINITY.to_bits());
    assert_eq!(b.min_y, f32::INFINITY.to_bits());
    assert_eq!(b.max_y, f32::NEG_INFINITY.to_bits());
    let (sx, sy) = spans(&b);
    assert_eq!(f32::from_bits(dimension_or_fallback(sx)), 256.0);
    assert_eq!(f32::from_bits(dimension_or_fallback(sy)), 256.0);
    // The dimensions fall back, but the seed box itself stays invalid and
    // is reported as such.
    let r = finalize_view(&b, sx, sy);
    assert_eq!(
        r,
        Err(LyonTranslationError::WrongBoundingBox {
            min_x: f32::INFINITY.to_bits(),
            max_x: f32::NEG_INFINITY.to_bits(),
            min_y: f32::INFINITY.to_bits(),
            max_y: f32::NEG_INFINITY.to_bits(),
        })
    );
}

#[test]
fn single_point_box_is_rejected() {
    let rects = vec![rect(2.0, 3.0, 2.0, 3.0)];
    let corners = corner_points(&rects);
    let b = fold_bounds(&corners);
    let (sx, sy) = spans(&b);
    assert_eq!(f32::from_bits(dimension_or_fallback(sx)), 256.0);
    let r = finalize_view(&b, sx, sy);
    assert_eq!(
        r,
        Err(LyonTranslationError::WrongBoundingBox {
            min_x: 2.0f32.to_bits(),
            max_x: 2.0f32.to_bits(),
            min_y: 3.0f32.to_bits(),
            max_y: 3.0f32.to_bits(),
        })
    );
}

#[test]
fn two_rectangles_fold_together() {
    let rects = vec![rect(0.0, 0.0, 1.0, 1.0), rect(-3.0, 2.0, 5.0, 7.0)];
    let corners = corner_points(&rects);
    assert_eq!(corners.len(), 8);
    let b = fold_bounds(&corners);
    assert_eq!(f32::from_bits(b.min_x), -3.0);
    assert_eq!(f32::from_bits(b.max_x), 5.0);
    assert_eq!(f32::from_bits(b.min_y), 0.0);
    assert_eq!(f32::from_bits(b.max_y), 7.0);
}

#[test]
fn compute_twice_is_bit_identical() {
    let rects = vec![rect(0.5, -1.25, 4.75, 2.5)];
    let c1 = corner_points(&rects);
    let c2 = corner_points(&rects);
    let b1 = fold_bounds(&c1);
    let b2 = fold_bounds(&c2);
    assert_eq!(b1, b2);
    let (sx1, sy1) = spans(&b1);
    let (sx2, sy2) = spans(&b2);
    assert_eq!(finalize_view(&b1, sx1, sy1), finalize_view(&b2, sx2, sy2));
}

#[test]
fn cubic_round_trip_shifts_by_translation() {
    // Translate a path with one cubic segment, rebuild a bounds rectangle
    // from the emitted control and end points, and check that a pure
    // translation shifts the rectangle by exactly the translation vector.
    let events = vec![
        PathEvent::Begin { at: pt(0.0, 0.0) },
        PathEvent::Cubic {
            from: pt(0.0, 0.0),
            ctrl1: pt(2.0, 1.0),
            ctrl2: pt(5.0, 1.0),
            to: pt(3.0, 2.0),
        },
        PathEvent::End { last: pt(3.0, 2.0), first: pt(0.0, 0.0), close: true },
    ];
    let mut control_points: Vec<Point> = Vec::new();
    for cmd in translate(&events) {
        match cmd {
            DrawCmd::MoveTo { to } => control_points.push(to),
            DrawCmd::LineTo { to } => control_points.push(to),
            DrawCmd::QuadTo { ctrl, to } => {
                control_points.push(ctrl);
                control_points.push(to);
            }
            DrawCmd::CubicTo { ctrl1, ctrl2, to } => {
                control_points.push(ctrl1);
                control_points.push(ctrl2);
                control_points.push(to);
            }
            DrawCmd::Close => {}
        }
    }
    let before = fold_bounds(&control_points);
    assert_eq!(f32::from_bits(before.min_x), 0.0);
    assert_eq!(f32::from_bits(before.max_x), 5.0);
    assert_eq!(f32::from_bits(before.min_y), 0.0);
    assert_eq!(f32::from_bits(before.max_y), 2.0);

    let shift = usvg::Transform::from_translate(2.0, 3.0);
    let after = fold_bounds(&map_through(shift, &control_points));
    assert_eq!(f32::from_bits(after.min_x), f32::from_bits(before.min_x) + 2.0);
    assert_eq!(f32::from_bits(after.max_x), f32::from_bits(before.max_x) + 2.0);
    assert_eq!(f32::from_bits(after.min_y), f32::from_bits(before.min_y) + 3.0);
    assert_eq!(f32::from_bits(after.max_y), f32::from_bits(before.max_y) + 3.0);
}
