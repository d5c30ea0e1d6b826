//! Transform-aware view-box computation.
//!
//! Given the local bounds of every placed primitive, the caller maps each
//! rectangle's four corners through the one global transform (scalar
//! arithmetic the mapping needs is performed where the transform value
//! lives) and hands the mapped corner points back here. This module owns
//! every decision of the computation:
//!
//! - expanding each local rectangle into its four corners, in a fixed
//!   order;
//! - folding all corner points into running minima and maxima, seeded at
//!   positive and negative infinity so an empty collection yields an
//!   invalid, infinite box;
//! - substituting the fixed fallback side of 256 for a canvas dimension
//!   whose span is not strictly positive, so a document with no drawable
//!   area still gets a visible default canvas;
//! - accepting or rejecting the resulting size and view rectangle under
//!   the document model's validity rules.
//!
//! The fallback deliberately patches only the reported width and height;
//! the view rectangle is built from the raw folded bounds, so when the
//! fallback fires the two no longer agree. That asymmetry is kept as the
//! documented behaviour of the computation.
use vstd::prelude::*;

use crate::LyonTranslationError;
use crate::path::Point;
use crate::scalar::FALLBACK_SIDE_BITS;
use crate::scalar::INFINITY_BITS;
use crate::scalar::NEG_INFINITY_BITS;
use crate::scalar::float_gt_zero;
use crate::scalar::float_lt;
use crate::scalar::float_max;
use crate::scalar::float_min;
use crate::scalar::float_valid_length;
use crate::scalar::gt_zero_bits;
use crate::scalar::is_nan_bits;
use crate::scalar::lt_bits;
use crate::scalar::max_bits;
use crate::scalar::min_bits;
use crate::scalar::valid_length_bits;

verus! {

/// The local bounds of one placed primitive, as binary32 bit patterns, in
/// the coordinate space before the global transform.
#[derive(Clone, Copy, PartialEq, Eq, Structural, Debug)]
pub struct LocalRect {
    pub left: u32,
    pub top: u32,
    pub right: u32,
    pub bottom: u32,
}

/// Running bounds of the folded corner points, as binary32 bit patterns.
#[derive(Clone, Copy, PartialEq, Eq, Structural, Debug)]
pub struct ViewBounds {
    pub min_x: u32,
    pub max_x: u32,
    pub min_y: u32,
    pub max_y: u32,
}

/// The finished canvas dimensions, as binary32 bit patterns.
#[derive(Clone, Copy, PartialEq, Eq, Structural, Debug)]
pub struct ViewDimensions {
    pub width: u32,
    pub height: u32,
}

/// The four corners of a rectangle: top-left, top-right, bottom-left,
/// bottom-right.
pub open spec fn rect_corners(r: LocalRect) -> Seq<Point> {
    seq![
        Point { x: r.left, y: r.top },
        Point { x: r.right, y: r.top },
        Point { x: r.left, y: r.bottom },
        Point { x: r.right, y: r.bottom },
    ]
}

/// The corners of a sequence of rectangles, four per rectangle, in order.
pub open spec fn corners_spec(rects: Seq<LocalRect>) -> Seq<Point>
    decreases rects.len(),
{
    if rects.len() == 0 {
        seq![]
    } else {
        corners_spec(rects.drop_last()) + rect_corners(rects.last())
    }
}

/// The infinite seed box: an empty collection folds to an invalid box that
/// no point widened.
pub open spec fn seed_bounds() -> ViewBounds {
    ViewBounds {
        min_x: INFINITY_BITS,
        max_x: NEG_INFINITY_BITS,
        min_y: INFINITY_BITS,
        max_y: NEG_INFINITY_BITS,
    }
}

/// Widens the running bounds by one point.
pub open spec fn extend_bounds(b: ViewBounds, p: Point) -> ViewBounds {
    ViewBounds {
        min_x: min_bits(b.min_x, p.x),
        max_x: max_bits(b.max_x, p.x),
        min_y: min_bits(b.min_y, p.y),
        max_y: max_bits(b.max_y, p.y),
    }
}

/// The bounds of a sequence of points: the infinite seeds widened by each
/// point in turn.
pub open spec fn fold_bounds_spec(points: Seq<Point>) -> ViewBounds
    decreases points.len(),
{
    if points.len() == 0 {
        seed_bounds()
    } else {
        extend_bounds(fold_bounds_spec(points.drop_last()), points.last())
    }
}

/// The canvas dimension derived from a span: the span itself when it is
/// strictly positive, the fallback side of 256 otherwise.
pub open spec fn dimension_spec(span: u32) -> u32 {
    if gt_zero_bits(span) {
        span
    } else {
        FALLBACK_SIDE_BITS
    }
}

/// Whether the folded bounds form a view rectangle of strictly positive
/// area: both minima strictly below their maxima. An infinite bound can
/// pass this check alone, but it makes the corresponding span infinite,
/// so the dimension validity check rejects the computation as a whole.
pub open spec fn view_rect_acceptable(b: ViewBounds) -> bool {
    &&& lt_bits(b.min_x, b.max_x)
    &&& lt_bits(b.min_y, b.max_y)
}

/// Expands each local rectangle into its four corners, in order: top-left,
/// top-right, bottom-left, bottom-right.
pub fn corner_points(rects: &Vec<LocalRect>) -> (points: Vec<Point>)
    ensures
        points@ == corners_spec(rects@),
{
    let mut points: Vec<Point> = Vec::new();
    let n: usize = rects.len();
    let mut i: usize = 0;
    while i < n
        invariant
            i <= n,
            n == rects@.len(),
            points@ == corners_spec(rects@.take(i as int)),
        decreases n - i,
    {
        let r = rects[i];
        points.push(Point { x: r.left, y: r.top });
        points.push(Point { x: r.right, y: r.top });
        points.push(Point { x: r.left, y: r.bottom });
        points.push(Point { x: r.right, y: r.bottom });
        proof {
            assert(rects@.take(i + 1).drop_last() =~= rects@.take(i as int));
            assert(rects@.take(i + 1).last() == rects@[i as int]);
            assert(points@ =~= corners_spec(rects@.take(i as int)) + rect_corners(
                rects@[i as int],
            ));
        }
        i = i + 1;
    }
    proof {
        assert(rects@.take(n as int) =~= rects@);
    }
    points
}

/// Folds a sequence of points into their bounds, starting from the
/// infinite seeds. A NaN coordinate never widens a bound; a collection
/// with no points leaves the seeds untouched.
pub fn fold_bounds(points: &Vec<Point>) -> (b: ViewBounds)
    ensures
        b == fold_bounds_spec(points@),
{
    let mut b = ViewBounds {
        min_x: INFINITY_BITS,
        max_x: NEG_INFINITY_BITS,
        min_y: INFINITY_BITS,
        max_y: NEG_INFINITY_BITS,
    };
    let n: usize = points.len();
    let mut i: usize = 0;
    while i < n
        invariant
            i <= n,
            n == points@.len(),
            b == fold_bounds_spec(points@.take(i as int)),
        decreases n - i,
    {
        let p = points[i];
        b = ViewBounds {
            min_x: float_min(b.min_x, p.x),
            max_x: float_max(b.max_x, p.x),
            min_y: float_min(b.min_y, p.y),
            max_y: float_max(b.max_y, p.y),
        };
        proof {
            assert(points@.take(i + 1).drop_last() =~= points@.take(i as int));
            assert(points@.take(i + 1).last() == points@[i as int]);
        }
        i = i + 1;
    }
    proof {
        assert(points@.take(n as int) =~= points@);
    }
    b
}

/// Derives one canvas dimension from a span: the span itself when it is
/// strictly positive, the fallback side of 256 otherwise.
pub fn dimension_or_fallback(span: u32) -> (r: u32)
    ensures
        r == dimension_spec(span),
{
    if float_gt_zero(span) {
        span
    } else {
        FALLBACK_SIDE_BITS
    }
}

/// Finishes the computation: derives the canvas dimensions from the two
/// spans of the folded bounds (each span is the difference of a maximum
/// and its minimum, computed where the scalar arithmetic lives), applying
/// the fallback of 256 to a span that is not strictly positive; accepts
/// the result only if both dimensions are valid lengths and the raw
/// bounds form a view rectangle of strictly positive area, and otherwise
/// reports the four raw bounds.
///
/// The document model's rectangle constructor, where it is invoked,
/// additionally refuses a box whose span sits at the very top of the
/// binary32 range; that residual guard stays with the constructor.
pub fn finalize_view(b: &ViewBounds, span_x: u32, span_y: u32) -> (r: Result<
    ViewDimensions,
    LyonTranslationError,
>)
    ensures
        ({
            let width = dimension_spec(span_x);
            let height = dimension_spec(span_y);
            if valid_length_bits(width) && valid_length_bits(height) && view_rect_acceptable(*b) {
                r == Ok::<ViewDimensions, LyonTranslationError>(
                    ViewDimensions { width, height },
                )
            } else {
                r == Err::<ViewDimensions, LyonTranslationError>(
                    LyonTranslationError::WrongBoundingBox {
                        min_x: b.min_x,
                        max_x: b.max_x,
                        min_y: b.min_y,
                        max_y: b.max_y,
                    },
                )
            }
        }),
{
    let width = dimension_or_fallback(span_x);
    let height = dimension_or_fallback(span_y);
    let size_ok = float_valid_length(width) && float_valid_length(height);
    let rect_ok = float_lt(b.min_x, b.max_x) && float_lt(b.min_y, b.max_y);
    if size_ok && rect_ok {
        Ok(ViewDimensions { width, height })
    } else {
        Err(
            LyonTranslationError::WrongBoundingBox {
                min_x: b.min_x,
                max_x: b.max_x,
                min_y: b.min_y,
                max_y: b.max_y,
            },
        )
    }
}

/// Containment law: the folded box contains every point. No coordinate of
/// any folded point lies strictly outside a bound under the scalar order
/// (a NaN coordinate widens no bound and lies outside none), and the
/// bounds themselves are never NaN.
pub proof fn lemma_fold_bounds_contains_all(points: Seq<Point>)
    ensures
        !is_nan_bits(fold_bounds_spec(points).min_x),
        !is_nan_bits(fold_bounds_spec(points).max_x),
        !is_nan_bits(fold_bounds_spec(points).min_y),
        !is_nan_bits(fold_bounds_spec(points).max_y),
        forall|i: int|
            0 <= i < points.len() ==> !lt_bits(
                #[trigger] points[i].x,
                fold_bounds_spec(points).min_x,
            ),
        forall|i: int|
            0 <= i < points.len() ==> !lt_bits(
                fold_bounds_spec(points).max_x,
                #[trigger] points[i].x,
            ),
        forall|i: int|
            0 <= i < points.len() ==> !lt_bits(
                #[trigger] points[i].y,
                fold_bounds_spec(points).min_y,
            ),
        forall|i: int|
            0 <= i < points.len() ==> !lt_bits(
                fold_bounds_spec(points).max_y,
                #[trigger] points[i].y,
            ),
    decreases points.len(),
{
    if points.len() > 0 {
        lemma_fold_bounds_contains_all(points.drop_last());
        assert(forall|i: int|
            0 <= i < points.len() - 1 ==> #[trigger] points[i] == points.drop_last()[i]);
    }
}

/// Minimality law: each folded bound is attained — it is either the
/// untouched infinite seed or the very coordinate of one of the points —
/// so no smaller box contains them all.
pub proof fn lemma_fold_bounds_attained(points: Seq<Point>)
    ensures
        fold_bounds_spec(points).min_x == INFINITY_BITS || exists|i: int|
            0 <= i < points.len() && fold_bounds_spec(points).min_x == #[trigger] points[i].x,
        fold_bounds_spec(points).max_x == NEG_INFINITY_BITS || exists|i: int|
            0 <= i < points.len() && fold_bounds_spec(points).max_x == #[trigger] points[i].x,
        fold_bounds_spec(points).min_y == INFINITY_BITS || exists|i: int|
            0 <= i < points.len() && fold_bounds_spec(points).min_y == #[trigger] points[i].y,
        fold_bounds_spec(points).max_y == NEG_INFINITY_BITS || exists|i: int|
            0 <= i < points.len() && fold_bounds_spec(points).max_y == #[trigger] points[i].y,
    decreases points.len(),
{
    if points.len() > 0 {
        lemma_fold_bounds_attained(points.drop_last());
        assert(forall|i: int|
            0 <= i < points.len() - 1 ==> #[trigger] points[i] == points.drop_last()[i]);
        assert(points[points.len() - 1] == points.last());
    }
}

/// Degenerate fallback law: a collection with no points folds to the
/// untouched infinite seeds, and any span that is not strictly positive —
/// as every span of the seed box is — yields the fallback canvas side of
/// 256.
pub proof fn lemma_degenerate_fallback()
    ensures
        fold_bounds_spec(Seq::<Point>::empty()) == seed_bounds(),
        forall|span: u32| !gt_zero_bits(span) ==> dimension_spec(span) == FALLBACK_SIDE_BITS,
{
}

/// Idempotence law: the computation is a pure function of its inputs, so
/// two results obtained from the same points and the same spans are
/// identical, bit for bit.
pub proof fn lemma_compute_deterministic(
    points: Seq<Point>,
    span_x: u32,
    span_y: u32,
    b1: ViewBounds,
    b2: ViewBounds,
    d1: ViewDimensions,
    d2: ViewDimensions,
)
    requires
        b1 == fold_bounds_spec(points),
        b2 == fold_bounds_spec(points),
        d1 == (ViewDimensions { width: dimension_spec(span_x), height: dimension_spec(span_y) }),
        d2 == (ViewDimensions { width: dimension_spec(span_x), height: dimension_spec(span_y) }),
    ensures
        b1 == b2,
        d1 == d2,
{
}

} // verus!
