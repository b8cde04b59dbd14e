//! Collinearity condensation.
//!
//! A reified curve often walks several steps along one straight line; the
//! condenser removes every interior point that lies (within tolerance) on
//! the segment between its two neighbours, collapsing runs of three or
//! more collinear points down to their endpoints while keeping genuine
//! corners.
//!
//! Collinearity of three points is judged by twice the signed area of the
//! triangle they span; a magnitude at most the caller's tolerance counts
//! as collinear. Fixed-point coordinates make the test exact integer
//! arithmetic, so a tolerance of zero means exact collinearity; callers
//! that convert from inexact upstream arithmetic pass a positive slack.

use vstd::prelude::*;

use crate::point::{Point2, PointModel, pm_in_range, all_in_range, MAX_COORD};

verus! {

/// Twice the signed area of the triangle `a`, `b`, `c`.
pub open spec fn cross(a: PointModel, b: PointModel, c: PointModel) -> int {
    a.x * (b.y - c.y) + b.x * (c.y - a.y) + c.x * (a.y - b.y)
}

/// Three points are collinear within `tol` when the magnitude of their
/// doubled triangle area is at most `tol`.
pub open spec fn collinear(a: PointModel, b: PointModel, c: PointModel, tol: int) -> bool {
    -tol <= cross(a, b, c) <= tol
}

/// Whether the middle of three consecutive points may be dropped.
///
/// Relies on the doubled-triangle-area form of the collinearity test; a
/// magnitude at most `tolerance` counts as collinear.
pub fn are_collinear(pt1: Point2, pt2: Point2, pt3: Point2, tolerance: i64) -> (r: bool)
    requires
        pm_in_range(pt1@, MAX_COORD as int),
        pm_in_range(pt2@, MAX_COORD as int),
        pm_in_range(pt3@, MAX_COORD as int),
    ensures
        r == collinear(pt1@, pt2@, pt3@, tolerance as int),
{
    let x1 = pt1.x as i128;
    let y1 = pt1.y as i128;
    let x2 = pt2.x as i128;
    let y2 = pt2.y as i128;
    let x3 = pt3.x as i128;
    let y3 = pt3.y as i128;
    proof {
        let m = MAX_COORD as int;
        assert(-(2 * m * m) <= x1 * (y2 - y3) <= 2 * m * m) by (nonlinear_arith)
            requires -m <= x1 <= m, -(2 * m) <= y2 - y3 <= 2 * m, m == MAX_COORD as int;
        assert(-(2 * m * m) <= x2 * (y3 - y1) <= 2 * m * m) by (nonlinear_arith)
            requires -m <= x2 <= m, -(2 * m) <= y3 - y1 <= 2 * m, m == MAX_COORD as int;
        assert(-(2 * m * m) <= x3 * (y1 - y2) <= 2 * m * m) by (nonlinear_arith)
            requires -m <= x3 <= m, -(2 * m) <= y1 - y2 <= 2 * m, m == MAX_COORD as int;
    }
    let x2_area = x1 * (y2 - y3) + x2 * (y3 - y1) + x3 * (y1 - y2);
    let tol = tolerance as i128;
    -tol <= x2_area && x2_area <= tol
}

/// One forward pass of the condenser: starting from the already retained
/// prefix `ret` and the pending `cand`, scan `pts` from index `i` on,
/// retaining each candidate exactly when it is not collinear with the last
/// retained point and the point after it.
pub open spec fn condense_scan(
    pts: Seq<PointModel>,
    tol: int,
    i: int,
    ret: Seq<PointModel>,
    cand: PointModel,
) -> (Seq<PointModel>, PointModel)
    decreases pts.len() - i,
{
    if i < 0 || i >= pts.len() {
        (ret, cand)
    } else {
        let ret2 = if !collinear(ret.last(), cand, pts[i], tol) {
            ret.push(cand)
        } else {
            ret
        };
        condense_scan(pts, tol, i + 1, ret2, pts[i])
    }
}

/// The condensed form of a point sequence.
///
/// Sequences of fewer than three points are returned unchanged (no
/// collinearity is defined for them). Otherwise the first point is always
/// retained, the scan decides each interior point, and a final check drops
/// the last retained point when it is collinear with the point before it
/// and the true final point, which is then appended.
pub open spec fn condense_model(pts: Seq<PointModel>, tol: int) -> Seq<PointModel> {
    if pts.len() < 3 {
        pts
    } else {
        let (ret, cand) = condense_scan(pts, tol, 2, seq![pts[0]], pts[1]);
        let ret2 = if ret.len() >= 2 && collinear(ret[ret.len() - 2], ret[ret.len() - 1], cand, tol) {
            ret.drop_last()
        } else {
            ret
        };
        ret2.push(cand)
    }
}

/// Removes the middle points of groups of three collinear points that
/// appear in linear order along the curve.
pub fn condense_collinear(pts: Vec<Point2>, tolerance: i64) -> (r: Vec<Point2>)
    requires
        all_in_range(pts.deep_view(), MAX_COORD as int),
    ensures
        r.deep_view() == condense_model(pts.deep_view(), tolerance as int),
        pts@.len() < 3 ==> r@ == pts@,
        all_in_range(r.deep_view(), MAX_COORD as int),
{
    let ghost pv = pts.deep_view();
    let ghost tol = tolerance as int;
    if pts.len() < 3 {
        return pts;
    }
    let mut ret: Vec<Point2> = Vec::new();
    ret.push(pts[0]);
    let mut candidate: Point2 = pts[1];
    assert(ret.deep_view() =~= seq![pv[0]]);
    assert(pm_in_range(pv[1], MAX_COORD as int));

    let n = pts.len();
    for i in 2..n
        invariant
            pts.deep_view() == pv,
            tol == tolerance as int,
            n == pts.len(),
            n == pv.len(),
            3 <= n,
            all_in_range(pv, MAX_COORD as int),
            ret.deep_view().len() >= 1,
            all_in_range(ret.deep_view(), MAX_COORD as int),
            pm_in_range(candidate@, MAX_COORD as int),
            condense_scan(pv, tol, i as int, ret.deep_view(), candidate@)
                == condense_scan(pv, tol, 2, seq![pv[0]], pv[1]),
    {
        let ghost old_ret = ret.deep_view();
        let ghost old_cand = candidate@;
        proof {
            assert(pm_in_range(pv[i as int], MAX_COORD as int));
            assert(pm_in_range(old_ret[old_ret.len() - 1], MAX_COORD as int));
        }
        if !are_collinear(ret[ret.len() - 1], candidate, pts[i], tolerance) {
            ret.push(candidate);
            assert(ret.deep_view() =~= old_ret.push(old_cand));
        }
        candidate = pts[i];
        proof {
            let iv = i as int;
            assert(old_ret.last() == old_ret[old_ret.len() - 1]);
            let ret2 = if !collinear(old_ret.last(), old_cand, pv[iv], tol) {
                old_ret.push(old_cand)
            } else {
                old_ret
            };
            assert(ret.deep_view() == ret2);
            assert(condense_scan(pv, tol, iv, old_ret, old_cand)
                == condense_scan(pv, tol, iv + 1, ret2, pv[iv]));
        }
    }
    assert(condense_scan(pv, tol, n as int, ret.deep_view(), candidate@)
        == (ret.deep_view(), candidate@));

    // The last retained point may need to be discarded when the point
    // before it and the true final point are collinear with it.
    let ghost scanned = ret.deep_view();
    if ret.len() >= 2 {
        proof {
            assert(pm_in_range(scanned[scanned.len() - 2], MAX_COORD as int));
            assert(pm_in_range(scanned[scanned.len() - 1], MAX_COORD as int));
        }
        if are_collinear(ret[ret.len() - 2], ret[ret.len() - 1], candidate, tolerance) {
            ret.pop();
            assert(ret.deep_view() =~= scanned.drop_last());
        }
    }
    let ghost fixed = ret.deep_view();
    ret.push(candidate);
    assert(ret.deep_view() =~= fixed.push(candidate@));
    assert(ret.deep_view() =~= condense_model(pv, tol));
    ret
}

/// Across the scan the first retained point survives, the pending
/// candidate tracks the input, and at most one point is retained per
/// input position.
proof fn lemma_scan_basic(
    pts: Seq<PointModel>,
    tol: int,
    i: int,
    ret: Seq<PointModel>,
    cand: PointModel,
)
    requires
        2 <= i <= pts.len(),
        ret.len() >= 1,
        cand == pts[i - 1],
    ensures
        ({
            let res = condense_scan(pts, tol, i, ret, cand);
            &&& res.1 == pts[pts.len() - 1]
            &&& res.0.len() >= ret.len()
            &&& res.0.len() <= ret.len() + pts.len() - i
            &&& res.0[0] == ret[0]
        }),
    decreases pts.len() - i,
{
    if i == pts.len() {
    } else {
        if !collinear(ret.last(), cand, pts[i], tol) {
            lemma_scan_basic(pts, tol, i + 1, ret.push(cand), pts[i]);
        } else {
            lemma_scan_basic(pts, tol, i + 1, ret, pts[i]);
        }
    }
}

/// Boundary law: condensation is a simplification between the original
/// endpoints. At any tolerance the first and last points survive, and no
/// points are invented.
pub proof fn lemma_condense_endpoints(pts: Seq<PointModel>, tol: int)
    requires
        pts.len() >= 1,
    ensures
        condense_model(pts, tol).len() >= 1,
        condense_model(pts, tol).len() <= pts.len(),
        condense_model(pts, tol)[0] == pts[0],
        condense_model(pts, tol).last() == pts.last(),
{
    if pts.len() < 3 {
    } else {
        lemma_scan_basic(pts, tol, 2, seq![pts[0]], pts[1]);
    }
}

/// No point of `pts` repeats.
pub open spec fn pairwise_distinct(pts: Seq<PointModel>) -> bool {
    forall|i: int, j: int| 0 <= i < j < pts.len() ==> pts[i] != pts[j]
}

/// No three consecutive points are exactly collinear: the sequence is
/// what a zero-tolerance condensation pass leaves behind.
pub open spec fn condensed(pts: Seq<PointModel>) -> bool {
    forall|i: int| 2 <= i < pts.len() ==> cross(pts[i - 2], pts[i - 1], #[trigger] pts[i]) != 0
}

/// The cross product of two plane vectors.
spec fn vcross(ux: int, uy: int, vx: int, vy: int) -> int {
    ux * vy - uy * vx
}

/// The doubled triangle area is the cross product of the two edge
/// vectors leaving the first point.
proof fn lemma_cross_as_vectors(a: PointModel, b: PointModel, c: PointModel)
    ensures
        cross(a, b, c) == vcross(b.x - a.x, b.y - a.y, c.x - a.x, c.y - a.y),
{
    assert(a.x * (b.y - c.y) + b.x * (c.y - a.y) + c.x * (a.y - b.y)
        == (b.x - a.x) * (c.y - a.y) - (b.y - a.y) * (c.x - a.x)) by (nonlinear_arith);
}

/// The doubled triangle area is unchanged by rotating the three points.
proof fn lemma_cross_rotate(a: PointModel, b: PointModel, c: PointModel)
    ensures
        cross(a, b, c) == cross(b, c, a),
{
}

/// Two vectors each parallel to a common nonzero vector are parallel to
/// each other.
proof fn lemma_parallel(ux: int, uy: int, vx: int, vy: int, wx: int, wy: int)
    requires
        vcross(ux, uy, vx, vy) == 0,
        vcross(ux, uy, wx, wy) == 0,
        ux != 0 || uy != 0,
    ensures
        vcross(vx, vy, wx, wy) == 0,
{
    assert(ux * (vx * wy - vy * wx) == vx * (ux * wy - uy * wx) - wx * (ux * vy - uy * vx))
        by (nonlinear_arith);
    assert(uy * (vx * wy - vy * wx) == vy * (ux * wy - uy * wx) - wy * (ux * vy - uy * vx))
        by (nonlinear_arith);
    if ux != 0 {
        assert(vx * wy - vy * wx == 0) by (nonlinear_arith)
            requires ux != 0, ux * (vx * wy - vy * wx) == 0;
    } else {
        assert(vx * wy - vy * wx == 0) by (nonlinear_arith)
            requires uy != 0, uy * (vx * wy - vy * wx) == 0;
    }
}

/// Collinearity transfers along a shared edge: if `c` lies on the line
/// through `r` and `q`, and so does `r2`, then `r2`, `r` and `c` are
/// collinear — provided `r` and `q` are two genuinely distinct points.
proof fn lemma_collinear_trans(r2: PointModel, r: PointModel, c: PointModel, q: PointModel)
    requires
        cross(r, c, q) == 0,
        cross(r2, r, q) == 0,
        r != q,
    ensures
        cross(r2, r, c) == 0,
{
    let ux = q.x - r.x;
    let uy = q.y - r.y;
    let vx = c.x - r.x;
    let vy = c.y - r.y;
    let wx = r2.x - r.x;
    let wy = r2.y - r.y;
    lemma_cross_as_vectors(r, c, q);
    assert(vcross(ux, uy, vx, vy) == 0);
    lemma_cross_rotate(r2, r, q);
    lemma_cross_as_vectors(r, q, r2);
    assert(vcross(ux, uy, wx, wy) == 0);
    lemma_parallel(ux, uy, vx, vy, wx, wy);
    lemma_cross_rotate(r2, r, c);
    lemma_cross_as_vectors(r, c, r2);
}

/// The heart of the idempotence proof: across the whole scan, the
/// retained prefix stays condensed and the last two retained points are
/// never collinear with the pending candidate, so the closing fixup of
/// `condense_model` never fires and the final sequence is condensed.
///
/// `idx` names the input position of each retained point; the scan only
/// ever retains input points in order, and with all points distinct that
/// rules out the degenerate triples a revisited point could form.
proof fn lemma_scan_props(
    pts: Seq<PointModel>,
    i: int,
    ret: Seq<PointModel>,
    cand: PointModel,
    idx: Seq<int>,
)
    requires
        pairwise_distinct(pts),
        2 <= i <= pts.len(),
        cand == pts[i - 1],
        ret.len() == idx.len(),
        ret.len() >= 1,
        forall|k: int| 0 <= k < idx.len() ==> 0 <= #[trigger] idx[k] < i - 1,
        forall|k: int| 0 <= k < idx.len() ==> #[trigger] ret[k] == pts[idx[k]],
        condensed(ret),
        ret.len() >= 2 ==> cross(ret[ret.len() - 2], ret[ret.len() - 1], cand) != 0,
    ensures
        ({
            let res = condense_scan(pts, 0, i, ret, cand);
            &&& res.1 == pts[pts.len() - 1]
            &&& res.0.len() >= 1
            &&& condensed(res.0)
            &&& (res.0.len() >= 2 ==> cross(res.0[res.0.len() - 2], res.0[res.0.len() - 1], res.1)
                != 0)
        }),
    decreases pts.len() - i,
{
    if i == pts.len() {
    } else {
        let r = ret.last();
        if !collinear(r, cand, pts[i], 0) {
            let ret2 = ret.push(cand);
            let idx2 = idx.push(i - 1);
            assert(condensed(ret2)) by {
                assert forall|t: int| 2 <= t < ret2.len() implies cross(
                    ret2[t - 2],
                    ret2[t - 1],
                    #[trigger] ret2[t],
                ) != 0 by {
                    if t < ret.len() {
                        assert(cross(ret[t - 2], ret[t - 1], ret[t]) != 0);
                    } else {
                        assert(ret2[t - 2] == ret[ret.len() - 2]);
                        assert(ret2[t - 1] == ret[ret.len() - 1]);
                        assert(ret2[t] == cand);
                    }
                }
            }
            lemma_scan_props(pts, i + 1, ret2, pts[i], idx2);
        } else {
            if ret.len() >= 2 {
                let r2 = ret[ret.len() - 2];
                if cross(r2, r, pts[i]) == 0 {
                    assert(r == pts[idx[idx.len() - 1]]);
                    assert(idx[idx.len() - 1] < i);
                    assert(r != pts[i]);
                    lemma_collinear_trans(r2, r, cand, pts[i]);
                    assert(false);
                }
            }
            lemma_scan_props(pts, i + 1, ret, pts[i], idx);
        }
    }
}

/// A condensed sequence is a fixed point of the condenser: with exact
/// tolerance, a pass over a sequence with no three consecutive collinear
/// points keeps every point.
pub proof fn lemma_condensed_fixpoint(pts: Seq<PointModel>)
    requires
        condensed(pts),
    ensures
        condense_model(pts, 0) == pts,
{
    if pts.len() < 3 {
    } else {
        lemma_fixpoint_scan(pts, 2);
        assert(seq![pts[0]] =~= pts.take(1));
        let res = condense_scan(pts, 0, 2, seq![pts[0]], pts[1]);
        assert(res == condense_scan(pts, 0, 2, pts.take(1), pts[1]));
        assert(res.0 == pts.take(pts.len() - 1));
        assert(res.0.len() >= 2);
        assert(cross(res.0[res.0.len() - 2], res.0[res.0.len() - 1], res.1)
            == cross(pts[pts.len() - 3], pts[pts.len() - 2], pts[pts.len() - 1]));
        assert(res.0.push(res.1) =~= pts);
    }
}

/// On a condensed input the scan retains every point it passes.
proof fn lemma_fixpoint_scan(pts: Seq<PointModel>, i: int)
    requires
        condensed(pts),
        3 <= pts.len(),
        2 <= i <= pts.len(),
    ensures
        condense_scan(pts, 0, i, pts.take(i - 1), pts[i - 1])
            == (pts.take(pts.len() - 1), pts[pts.len() - 1]),
    decreases pts.len() - i,
{
    if i == pts.len() {
        assert(pts.take(i - 1) =~= pts.take(pts.len() - 1));
    } else {
        let ret = pts.take(i - 1);
        assert(ret.last() == pts[i - 2]);
        assert(cross(pts[i - 2], pts[i - 1], pts[i]) != 0);
        assert(ret.push(pts[i - 1]) =~= pts.take(i));
        lemma_fixpoint_scan(pts, i + 1);
    }
}

/// With exact tolerance and no repeated input point, one condensation
/// pass leaves no three consecutive collinear points.
pub proof fn lemma_condense_condensed(pts: Seq<PointModel>)
    requires
        pairwise_distinct(pts),
    ensures
        condensed(condense_model(pts, 0)),
{
    if pts.len() < 3 {
    } else {
        lemma_scan_props(pts, 2, seq![pts[0]], pts[1], seq![0int]);
        let res = condense_scan(pts, 0, 2, seq![pts[0]], pts[1]);
        let out = res.0.push(res.1);
        assert(condensed(out)) by {
            assert forall|t: int| 2 <= t < out.len() implies cross(
                out[t - 2],
                out[t - 1],
                #[trigger] out[t],
            ) != 0 by {
                if t < res.0.len() {
                    assert(cross(res.0[t - 2], res.0[t - 1], res.0[t]) != 0);
                } else {
                    assert(out[t - 2] == res.0[res.0.len() - 2]);
                    assert(out[t - 1] == res.0[res.0.len() - 1]);
                    assert(out[t] == res.1);
                }
            }
        }
        assert(condense_model(pts, 0) == out);
    }
}

/// Idempotence of condensation, at exact tolerance, over inputs with no
/// repeated point: condensing a second time changes nothing.
pub proof fn lemma_condense_idempotent(pts: Seq<PointModel>)
    requires
        pairwise_distinct(pts),
    ensures
        condense_model(condense_model(pts, 0), 0) == condense_model(pts, 0),
{
    lemma_condense_condensed(pts);
    lemma_condensed_fixpoint(condense_model(pts, 0));
}

} // verus!
