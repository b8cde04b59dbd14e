//! Fixed-point 2D points and their mathematical model.
//!
//! Executable code carries `Point2`, a pair of `i64` fixed-point
//! coordinates; contracts speak of `PointModel`, the same point with
//! unbounded integer coordinates, reached through `deep_view`.

use vstd::prelude::*;

verus! {

/// A point of the plane in fixed-point coordinates.
///
/// The scale (how many units of `x` make one geometric unit) is chosen by
/// the caller and never inspected here: every operation in this crate is
/// scale-invariant.
#[derive(Clone, Copy, Debug, PartialEq, Eq, Structural)]
pub struct Point2 {
    pub x: i64,
    pub y: i64,
}

/// The mathematical shadow of a `Point2`: coordinates as unbounded integers.
pub ghost struct PointModel {
    pub x: int,
    pub y: int,
}

impl View for Point2 {
    type V = PointModel;

    open spec fn view(&self) -> PointModel {
        PointModel { x: self.x as int, y: self.y as int }
    }
}

impl DeepView for Point2 {
    type V = PointModel;

    open spec fn deep_view(&self) -> PointModel {
        self.view()
    }
}

/// Componentwise sum of two model points.
pub open spec fn pm_add(a: PointModel, b: PointModel) -> PointModel {
    PointModel { x: a.x + b.x, y: a.y + b.y }
}

/// Both coordinates of `p` lie within `bound` of zero.
pub open spec fn pm_in_range(p: PointModel, bound: int) -> bool {
    -bound <= p.x <= bound && -bound <= p.y <= bound
}

/// Every point of `pts` lies within `bound` of the origin on both axes.
pub open spec fn all_in_range(pts: Seq<PointModel>, bound: int) -> bool {
    forall|k: int| 0 <= k < pts.len() ==> pm_in_range(#[trigger] pts[k], bound)
}

/// Coordinates handed to this crate's geometry must stay within this bound:
/// positions then fit `i64` with room to grow by one step, and the
/// condenser's cross products fit comfortably in `i128` arithmetic.
pub const MAX_COORD: i64 = 0x1000_0000_0000_0000;

} // verus!
