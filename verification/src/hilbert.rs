//! The Hilbert curve, computed arithmetically.
//!
//! Unlike the grammar-driven curves, the Hilbert curve is produced by the
//! classic distance-to-coordinates conversion: `d2xy` turns an index along
//! the curve into a grid cell by peeling two bits per refinement level,
//! and `HilbertIterator` walks consecutive index pairs to yield the grid
//! segments of one refinement depth.

use vstd::prelude::*;

use vstd::arithmetic::power::{pow, lemma_pow_increases};

verus! {

/// `4^15` written out, so distance counts are known to fit a machine
/// word even on 32-bit targets.
proof fn lemma_pow4_15()
    ensures
        pow(4, 15nat) == 0x4000_0000,
{
    reveal_with_fuel(pow, 16);
}

/// `2^30` written out, so grid widths are known to fit a machine word
/// even on 32-bit targets.
proof fn lemma_pow2_30()
    ensures
        pow(2, 30nat) == 0x4000_0000,
{
    reveal_with_fuel(pow, 31);
}

/// A cell of the `n` by `n` Hilbert grid.
#[derive(Clone, Copy, Debug, PartialEq, Eq, Structural)]
pub struct Point {
    pub x: usize,
    pub y: usize,
}

impl Point {
    /// The column of the cell.
    pub fn x(&self) -> (r: usize)
        ensures
            r == self.x,
    {
        self.x
    }

    /// The row of the cell.
    pub fn y(&self) -> (r: usize)
        ensures
            r == self.y,
    {
        self.y
    }
}

/// One quadrant rotation of the conversion: for the lower quadrants
/// (`ry == 0`) the cell is mirrored when `rx == 1` and then transposed.
pub open spec fn rot_model(n: int, x: int, y: int, rx: int, ry: int) -> (int, int) {
    if ry == 0 {
        if rx == 1 {
            (n - 1 - y, n - 1 - x)
        } else {
            (y, x)
        }
    } else {
        (x, y)
    }
}

/// The distance-to-coordinates conversion, one refinement level per step:
/// at level width `s` the two low quadrant bits of `t` pick and orient a
/// quadrant, until the level width reaches the grid width `n`.
pub open spec fn d2xy_model(n: int, t: int, x: int, y: int, s: int) -> (int, int)
    decreases (if s < n { n - s } else { 0 }),
{
    if s <= 0 || s >= n {
        (x, y)
    } else {
        let rx = (t / 2) % 2;
        let ry = (t % 2 + rx) % 2;
        let (x1, y1) = rot_model(s, x, y, rx, ry);
        d2xy_model(n, t / 4, x1 + s * rx, y1 + s * ry, 2 * s)
    }
}

/// The quadrant rotation used by `d2xy`.
fn rot(n: usize, mut pt: Point, rx: usize, ry: usize) -> (r: Point)
    requires
        1 <= n,
        pt.x < n,
        pt.y < n,
    ensures
        (r.x as int, r.y as int) == rot_model(n as int, pt.x as int, pt.y as int, rx as int, ry as int),
        r.x < n,
        r.y < n,
{
    if ry == 0 {
        if rx == 1 {
            pt.x = n - 1 - pt.x;
            pt.y = n - 1 - pt.y;
        }
        let tmp = pt.x;
        pt.x = pt.y;
        pt.y = tmp;
    }
    pt
}

/// Converts a distance `d` along the Hilbert curve of an `n` by `n` grid
/// (`n` a power of two) into the coordinates of the visited cell.
pub fn d2xy(n: usize, d: usize) -> (pt: Point)
    requires
        n <= 0x4000_0000,
    ensures
        (pt.x as int, pt.y as int) == d2xy_model(n as int, d as int, 0, 0, 1),
{
    let mut t = d;
    let mut pt = Point { x: 0, y: 0 };
    let mut s: usize = 1;

    while s < n
        invariant
            1 <= s,
            n <= 0x4000_0000,
            pt.x < s,
            pt.y < s,
            d2xy_model(n as int, t as int, pt.x as int, pt.y as int, s as int)
                == d2xy_model(n as int, d as int, 0, 0, 1),
        decreases (if s < n { n as int - s as int } else { 0int }),
    {
        let rx = (t / 2) % 2;
        let ry = (t % 2 + rx) % 2;
        proof {
            assert(rx == 0 || rx == 1);
            assert(ry == 0 || ry == 1);
            assert(s * 0 == 0 && s * 1 == s);
        }
        pt = rot(s, pt, rx, ry);
        pt.x += s * rx;
        pt.y += s * ry;
        t /= 4;
        s *= 2;
    }
    pt
}

/// Walks the segments of the Hilbert curve at a chosen refinement depth.
#[derive(Clone, Copy, Debug, PartialEq, Eq, Structural)]
pub struct HilbertIterator {
    pub iteration: usize,
    pub d: usize,
}

impl HilbertIterator {
    /// The walk of the zeroth refinement depth: a single cell, no segments.
    pub fn new() -> (r: Self)
        ensures
            r.iteration == 0,
            r.d == 0,
    {
        Self::new_with_iteration(0)
    }

    /// Starts the walk of refinement depth `iteration` from the origin cell.
    #[inline]
    pub fn new_with_iteration(iteration: usize) -> (r: Self)
        ensures
            r.iteration == iteration,
            r.d == 0,
    {
        HilbertIterator { iteration, d: 0 }
    }

    /// The largest distance on this iterator's grid: `4^iteration - 1`.
    pub fn d_max(&self) -> (r: usize)
        requires
            self.iteration <= 15,
        ensures
            r as int == pow(4, self.iteration as nat) - 1,
    {
        let mut acc: usize = 1;
        let k = self.iteration;
        assert(pow(4, 0nat) == 1) by {
            reveal(pow);
        }
        for j in 0..k
            invariant
                k <= 15,
                1 <= acc,
                acc as int == pow(4, j as nat),
        {
            proof {
                lemma_pow_increases(4, (j + 1) as nat, 15nat);
                lemma_pow4_15();
                assert(pow(4, (j + 1) as nat) == 4 * pow(4, j as nat)) by {
                    reveal(pow);
                }
            }
            acc = acc * 4;
        }
        acc - 1
    }

    /// The width of this iterator's grid: `2^iteration`.
    pub fn n(&self) -> (r: usize)
        requires
            self.iteration <= 30,
        ensures
            r as int == pow(2, self.iteration as nat),
    {
        let mut acc: usize = 1;
        let k = self.iteration;
        assert(pow(2, 0nat) == 1) by {
            reveal(pow);
        }
        for j in 0..k
            invariant
                k <= 30,
                1 <= acc,
                acc as int == pow(2, j as nat),
        {
            proof {
                lemma_pow_increases(2, (j + 1) as nat, 30nat);
                lemma_pow2_30();
                assert(pow(2, (j + 1) as nat) == 2 * pow(2, j as nat)) by {
                    reveal(pow);
                }
            }
            acc = acc * 2;
        }
        acc
    }

    /// The segment from distance `d` to `d + 1`, or `None` once the walk
    /// has passed the last cell; advances the walk either way.
    pub fn next(&mut self) -> (r: Option<(Point, Point)>)
        requires
            old(self).iteration <= 15,
            old(self).d < usize::MAX,
        ensures
            final(self).iteration == old(self).iteration,
            final(self).d == old(self).d + 1,
            ({
                let side = pow(2, old(self).iteration as nat);
                if old(self).d + 1 > pow(4, old(self).iteration as nat) - 1 {
                    r is None
                } else {
                    r matches Some((a, b))
                        && (a.x as int, a.y as int) == d2xy_model(side, old(self).d as int, 0, 0, 1)
                        && (b.x as int, b.y as int) == d2xy_model(side, old(self).d + 1, 0, 0, 1)
                }
            }),
    {
        let n = self.n();
        proof {
            lemma_pow_increases(2, self.iteration as nat, 30nat);
            lemma_pow2_30();
        }
        let pt_0 = d2xy(n, self.d);
        self.d += 1;
        let pt_1 = d2xy(n, self.d);

        if self.d > self.d_max() {
            None
        } else {
            Some((pt_0, pt_1))
        }
    }
}

} // verus!
