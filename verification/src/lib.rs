//! A verified core for L-system fractal curves.
//!
//! The pipeline turns a seed sequence of grammar symbols into a
//! simplified polyline: the rewriting engine expands the seed through
//! per-symbol production rules, the reification interpreter walks the
//! expanded sequence with a turtle state and emits one point per drawing
//! symbol, and the collinearity condenser removes interior points that lie
//! on the segment between their neighbours.
//!
//! Geometry is carried in fixed-point coordinates (`Point2`, with integer
//! `x` and `y`); callers pick a scale and hand the interpreter a table of
//! step vectors, one per heading.
//!
//! Two further pieces sit beside the grammar pipeline: the Hilbert curve,
//! which is computed arithmetically rather than by rewriting, and a
//! fixed-capacity ring buffer used to bound histories in interactive
//! front ends.

pub mod point;
pub mod collinear;
pub mod l_system;
pub mod koch;
pub mod dragon;
pub mod terdragon;
pub mod gosper;
pub mod peano;
pub mod sierpinski;
pub mod hilbert;
pub mod ring_buffer;
