//! Cubic Bézier curves given by four control points.
use vstd::prelude::*;

verus! {

/// A cubic Bézier curve: it starts at `p0`, ends at `p3`, and is pulled
/// towards `p1` and `p2`.
#[derive(Copy, Clone, Debug)]
pub struct Bezier {
    pub p0: (i32, i32),
    pub p1: (i32, i32),
    pub p2: (i32, i32),
    pub p3: (i32, i32),
}

impl Bezier {
    /// The curve with control points `p0`, `p1`, `p2`, `p3`.
    pub fn new(p0: (i32, i32), p1: (i32, i32), p2: (i32, i32), p3: (i32, i32)) -> (b: Self)
        ensures
            b.p0 == p0,
            b.p1 == p1,
            b.p2 == p2,
            b.p3 == p3,
    {
        Self { p0, p1, p2, p3 }
    }
}

} // verus!
