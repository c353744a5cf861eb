//! Bounding circles and the exact overlap test of the broad collision
//! phase.

use vstd::prelude::*;
use crate::math::Vector2;
use crate::movement::WORLD_BOUND;

verus! {

/// Greatest collision radius the world admits, in fixed position units.
pub const MAX_RADIUS: u32 = 1_000_000;

/// The collision volume of an entity: a circle around its position.
#[derive(Clone, Copy, PartialEq, Eq, Structural, Debug)]
pub struct BoundingCircle {
    /// Radius in fixed position units; always positive.
    pub radius: u32,
}

pub open spec fn circle_wf(c: BoundingCircle) -> bool {
    1 <= c.radius <= MAX_RADIUS
}

/// Two circles overlap when the distance of their centers is less than
/// the sum of their radii; squared on both sides, which is exact in
/// integers.
pub open spec fn spec_circles_overlap(
    pa: Vector2,
    ca: BoundingCircle,
    pb: Vector2,
    cb: BoundingCircle,
) -> bool {
    let dx = pa.x - pb.x;
    let dy = pa.y - pb.y;
    let rsum = ca.radius + cb.radius;
    dx * dx + dy * dy < rsum * rsum
}

/// The exact overlap test of the broad phase.
pub fn circles_overlap(pa: Vector2, ca: BoundingCircle, pb: Vector2, cb: BoundingCircle) -> (r:
    bool)
    requires
        circle_wf(ca),
        circle_wf(cb),
        -WORLD_BOUND <= pa.x <= WORLD_BOUND,
        -WORLD_BOUND <= pa.y <= WORLD_BOUND,
        -WORLD_BOUND <= pb.x <= WORLD_BOUND,
        -WORLD_BOUND <= pb.y <= WORLD_BOUND,
    ensures
        r == spec_circles_overlap(pa, ca, pb, cb),
{
    let dx: i64 = pa.x - pb.x;
    let dy: i64 = pa.y - pb.y;
    proof {
        assert(dx * dx <= 4_000_000_000_000_000_000 && dx * dx >= 0
            && dy * dy <= 4_000_000_000_000_000_000 && dy * dy >= 0) by (nonlinear_arith)
            requires
                -2_000_000_000 <= dx <= 2_000_000_000,
                -2_000_000_000 <= dy <= 2_000_000_000;
    }
    let dist_sq: i64 = dx * dx + dy * dy;
    let rsum: u32 = ca.radius + cb.radius;
    proof {
        assert(rsum as i64 * (rsum as i64) <= 4_000_000_000_000 && rsum as i64 * (rsum as i64)
            >= 0) by (nonlinear_arith)
            requires 0 <= rsum <= 2_000_000;
    }
    let rsum_sq: i64 = (rsum as i64) * (rsum as i64);
    dist_sq < rsum_sq
}

} // verus!
