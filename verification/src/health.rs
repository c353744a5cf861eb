//! Health points and the damage arithmetic of the health system.

use vstd::prelude::*;

verus! {

/// Current and maximum health of a damageable entity.
#[derive(Clone, Copy, PartialEq, Eq, Structural, Debug)]
pub struct Health {
    pub current: u32,
    pub max: u32,
}

pub open spec fn health_wf(h: Health) -> bool {
    h.current <= h.max
}

/// A damage amount queued against one entity, keyed by its store index.
#[derive(Clone, Copy, PartialEq, Eq, Structural, Debug)]
pub struct DamageEvent {
    pub target: usize,
    pub amount: u32,
}

impl Health {
    /// Full health at the given maximum.
    pub fn full(max: u32) -> (r: Health)
        ensures
            r.current == max && r.max == max,
            health_wf(r),
    {
        Health { current: max, max }
    }
}

/// The health left after taking a hit, floored at zero.
pub open spec fn spec_after_damage(h: Health, amount: u32) -> Health {
    Health { current: if h.current >= amount { (h.current - amount) as u32 } else { 0 }, max: h.max }
}

/// Applies one damage amount; health never goes below zero.
pub fn apply_damage(h: &mut Health, amount: u32)
    requires
        health_wf(*old(h)),
    ensures
        *final(h) == spec_after_damage(*old(h), amount),
        health_wf(*final(h)),
{
    if h.current >= amount {
        h.current = h.current - amount;
    } else {
        h.current = 0;
    }
}

} // verus!
