//! The weapon state machine: ammunition, fire-rate cooldown and reload,
//! advanced once per tick by the shooter system.

use vstd::prelude::*;

verus! {

/// Ticks of one second of simulated time, the unit the fire rate is
/// quoted against.
pub const TICKS_PER_SECOND: u32 = 60;

/// The shot pattern a weapon fires.
#[derive(Clone, Copy, PartialEq, Eq, Structural, Debug)]
pub enum Shot {
    Single,
}

/// Immutable tuning data of a weapon, injected as configuration.
///
/// Times are counted in ticks; `fire_rate` is shots per second, so the
/// cooldown after a shot is `TICKS_PER_SECOND / fire_rate` ticks, the
/// quotient rounded down.
#[derive(Clone, Copy, PartialEq, Eq, Structural, Debug)]
pub struct WeaponDetails {
    pub damage: u32,
    /// Range of a projectile in fixed position units.
    pub distance: u32,
    /// Shots per second.
    pub fire_rate: u32,
    pub magazine_size: u32,
    /// Ticks a reload takes.
    pub reload_time: u32,
    /// Width of the spread cone, in hundredths of a radian.
    pub spread: u32,
    pub shot: Shot,
    /// Projectile speed in fixed velocity units per tick.
    pub bullet_speed: u32,
}

pub open spec fn weapon_details_wf(d: WeaponDetails) -> bool {
    &&& 1 <= d.fire_rate
    &&& 1 <= d.magazine_size
    &&& 1 <= d.bullet_speed <= 1_000_000
}

/// Ticks between two shots.
pub open spec fn spec_cooldown_ticks(d: WeaponDetails) -> int {
    TICKS_PER_SECOND as int / d.fire_rate as int
}

/// Runtime state of a weapon.
#[derive(Clone, Copy, PartialEq, Eq, Structural, Debug)]
pub enum WeaponState {
    /// Ready: a fire intention is honored if ammunition is left.
    Idle,
    /// Waiting out the fire-rate cooldown; fire intentions are rejected.
    Cooldown { remaining: u32 },
    /// Refilling the magazine; fire intentions are ignored, not queued.
    Reloading { remaining: u32 },
}

/// A weapon: its tuning data plus mutable runtime state.
#[derive(Clone, Copy, PartialEq, Eq, Structural, Debug)]
pub struct Weapon {
    pub details: WeaponDetails,
    pub ammo: u32,
    pub state: WeaponState,
}

pub open spec fn weapon_wf(w: Weapon) -> bool {
    &&& weapon_details_wf(w.details)
    &&& w.ammo <= w.details.magazine_size
}

impl Weapon {
    /// A fresh weapon with a full magazine, ready to fire.
    pub fn new(details: WeaponDetails) -> (r: Weapon)
        requires
            weapon_details_wf(details),
        ensures
            r.details == details,
            r.ammo == details.magazine_size,
            r.state == WeaponState::Idle,
            weapon_wf(r),
    {
        Weapon { details, ammo: details.magazine_size, state: WeaponState::Idle }
    }
}

/// Whether a fire intention is honored: only when the weapon is idle —
/// neither cooling down nor reloading — and ammunition is left.
pub open spec fn spec_can_fire(w: Weapon) -> bool {
    w.state == WeaponState::Idle && w.ammo > 0
}

/// The weapon after a honored shot: one round consumed and the
/// fire-rate cooldown restarted (skipped entirely when the fire rate
/// leaves no whole tick of cooldown).
pub open spec fn spec_after_shot(w: Weapon) -> Weapon {
    Weapon {
        details: w.details,
        ammo: (w.ammo - 1) as u32,
        state: if spec_cooldown_ticks(w.details) == 0 {
            WeaponState::Idle
        } else {
            WeaponState::Cooldown { remaining: spec_cooldown_ticks(w.details) as u32 }
        },
    }
}

/// Tries to honor a fire intention. Returns whether a shot leaves the
/// barrel: exactly when the weapon was idle with ammunition left. A
/// rejected intention changes nothing — firing with an empty magazine,
/// during cooldown or during a reload is refused, never queued.
pub fn try_fire(w: &mut Weapon) -> (fired: bool)
    requires
        weapon_wf(*old(w)),
    ensures
        fired == spec_can_fire(*old(w)),
        *final(w) == if spec_can_fire(*old(w)) { spec_after_shot(*old(w)) } else { *old(w) },
        weapon_wf(*final(w)),
{
    match w.state {
        WeaponState::Idle => {
            if w.ammo > 0 {
                let cooldown: u32 = TICKS_PER_SECOND / w.details.fire_rate;
                w.ammo = w.ammo - 1;
                w.state = if cooldown == 0 {
                    WeaponState::Idle
                } else {
                    WeaponState::Cooldown { remaining: cooldown }
                };
                true
            } else {
                false
            }
        },
        _ => false,
    }
}

/// Starts a reload if the weapon is idle; a reload intention during a
/// cooldown or an ongoing reload is ignored.
pub fn start_reload(w: &mut Weapon)
    requires
        weapon_wf(*old(w)),
    ensures
        *final(w) == if old(w).state == WeaponState::Idle {
            Weapon {
                details: old(w).details,
                ammo: old(w).ammo,
                state: WeaponState::Reloading { remaining: old(w).details.reload_time },
            }
        } else {
            *old(w)
        },
        weapon_wf(*final(w)),
{
    match w.state {
        WeaponState::Idle => {
            w.state = WeaponState::Reloading { remaining: w.details.reload_time };
        },
        _ => {},
    }
}

/// One tick of the weapon's timers.
pub open spec fn spec_weapon_tick(w: Weapon) -> Weapon {
    match w.state {
        WeaponState::Idle => if w.ammo == 0 {
            Weapon {
                details: w.details,
                ammo: w.ammo,
                state: WeaponState::Reloading { remaining: w.details.reload_time },
            }
        } else {
            w
        },
        WeaponState::Cooldown { remaining } => Weapon {
            details: w.details,
            ammo: w.ammo,
            state: if remaining <= 1 {
                WeaponState::Idle
            } else {
                WeaponState::Cooldown { remaining: (remaining - 1) as u32 }
            },
        },
        WeaponState::Reloading { remaining } => if remaining <= 1 {
            Weapon { details: w.details, ammo: w.details.magazine_size, state: WeaponState::Idle }
        } else {
            Weapon {
                details: w.details,
                ammo: w.ammo,
                state: WeaponState::Reloading { remaining: (remaining - 1) as u32 },
            }
        },
    }
}

/// Advances the weapon's timers by one tick: a finished cooldown
/// returns to idle, an empty idle magazine starts a reload, and a
/// finished reload restores the full magazine.
pub fn weapon_tick(w: &mut Weapon)
    requires
        weapon_wf(*old(w)),
    ensures
        *final(w) == spec_weapon_tick(*old(w)),
        weapon_wf(*final(w)),
{
    match w.state {
        WeaponState::Idle => {
            if w.ammo == 0 {
                w.state = WeaponState::Reloading { remaining: w.details.reload_time };
            }
        },
        WeaponState::Cooldown { remaining } => {
            if remaining <= 1 {
                w.state = WeaponState::Idle;
            } else {
                w.state = WeaponState::Cooldown { remaining: remaining - 1 };
            }
        },
        WeaponState::Reloading { remaining } => {
            if remaining <= 1 {
                w.ammo = w.details.magazine_size;
                w.state = WeaponState::Idle;
            } else {
                w.state = WeaponState::Reloading { remaining: remaining - 1 };
            }
        },
    }
}

/// The weapon after one tick followed by the tick's intentions: fire
/// wins over reload; a fire intention is honored exactly when the
/// ticked weapon may fire; a reload intention is honored only from
/// idle.
pub open spec fn spec_weapon_intent(w: Weapon, fire: bool, reload: bool) -> (Weapon, bool) {
    let w1 = spec_weapon_tick(w);
    if fire && spec_can_fire(w1) {
        (spec_after_shot(w1), true)
    } else if reload && w1.state == WeaponState::Idle && w1.ammo < w1.details.magazine_size {
        (
            Weapon {
                details: w1.details,
                ammo: w1.ammo,
                state: WeaponState::Reloading { remaining: w1.details.reload_time },
            },
            false,
        )
    } else {
        (w1, false)
    }
}

/// Advances the weapon one tick and applies the tick's fire and reload
/// intentions. Returns whether a shot leaves the barrel.
pub fn weapon_intent(w: &mut Weapon, fire: bool, reload: bool) -> (fired: bool)
    requires
        weapon_wf(*old(w)),
    ensures
        (*final(w), fired) == spec_weapon_intent(*old(w), fire, reload),
        weapon_wf(*final(w)),
{
    weapon_tick(w);
    let mut fired = false;
    if fire {
        fired = try_fire(w);
    }
    if !fired && reload && matches!(w.state, WeaponState::Idle) && w.ammo
        < w.details.magazine_size {
        w.state = WeaponState::Reloading { remaining: w.details.reload_time };
    }
    fired
}

/// The weapon after `n` ticks with no intention arriving.
pub open spec fn spec_weapon_tick_n(w: Weapon, n: nat) -> Weapon
    decreases n,
{
    if n == 0 {
        w
    } else {
        spec_weapon_tick(spec_weapon_tick_n(w, (n - 1) as nat))
    }
}

/// Once a reload has started, exactly its remaining ticks later the
/// magazine is full again and the weapon is ready to fire.
pub proof fn lemma_reload_completes(w: Weapon, r: u32)
    requires
        weapon_wf(w),
        w.state == (WeaponState::Reloading { remaining: r }),
        r >= 1,
    ensures
        spec_weapon_tick_n(w, r as nat).ammo == w.details.magazine_size,
        spec_weapon_tick_n(w, r as nat).state == WeaponState::Idle,
        spec_weapon_tick_n(w, r as nat).details == w.details,
    decreases r,
{
    if r == 1 {
        assert(spec_weapon_tick_n(w, 1) == spec_weapon_tick(spec_weapon_tick_n(w, 0)));
        assert(spec_weapon_tick_n(w, 0) == w);
    } else {
        let w1 = spec_weapon_tick(w);
        assert(w1.state == WeaponState::Reloading { remaining: (r - 1) as u32 });
        lemma_reload_completes(w1, (r - 1) as u32);
        lemma_tick_n_shift(w, (r - 1) as nat);
    }
}

/// Ticking `n + 1` times is ticking once, then `n` times.
pub proof fn lemma_tick_n_shift(w: Weapon, n: nat)
    ensures
        spec_weapon_tick_n(w, n + 1) == spec_weapon_tick_n(spec_weapon_tick(w), n),
    decreases n,
{
    if n == 0 {
        assert(spec_weapon_tick_n(w, 1) == spec_weapon_tick(spec_weapon_tick_n(w, 0)));
        assert(spec_weapon_tick_n(spec_weapon_tick(w), 0) == spec_weapon_tick(w));
    } else {
        lemma_tick_n_shift(w, (n - 1) as nat);
        assert(spec_weapon_tick_n(w, n + 1) == spec_weapon_tick(spec_weapon_tick_n(w, n)));
        assert(spec_weapon_tick_n(spec_weapon_tick(w), n) == spec_weapon_tick(
            spec_weapon_tick_n(spec_weapon_tick(w), (n - 1) as nat),
        ));
    }
}

} // verus!
