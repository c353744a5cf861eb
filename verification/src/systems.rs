//! The per-tick systems that walk the entity store, in pipeline order:
//! movement, physics, shooter, collision, health, respawn, lifespan.

use vstd::prelude::*;
use crate::health::{DamageEvent, apply_damage, spec_after_damage};
use crate::math::Vector2;
use crate::movement::{
    PlayerMovementSystem, Transform, Velocity, WORLD_BOUND, rotate_toward_mouse,
    spec_rotate_toward, spec_world_velocity, update_velocity,
};
use crate::world::{Entity, EntityKind, World, kill_entity, spec_kill, world_wf};

verus! {

/// Whether the movement system acts on an entity: a live,
/// non-dead player.
pub open spec fn spec_moves(e: Entity) -> bool {
    e.alive && !e.dead && e.kind == EntityKind::Player
}

/// One movement step of a single entity: face the aim target, then
/// recompute the velocity from the intention and the new facing.
/// Entities the system does not act on are left exactly as they are.
pub open spec fn spec_movement_step(e: Entity) -> Entity {
    if spec_moves(e) {
        let t = spec_rotate_toward(e.transform, e.input.aim.x as int, e.input.aim.y as int);
        Entity { transform: t, velocity: spec_world_velocity(e.input, t.rotation), ..e }
    } else {
        e
    }
}

impl PlayerMovementSystem {
    /// One tick of the movement system over every entity.
    pub fn run(&mut self, world: &mut World)
        requires
            world_wf(*old(world)),
        ensures
            world_wf(*final(world)),
            final(world).capacity == old(world).capacity,
            final(world).removed_this_tick == old(world).removed_this_tick,
            final(world).entities@.len() == old(world).entities@.len(),
            forall|j: int| 0 <= j < old(world).entities@.len()
                ==> final(world).entities@[j] == spec_movement_step(old(world).entities@[j]),
    {
        let ghost orig = world.entities@;
        let mut i: usize = 0;
        while i < world.entities.len()
            invariant
                world_wf(*world),
                world.entities@.len() == orig.len(),
                world.capacity == old(world).capacity,
                world.removed_this_tick == old(world).removed_this_tick,
                0 <= i <= orig.len(),
                forall|j: int| 0 <= j < i ==> world.entities@[j] == spec_movement_step(orig[j]),
                forall|j: int| i <= j < orig.len() ==> world.entities@[j] == orig[j],
            decreases orig.len() - i,
        {
            let e = world.entities[i];
            if e.alive && !e.dead && matches!(e.kind, EntityKind::Player) {
                let mut e2 = e;
                rotate_toward_mouse(&mut e2.transform, (e2.input.aim.x, e2.input.aim.y));
                update_velocity(&e2.transform, &e2.input, &mut e2.velocity);
                world.entities.set(i, e2);
                proof {
                    assert(world.entities@[i as int] == spec_movement_step(orig[i as int]));
                }
            }
            i += 1;
        }
    }
}

/// Clamps a coordinate into the world.
pub open spec fn spec_clamp_coord(v: int) -> int {
    if v < -WORLD_BOUND {
        -WORLD_BOUND as int
    } else if v > WORLD_BOUND {
        WORLD_BOUND as int
    } else {
        v
    }
}

/// One physics step of a single entity: the velocity integrated into
/// the position over one tick, held inside the world's bounds. Removed
/// and dead entities do not move.
pub open spec fn spec_physics_step(e: Entity) -> Entity {
    if e.alive && !e.dead {
        Entity {
            transform: Transform {
                position: Vector2 {
                    x: spec_clamp_coord(e.transform.position.x + e.velocity.0.x) as i64,
                    y: spec_clamp_coord(e.transform.position.y + e.velocity.0.y) as i64,
                },
                rotation: e.transform.rotation,
            },
            ..e
        }
    } else {
        e
    }
}

/// Integrates velocities into positions: one tick of physics.
pub struct PhysicsSystem;

impl PhysicsSystem {
    pub fn run(&mut self, world: &mut World)
        requires
            world_wf(*old(world)),
        ensures
            world_wf(*final(world)),
            final(world).capacity == old(world).capacity,
            final(world).removed_this_tick == old(world).removed_this_tick,
            final(world).entities@.len() == old(world).entities@.len(),
            forall|j: int| 0 <= j < old(world).entities@.len()
                ==> final(world).entities@[j] == spec_physics_step(old(world).entities@[j]),
    {
        let ghost orig = world.entities@;
        let mut i: usize = 0;
        while i < world.entities.len()
            invariant
                world_wf(*world),
                world.entities@.len() == orig.len(),
                world.capacity == old(world).capacity,
                world.removed_this_tick == old(world).removed_this_tick,
                0 <= i <= orig.len(),
                forall|j: int| 0 <= j < i ==> world.entities@[j] == spec_physics_step(orig[j]),
                forall|j: int| i <= j < orig.len() ==> world.entities@[j] == orig[j],
            decreases orig.len() - i,
        {
            let e = world.entities[i];
            if e.alive && !e.dead {
                let mut e2 = e;
                let nx: i64 = e.transform.position.x + e.velocity.0.x;
                let ny: i64 = e.transform.position.y + e.velocity.0.y;
                let cx: i64 = if nx < -WORLD_BOUND {
                    -WORLD_BOUND
                } else if nx > WORLD_BOUND {
                    WORLD_BOUND
                } else {
                    nx
                };
                let cy: i64 = if ny < -WORLD_BOUND {
                    -WORLD_BOUND
                } else if ny > WORLD_BOUND {
                    WORLD_BOUND
                } else {
                    ny
                };
                e2.transform = Transform {
                    position: Vector2 { x: cx, y: cy },
                    rotation: e.transform.rotation,
                };
                world.entities.set(i, e2);
            }
            i += 1;
        }
    }
}

/// Whether an entity's time to live runs out this tick.
pub open spec fn spec_expires(e: Entity) -> bool {
    e.alive && match e.lifespan {
        Some(n) => n <= 1,
        None => false,
    }
}

/// One lifespan step of a single entity: the counter goes down one
/// tick; the entity is removed the moment it reaches zero.
pub open spec fn spec_lifespan_step(e: Entity) -> Entity {
    if e.alive && e.lifespan is Some {
        let n = e.lifespan->0;
        let left: u32 = if n >= 1 { (n - 1) as u32 } else { 0 };
        Entity { lifespan: Some(left), alive: left >= 1, ..e }
    } else {
        e
    }
}

/// The entity after `n` lifespan steps.
pub open spec fn spec_lifespan_step_n(e: Entity, n: nat) -> Entity
    decreases n,
{
    if n == 0 {
        e
    } else {
        spec_lifespan_step(spec_lifespan_step_n(e, (n - 1) as nat))
    }
}

/// A live entity whose time to live starts at `n` survives each of
/// the first `n - 1` lifespan ticks — with its counter counted down
/// exactly — and is removed by the `n`-th tick, never earlier and
/// never later.
pub proof fn lemma_lifespan_expires_exactly(e: Entity, n: u32, k: nat)
    requires
        e.alive,
        e.lifespan == Some(n),
        n >= 1,
        k <= n,
    ensures
        k < n ==> spec_lifespan_step_n(e, k).alive && spec_lifespan_step_n(e, k).lifespan
            == Some((n - k) as u32),
        k == n ==> !spec_lifespan_step_n(e, k).alive,
    decreases k,
{
    if k > 0 {
        lemma_lifespan_expires_exactly(e, n, (k - 1) as nat);
        let prev = spec_lifespan_step_n(e, (k - 1) as nat);
        assert(spec_lifespan_step_n(e, k) == spec_lifespan_step(prev));
    }
}

/// Expires entities whose time to live has elapsed: the counter is
/// decremented once per tick, and an entity whose counter reaches zero
/// is removed in that same tick — its slot joins the removed set the
/// delete broadcaster reads. Removal is idempotent: an entity already
/// removed is never touched again.
pub struct LifespanSystem;

impl LifespanSystem {
    pub fn run(&mut self, world: &mut World)
        requires
            world_wf(*old(world)),
        ensures
            world_wf(*final(world)),
            final(world).capacity == old(world).capacity,
            final(world).entities@.len() == old(world).entities@.len(),
            forall|j: int| 0 <= j < old(world).entities@.len()
                ==> final(world).entities@[j] == spec_lifespan_step(old(world).entities@[j]),
            forall|x: usize| final(world).removed_this_tick@.contains(x)
                <==> old(world).removed_this_tick@.contains(x) || (x
                < old(world).entities@.len() && spec_expires(old(world).entities@[x as int])),
    {
        let ghost orig = world.entities@;
        let ghost orig_removed = world.removed_this_tick@;
        let mut i: usize = 0;
        while i < world.entities.len()
            invariant
                world_wf(*world),
                world.entities@.len() == orig.len(),
                world.capacity == old(world).capacity,
                0 <= i <= orig.len(),
                forall|j: int| 0 <= j < i ==> world.entities@[j] == spec_lifespan_step(orig[j]),
                forall|j: int| i <= j < orig.len() ==> world.entities@[j] == orig[j],
                forall|x: usize| world.removed_this_tick@.contains(x) <==> orig_removed.contains(x)
                    || (x < i && spec_expires(orig[x as int])),
            decreases orig.len() - i,
        {
            let e = world.entities[i];
            let ghost rem_entry = world.removed_this_tick@;
            proof {
                assert(e == orig[i as int]);
                assert(forall|x: usize| #![auto] rem_entry.contains(x) <==> orig_removed.contains(
                    x,
                ) || (x < i && spec_expires(orig[x as int])));
            }
            if e.alive && e.lifespan.is_some() {
                let n: u32 = e.lifespan.unwrap();
                let left: u32 = if n >= 1 { n - 1 } else { 0 };
                let mut e2 = e;
                e2.lifespan = Some(left);
                world.entities.set(i, e2);
                if left == 0 {
                    let ghost before = world.removed_this_tick@;
                    proof {
                        assert(forall|x: usize| #![auto] before.contains(x)
                            <==> orig_removed.contains(x) || (x < i && spec_expires(
                            orig[x as int],
                        )));
                    }
                    world.remove(i);
                    proof {
                        assert(world.removed_this_tick@ == before.push(i));
                        assert(spec_expires(orig[i as int]));
                        assert forall|x: usize| #[trigger] world.removed_this_tick@.contains(x)
                            implies orig_removed.contains(x) || (x < i + 1 && spec_expires(
                            orig[x as int],
                        )) by {
                            let k = choose|k: int| 0 <= k < world.removed_this_tick@.len()
                                && world.removed_this_tick@[k] == x;
                            if k < before.len() {
                                assert(before[k] == x);
                                assert(before.contains(x));
                            } else {
                                assert(x == i);
                            }
                        }
                        assert forall|x: usize| orig_removed.contains(x) || (x < i + 1
                            && spec_expires(orig[x as int])) implies
                            #[trigger] world.removed_this_tick@.contains(x) by {
                            if orig_removed.contains(x) || (x < i && spec_expires(orig[x as int])) {
                                assert(before.contains(x));
                                let k = choose|k: int| 0 <= k < before.len() && before[k] == x;
                                assert(world.removed_this_tick@[k] == x);
                            } else {
                                assert(x == i);
                                assert(world.removed_this_tick@[before.len() as int] == i);
                            }
                        }
                    }
                } else {
                    proof {
                        assert(!spec_expires(orig[i as int]));
                        assert(world.removed_this_tick@ == rem_entry);
                        assert forall|x: usize| world.removed_this_tick@.contains(x)
                            <==> orig_removed.contains(x) || (x < i + 1 && spec_expires(
                            orig[x as int],
                        )) by {
                            assert(rem_entry.contains(x) <==> orig_removed.contains(x) || (x < i
                                && spec_expires(orig[x as int])));
                            if x == i {
                                assert(!spec_expires(orig[x as int]));
                            }
                        }
                    }
                }
            } else {
                proof {
                    assert(!spec_expires(orig[i as int]));
                    assert(world.removed_this_tick@ == rem_entry);
                    assert forall|x: usize| world.removed_this_tick@.contains(x)
                        <==> orig_removed.contains(x) || (x < i + 1 && spec_expires(
                        orig[x as int],
                    )) by {
                        assert(rem_entry.contains(x) <==> orig_removed.contains(x) || (x < i
                            && spec_expires(orig[x as int])));
                        if x == i {
                            assert(!spec_expires(orig[x as int]));
                        }
                    }
                }
            }
            i += 1;
        }
        proof {
            assert(i == orig.len());
            assert forall|x: usize| world.removed_this_tick@.contains(x)
                <==> old(world).removed_this_tick@.contains(x) || (x < old(
                world,
            ).entities@.len() && spec_expires(old(world).entities@[x as int])) by {
                assert(world.removed_this_tick@.contains(x) <==> orig_removed.contains(x) || (x
                    < i && spec_expires(orig[x as int])));
            }
        }
    }
}

/// One queued damage event applied to the store: the target's health
/// drops, floored at zero, and an entity whose health reaches zero
/// takes the death transition. Damage against a slot that is out of
/// range, removed, or without health is discarded silently — an
/// expected race, not an error.
pub open spec fn spec_damage_step(s: Seq<Entity>, ev: DamageEvent) -> Seq<Entity> {
    if ev.target < s.len() && s[ev.target as int].alive && s[ev.target as int].health is Some {
        let e = s[ev.target as int];
        let h2 = spec_after_damage(e.health->0, ev.amount);
        let e2 = Entity { health: Some(h2), ..e };
        let e3 = if h2.current == 0 {
            spec_kill(e2)
        } else {
            e2
        };
        s.update(ev.target as int, e3)
    } else {
        s
    }
}

/// The store after the first `k` damage events, in order.
pub open spec fn spec_damage_fold(s: Seq<Entity>, evs: Seq<DamageEvent>, k: int) -> Seq<Entity>
    decreases k,
{
    if k <= 0 {
        s
    } else {
        spec_damage_step(spec_damage_fold(s, evs, k - 1), evs[k - 1])
    }
}

/// Applies the tick's queued damage and performs death transitions.
pub struct HealthSystem;

impl HealthSystem {
    pub fn run(&mut self, world: &mut World, damages: &Vec<DamageEvent>)
        requires
            world_wf(*old(world)),
        ensures
            world_wf(*final(world)),
            final(world).capacity == old(world).capacity,
            final(world).removed_this_tick == old(world).removed_this_tick,
            final(world).entities@ == spec_damage_fold(
                old(world).entities@,
                damages@,
                damages@.len() as int,
            ),
    {
        let ghost orig = world.entities@;
        let mut k: usize = 0;
        while k < damages.len()
            invariant
                world_wf(*world),
                world.capacity == old(world).capacity,
                world.removed_this_tick == old(world).removed_this_tick,
                0 <= k <= damages@.len(),
                world.entities@ == spec_damage_fold(orig, damages@, k as int),
            decreases damages@.len() - k,
        {
            let ev = damages[k];
            if ev.target < world.entities.len() {
                let e = world.entities[ev.target];
                if e.alive && e.health.is_some() {
                    let mut e2 = e;
                    let mut h = e.health.unwrap();
                    apply_damage(&mut h, ev.amount);
                    e2.health = Some(h);
                    if h.current == 0 {
                        kill_entity(&mut e2);
                    }
                    world.entities.set(ev.target, e2);
                }
            }
            k += 1;
        }
    }
}

/// Whether the shooter system honors an entity's fire intention this
/// tick is decided by the weapon alone; this is who gets asked: a
/// live, non-dead player with a weapon.
pub open spec fn spec_armed(e: Entity) -> bool {
    e.alive && !e.dead && e.kind == EntityKind::Player && e.weapon is Some
}

/// Collision radius of a projectile, in fixed position units: one
/// world unit times the fixed-point scale of 12.
pub const PROJECTILE_BOUNDING_RADIUS: u32 = 12;

/// The lateral velocity offset a sampled spread angle gives a shot,
/// clamped into the weapon's cone. The caller samples the angle (a
/// source of randomness the deterministic core does not own); with
/// `spread` in hundredths of a radian, the small-angle lateral
/// component is at most `bullet_speed * spread / 200` on either side,
/// and never beyond the world's velocity bound.
pub open spec fn spec_spread_lateral(d: crate::weapon::WeaponDetails, sample: int) -> int {
    let cone = d.bullet_speed * d.spread / 200;
    let limit = if cone > 1_000_000 {
        1_000_000 as int
    } else {
        cone
    };
    if sample > limit {
        limit
    } else if sample < -limit {
        -limit
    } else {
        sample
    }
}

/// The projectile an entity's weapon fires: its velocity is the local
/// forward vector scaled by the bullet speed, displaced laterally by
/// the clamped spread sample, and rotated by the shooter's facing; it
/// leaves the muzzle one tick of travel ahead of the shooter, clear
/// of the shooter's own bounding circle; its time to live is the
/// ticks the weapon's range allows at that speed.
pub open spec fn spec_projectile_entity(e: Entity, sample: int) -> Entity {
    let w = e.weapon->0;
    let v = crate::movement::spec_rotate_by_facing(
        Vector2 {
            x: spec_spread_lateral(w.details, sample) as i64,
            y: (-(w.details.bullet_speed as int)) as i64,
        },
        e.transform.rotation,
    );
    Entity {
        kind: EntityKind::Projectile,
        alive: true,
        dead: false,
        respawn_timer: 0,
        transform: Transform {
            position: Vector2 {
                x: spec_clamp_coord(e.transform.position.x + v.x) as i64,
                y: spec_clamp_coord(e.transform.position.y + v.y) as i64,
            },
            rotation: e.transform.rotation,
        },
        velocity: Velocity(v),
        input: crate::movement::spec_neutral_input(),
        weapon: Some(w),
        bounding: Some(crate::collision::BoundingCircle { radius: PROJECTILE_BOUNDING_RADIUS }),
        health: None,
        lifespan: Some((w.details.distance / w.details.bullet_speed) as u32),
    }
}

/// One shooter step at slot `i`: the weapon advances one tick and the
/// entity's fire and reload intentions are applied; a honored shot
/// appends a projectile, unless the store is at capacity — then the
/// round is spent but no projectile materializes, the failure the
/// store reports on exhaustion.
pub open spec fn spec_shooter_step(s: Seq<Entity>, cap: int, i: int, sample: int) -> Seq<Entity> {
    if 0 <= i < s.len() && spec_armed(s[i]) {
        let e = s[i];
        let wf2 = crate::weapon::spec_weapon_intent(e.weapon->0, e.input.fire, e.input.reload);
        let s2 = s.update(i, Entity { weapon: Some(wf2.0), ..e });
        if wf2.1 && s2.len() < cap {
            s2.push(spec_projectile_entity(e, sample))
        } else {
            s2
        }
    } else {
        s
    }
}

/// The store after the shooter has visited the first `k` slots.
pub open spec fn spec_shooter_fold(s: Seq<Entity>, cap: int, k: int, sample: int) -> Seq<Entity>
    decreases k,
{
    if k <= 0 {
        s
    } else {
        spec_shooter_step(spec_shooter_fold(s, cap, k - 1, sample), cap, k - 1, sample)
    }
}

/// Advances every player's weapon state machine and spawns projectiles
/// on honored fire intents. The tick's sampled spread angle arrives
/// as the lateral offset `spread_sample`; the caller draws it within
/// the cone it wants, and each shot clamps it to its own weapon's.
pub struct ShooterSystem;

impl ShooterSystem {
    pub fn run(&mut self, world: &mut World, spread_sample: i64)
        requires
            world_wf(*old(world)),
        ensures
            world_wf(*final(world)),
            final(world).capacity == old(world).capacity,
            final(world).removed_this_tick == old(world).removed_this_tick,
            final(world).entities@ == spec_shooter_fold(
                old(world).entities@,
                old(world).capacity as int,
                old(world).entities@.len() as int,
                spread_sample as int,
            ),
    {
        let ghost orig = world.entities@;
        let count = world.entities.len();
        let mut i: usize = 0;
        while i < count
            invariant
                world_wf(*world),
                world.capacity == old(world).capacity,
                world.removed_this_tick == old(world).removed_this_tick,
                0 <= i <= count == orig.len(),
                orig.len() <= world.entities@.len(),
                world.entities@ == spec_shooter_fold(
                    orig,
                    world.capacity as int,
                    i as int,
                    spread_sample as int,
                ),
                forall|j: int| i <= j < orig.len() ==> world.entities@[j] == orig[j],
            decreases count - i,
        {
            let e = world.entities[i];
            if e.alive && !e.dead && matches!(e.kind, EntityKind::Player) && e.weapon.is_some() {
                let mut w = e.weapon.unwrap();
                let fired = crate::weapon::weapon_intent(&mut w, e.input.fire, e.input.reload);
                let mut e2 = e;
                e2.weapon = Some(w);
                world.entities.set(i, e2);
                if fired {
                    let details = e.weapon.unwrap().details;
                    let speed: u32 = details.bullet_speed;
                    proof {
                        assert((speed as int) * (details.spread as int)
                            <= 1_000_000 * 0xffff_ffff) by (nonlinear_arith)
                            requires 0 <= speed <= 1_000_000 && 0 <= details.spread <= 0xffff_ffff;
                    }
                    let cone: u64 = (speed as u64) * (details.spread as u64) / 200;
                    let limit: i64 = if cone > 1_000_000 {
                        1_000_000
                    } else {
                        cone as i64
                    };
                    let lateral: i64 = if spread_sample > limit {
                        limit
                    } else if spread_sample < -limit {
                        -limit
                    } else {
                        spread_sample
                    };
                    proof {
                        assert(lateral == spec_spread_lateral(details, spread_sample as int));
                    }
                    let v = crate::movement::rotate_by_facing(
                        Vector2 { x: lateral, y: -(speed as i64) },
                        e.transform.rotation,
                    );
                    let mx: i64 = e.transform.position.x + v.x;
                    let my: i64 = e.transform.position.y + v.y;
                    let cx: i64 = if mx < -WORLD_BOUND {
                        -WORLD_BOUND
                    } else if mx > WORLD_BOUND {
                        WORLD_BOUND
                    } else {
                        mx
                    };
                    let cy: i64 = if my < -WORLD_BOUND {
                        -WORLD_BOUND
                    } else if my > WORLD_BOUND {
                        WORLD_BOUND
                    } else {
                        my
                    };
                    let projectile = Entity {
                        kind: EntityKind::Projectile,
                        alive: true,
                        dead: false,
                        respawn_timer: 0,
                        transform: Transform {
                            position: Vector2 { x: cx, y: cy },
                            rotation: e.transform.rotation,
                        },
                        velocity: Velocity(v),
                        input: crate::movement::InputState::neutral(),
                        weapon: e.weapon,
                        bounding: Some(
                            crate::collision::BoundingCircle { radius: PROJECTILE_BOUNDING_RADIUS },
                        ),
                        health: None,
                        lifespan: Some(
                            e.weapon.unwrap().details.distance / e.weapon.unwrap(
                            ).details.bullet_speed,
                        ),
                    };
                    if world.entities.len() < world.capacity {
                        world.entities.push(projectile);
                    }
                    proof {
                        assert(projectile == spec_projectile_entity(
                            orig[i as int],
                            spread_sample as int,
                        ));
                    }
                }
            }
            i += 1;
        }
    }
}

/// One respawn step of a single entity: a dead player's timer counts
/// down once per tick, and at zero the entity is respawned at the
/// spawn point with its identity preserved.
pub open spec fn spec_respawn_step(e: Entity, x: i64, y: i64) -> Entity {
    if e.alive && e.dead {
        if e.respawn_timer > 0 {
            Entity { respawn_timer: (e.respawn_timer - 1) as u32, ..e }
        } else {
            crate::world::spec_respawn(e, x, y)
        }
    } else {
        e
    }
}

/// Counts down respawn timers and re-materializes dead players whose
/// wait has elapsed.
pub struct RespawnSystem;

impl RespawnSystem {
    pub fn run(&mut self, world: &mut World, spawn_x: i64, spawn_y: i64)
        requires
            world_wf(*old(world)),
            -WORLD_BOUND <= spawn_x <= WORLD_BOUND,
            -WORLD_BOUND <= spawn_y <= WORLD_BOUND,
        ensures
            world_wf(*final(world)),
            final(world).capacity == old(world).capacity,
            final(world).removed_this_tick == old(world).removed_this_tick,
            final(world).entities@.len() == old(world).entities@.len(),
            forall|j: int| 0 <= j < old(world).entities@.len()
                ==> final(world).entities@[j] == spec_respawn_step(
                old(world).entities@[j],
                spawn_x,
                spawn_y,
            ),
    {
        let ghost orig = world.entities@;
        let mut i: usize = 0;
        while i < world.entities.len()
            invariant
                world_wf(*world),
                world.entities@.len() == orig.len(),
                world.capacity == old(world).capacity,
                world.removed_this_tick == old(world).removed_this_tick,
                -WORLD_BOUND <= spawn_x <= WORLD_BOUND,
                -WORLD_BOUND <= spawn_y <= WORLD_BOUND,
                0 <= i <= orig.len(),
                forall|j: int| 0 <= j < i ==> world.entities@[j] == spec_respawn_step(
                    orig[j],
                    spawn_x,
                    spawn_y,
                ),
                forall|j: int| i <= j < orig.len() ==> world.entities@[j] == orig[j],
            decreases orig.len() - i,
        {
            let e = world.entities[i];
            if e.alive && e.dead {
                let mut e2 = e;
                if e.respawn_timer > 0 {
                    e2.respawn_timer = e.respawn_timer - 1;
                } else {
                    crate::world::respawn_entity(&mut e2, spawn_x, spawn_y);
                }
                world.entities.set(i, e2);
            }
            i += 1;
        }
    }
}

/// Whether an entity takes part in collision detection: live, not
/// dead, and carrying a bounding volume.
pub open spec fn spec_collidable(e: Entity) -> bool {
    e.alive && !e.dead && e.bounding is Some
}

/// The unordered pair at slots `a < b` collides when both entities are
/// collidable and their bounding circles overlap.
pub open spec fn spec_pair_collides(s: Seq<Entity>, a: int, b: int) -> bool {
    &&& spec_collidable(s[a])
    &&& spec_collidable(s[b])
    &&& crate::collision::spec_circles_overlap(
        s[a].transform.position,
        s[a].bounding->0,
        s[b].transform.position,
        s[b].bounding->0,
    )
}

/// What a detected overlap means for the pair's entity kinds.
#[derive(Clone, Copy, PartialEq, Eq, Structural, Debug)]
pub enum CollisionOutcome {
    /// No handler for this pair of kinds.
    Nothing,
    /// A projectile struck an obstacle: the projectile goes away.
    RemoveProjectile { projectile: usize },
    /// A projectile struck a player: the player takes the projectile's
    /// damage and the projectile goes away.
    HitPlayer { projectile: usize, player: usize },
}

/// Dispatches a detected overlap at slots `a` and `b` by the pair's
/// entity kinds, exhaustively.
pub open spec fn spec_pair_outcome(
    ka: EntityKind,
    kb: EntityKind,
    a: usize,
    b: usize,
) -> CollisionOutcome {
    match (ka, kb) {
        (EntityKind::Projectile, EntityKind::Obstacle) => CollisionOutcome::RemoveProjectile {
            projectile: a,
        },
        (EntityKind::Obstacle, EntityKind::Projectile) => CollisionOutcome::RemoveProjectile {
            projectile: b,
        },
        (EntityKind::Projectile, EntityKind::Player) => CollisionOutcome::HitPlayer {
            projectile: a,
            player: b,
        },
        (EntityKind::Player, EntityKind::Projectile) => CollisionOutcome::HitPlayer {
            projectile: b,
            player: a,
        },
        _ => CollisionOutcome::Nothing,
    }
}

/// The kind-keyed handler of the collision system.
pub fn pair_outcome(ka: EntityKind, kb: EntityKind, a: usize, b: usize) -> (r: CollisionOutcome)
    ensures
        r == spec_pair_outcome(ka, kb, a, b),
{
    match (ka, kb) {
        (EntityKind::Projectile, EntityKind::Obstacle) => CollisionOutcome::RemoveProjectile {
            projectile: a,
        },
        (EntityKind::Obstacle, EntityKind::Projectile) => CollisionOutcome::RemoveProjectile {
            projectile: b,
        },
        (EntityKind::Projectile, EntityKind::Player) => CollisionOutcome::HitPlayer {
            projectile: a,
            player: b,
        },
        (EntityKind::Player, EntityKind::Projectile) => CollisionOutcome::HitPlayer {
            projectile: b,
            player: a,
        },
        _ => CollisionOutcome::Nothing,
    }
}

/// The damage a projectile's source weapon carries.
pub open spec fn spec_damage_of(e: Entity) -> u32 {
    match e.weapon {
        Some(w) => w.details.damage,
        None => 0,
    }
}

/// What the collision pass owes for one colliding pair of the initial
/// state `orig`: by the pair's kinds, either nothing, or its struck
/// projectile is removed in the final state `s`, and a struck player
/// additionally has the projectile's damage queued in `dmg`.
pub open spec fn spec_pair_handled(
    orig: Seq<Entity>,
    s: Seq<Entity>,
    dmg: Seq<DamageEvent>,
    a: usize,
    b: usize,
) -> bool {
    match spec_pair_outcome(orig[a as int].kind, orig[b as int].kind, a, b) {
        CollisionOutcome::Nothing => true,
        CollisionOutcome::RemoveProjectile { projectile } => !s[projectile as int].alive,
        CollisionOutcome::HitPlayer { projectile, player } => !s[projectile as int].alive
            && dmg.contains(
            DamageEvent { target: player, amount: spec_damage_of(orig[projectile as int]) },
        ),
    }
}

/// Detects overlaps between bounding volumes and dispatches each pair
/// to its kind-keyed handler.
pub struct CollisionSystem;

impl CollisionSystem {
    /// The broad phase: every colliding pair of slots, as `(a, b)`
    /// with `a < b`, each unordered pair reported exactly once.
    pub fn detect(&self, world: &World) -> (r: Vec<(usize, usize)>)
        requires
            world_wf(*world),
        ensures
            forall|k: int| 0 <= k < r@.len() ==> (#[trigger] r@[k]).0 < r@[k].1
                < world.entities@.len() && spec_pair_collides(
                world.entities@,
                r@[k].0 as int,
                r@[k].1 as int,
            ),
            forall|a: usize, b: usize| a < b < world.entities@.len() && spec_pair_collides(
                world.entities@,
                a as int,
                b as int,
            ) ==> r@.contains((a, b)),
            forall|k1: int, k2: int| 0 <= k1 < k2 < r@.len() ==> #[trigger] r@[k1]
                !== #[trigger] r@[k2],
            forall|k1: int, k2: int| 0 <= k1 < k2 < r@.len() ==> (#[trigger] r@[k1]).0
                < (#[trigger] r@[k2]).0 || (r@[k1].0 == r@[k2].0 && r@[k1].1 < r@[k2].1),
    {
        let n = world.entities.len();
        let mut r: Vec<(usize, usize)> = Vec::new();
        let mut a: usize = 0;
        while a < n
            invariant
                world_wf(*world),
                n == world.entities@.len(),
                0 <= a <= n,
                forall|k: int| 0 <= k < r@.len() ==> (#[trigger] r@[k]).0 < r@[k].1 < n
                    && spec_pair_collides(world.entities@, r@[k].0 as int, r@[k].1 as int),
                forall|x: usize, y: usize| x < y < n && x < a && spec_pair_collides(
                    world.entities@,
                    x as int,
                    y as int,
                ) ==> r@.contains((x, y)),
                forall|k: int| 0 <= k < r@.len() ==> (#[trigger] r@[k]).0 < a,
                forall|k1: int, k2: int| 0 <= k1 < k2 < r@.len() ==> (#[trigger] r@[k1]).0
                    < (#[trigger] r@[k2]).0 || (r@[k1].0 == r@[k2].0 && r@[k1].1 < r@[k2].1),
            decreases n - a,
        {
            let ea = world.entities[a];
            let mut b: usize = a + 1;
            while b < n
                invariant
                    world_wf(*world),
                    n == world.entities@.len(),
                    0 <= a < n,
                    a < b <= n,
                    ea == world.entities@[a as int],
                    forall|k: int| 0 <= k < r@.len() ==> (#[trigger] r@[k]).0 < r@[k].1 < n
                        && spec_pair_collides(world.entities@, r@[k].0 as int, r@[k].1 as int),
                    forall|x: usize, y: usize| x < y < n && x < a && spec_pair_collides(
                        world.entities@,
                        x as int,
                        y as int,
                    ) ==> r@.contains((x, y)),
                    forall|y: usize| a < y < b && spec_pair_collides(
                        world.entities@,
                        a as int,
                        y as int,
                    ) ==> r@.contains((a, y)),
                    forall|k: int| 0 <= k < r@.len() ==> (#[trigger] r@[k]).0 < a || (r@[k].0 == a
                        && r@[k].1 < b),
                    forall|k1: int, k2: int| 0 <= k1 < k2 < r@.len() ==> (#[trigger] r@[k1]).0
                        < (#[trigger] r@[k2]).0 || (r@[k1].0 == r@[k2].0 && r@[k1].1 < r@[k2].1),
                decreases n - b,
            {
                let eb = world.entities[b];
                if ea.alive && !ea.dead && ea.bounding.is_some() && eb.alive && !eb.dead
                    && eb.bounding.is_some() {
                    if crate::collision::circles_overlap(
                        ea.transform.position,
                        ea.bounding.unwrap(),
                        eb.transform.position,
                        eb.bounding.unwrap(),
                    ) {
                        let ghost before = r@;
                        r.push((a, b));
                        proof {
                            assert forall|x: usize, y: usize| x < y < n && x < a
                                && spec_pair_collides(world.entities@, x as int, y as int)
                                implies r@.contains((x, y)) by {
                                assert(before.contains((x, y)));
                                let k = choose|k: int| 0 <= k < before.len() && before[k] == (
                                (x, y));
                                assert(r@[k] == (x, y));
                            }
                            assert forall|y: usize| a < y < b + 1 && spec_pair_collides(
                                world.entities@,
                                a as int,
                                y as int,
                            ) implies r@.contains((a, y)) by {
                                if y < b {
                                    assert(before.contains((a, y)));
                                    let k = choose|k: int| 0 <= k < before.len() && before[k] == (
                                    (a, y));
                                    assert(r@[k] == (a, y));
                                } else {
                                    assert(r@[before.len() as int] == (a, b));
                                }
                            }
                        }
                    }
                }
                b += 1;
            }
            a += 1;
        }
        r
    }

    /// One collision pass: detects all overlapping pairs, dispatches
    /// each by kind, removes struck projectiles and queues damage for
    /// struck players. Each unordered pair is handled at most once per
    /// tick; removal of an already-removed projectile (hit twice in
    /// one pass) is a no-op. Only projectiles are removed here, and
    /// every queued damage event names a live player struck by an
    /// overlapping projectile of the tick's initial state.
    pub fn run(&mut self, world: &mut World) -> (damages: Vec<DamageEvent>)
        requires
            world_wf(*old(world)),
        ensures
            world_wf(*final(world)),
            final(world).capacity == old(world).capacity,
            final(world).entities@.len() == old(world).entities@.len(),
            forall|j: int| 0 <= j < old(world).entities@.len()
                ==> final(world).entities@[j] == old(world).entities@[j]
                || (old(world).entities@[j].kind == EntityKind::Projectile
                && final(world).entities@[j] == (Entity {
                    alive: false,
                    ..old(world).entities@[j]
                })),
            forall|k: int| 0 <= k < damages@.len() ==> (#[trigger] damages@[k]).target
                < old(world).entities@.len()
                && old(world).entities@[damages@[k].target as int].kind == EntityKind::Player,
            forall|x: usize| old(world).removed_this_tick@.contains(x)
                ==> final(world).removed_this_tick@.contains(x),
            forall|a: usize, b: usize| a < b < old(world).entities@.len() && spec_pair_collides(
                old(world).entities@,
                a as int,
                b as int,
            ) ==> spec_pair_handled(
                old(world).entities@,
                final(world).entities@,
                damages@,
                a,
                b,
            ),
    {
        let pairs = self.detect(world);
        let ghost orig = world.entities@;
        let ghost orig_removed = world.removed_this_tick@;
        let mut damages: Vec<DamageEvent> = Vec::new();
        let mut k: usize = 0;
        while k < pairs.len()
            invariant
                world_wf(*world),
                world.capacity == old(world).capacity,
                world.entities@.len() == orig.len(),
                forall|x: usize| orig_removed.contains(x)
                    ==> world.removed_this_tick@.contains(x),
                0 <= k <= pairs@.len(),
                forall|m: int| 0 <= m < pairs@.len() ==> (#[trigger] pairs@[m]).0 < pairs@[m].1
                    < orig.len() && spec_pair_collides(orig, pairs@[m].0 as int, pairs@[m].1 as int),
                forall|j: int| 0 <= j < orig.len() ==> world.entities@[j] == orig[j] || (
                orig[j].kind == EntityKind::Projectile && world.entities@[j] == (Entity {
                    alive: false,
                    ..orig[j]
                })),
                forall|m: int| 0 <= m < damages@.len() ==> (#[trigger] damages@[m]).target
                    < orig.len() && orig[damages@[m].target as int].kind == EntityKind::Player,
                forall|m: int| #![trigger pairs@[m]] 0 <= m < k ==> spec_pair_handled(
                    orig,
                    world.entities@,
                    damages@,
                    pairs@[m].0,
                    pairs@[m].1,
                ),
            decreases pairs@.len() - k,
        {
            let (a, b) = pairs[k];
            let ka = world.entities[a].kind;
            let kb = world.entities[b].kind;
            proof {
                assert(world.entities@[a as int] == orig[a as int] || world.entities@[a as int]
                    == (Entity { alive: false, ..orig[a as int] }));
                assert(ka == orig[a as int].kind);
                assert(kb == orig[b as int].kind);
            }
            let ghost rem_before = world.removed_this_tick@;
            let ghost dmg_before = damages@;
            match pair_outcome(ka, kb, a, b) {
                CollisionOutcome::Nothing => {},
                CollisionOutcome::RemoveProjectile { projectile } => {
                    world.remove(projectile);
                },
                CollisionOutcome::HitPlayer { projectile, player } => {
                    let amount: u32 = match world.entities[projectile].weapon {
                        Some(w) => w.details.damage,
                        None => 0,
                    };
                    proof {
                        assert(world.entities@[projectile as int].weapon
                            == orig[projectile as int].weapon);
                        assert(amount == spec_damage_of(orig[projectile as int]));
                    }
                    world.remove(projectile);
                    damages.push(DamageEvent { target: player, amount });
                },
            }
            proof {
                assert forall|x: usize| rem_before.contains(x) implies
                    world.removed_this_tick@.contains(x) by {
                    let m = choose|m: int| 0 <= m < rem_before.len() && rem_before[m] == x;
                    assert(world.removed_this_tick@[m] == x);
                }
                assert forall|ev: DamageEvent| dmg_before.contains(ev) implies damages@.contains(
                    ev,
                ) by {
                    let m = choose|m: int| 0 <= m < dmg_before.len() && dmg_before[m] == ev;
                    assert(damages@[m] == ev);
                }
                assert forall|m: int| #![trigger pairs@[m]] 0 <= m < k + 1 implies
                    spec_pair_handled(orig, world.entities@, damages@, pairs@[m].0, pairs@[m].1)
                    by {
                    if m == k {
                        match spec_pair_outcome(
                            orig[pairs@[m].0 as int].kind,
                            orig[pairs@[m].1 as int].kind,
                            pairs@[m].0,
                            pairs@[m].1,
                        ) {
                            CollisionOutcome::Nothing => {},
                            CollisionOutcome::RemoveProjectile { projectile } => {
                                assert(!world.entities@[projectile as int].alive);
                            },
                            CollisionOutcome::HitPlayer { projectile, player } => {
                                assert(!world.entities@[projectile as int].alive);
                                assert(damages@[damages@.len() - 1] == (DamageEvent {
                                    target: player,
                                    amount: spec_damage_of(orig[projectile as int]),
                                }));
                            },
                        }
                    }
                }
            }
            k += 1;
        }
        proof {
            assert forall|a: usize, b: usize| a < b < orig.len() && spec_pair_collides(
                orig,
                a as int,
                b as int,
            ) implies spec_pair_handled(orig, world.entities@, damages@, a, b) by {
                assert(pairs@.contains((a, b)));
                let m = choose|m: int| 0 <= m < pairs@.len() && pairs@[m] == ((a, b));
                assert(spec_pair_handled(
                    orig,
                    world.entities@,
                    damages@,
                    pairs@[m].0,
                    pairs@[m].1,
                ));
            }
        }
        damages
    }
}

/// One full server tick, driving every system in pipeline order:
/// command transformer, movement, physics, shooter, collision,
/// health, respawn, lifespan, then the broadcasters. Returns the
/// tick's update and delete deltas.
///
/// Removal takes priority over update: no entity the delete delta
/// names appears in the update delta, so an entity created and
/// removed within the tick is reported only as removed.
/// The whole store mapped through one movement step per entity.
pub open spec fn spec_movement_all(s: Seq<Entity>) -> Seq<Entity> {
    Seq::new(s.len(), |j: int| spec_movement_step(s[j]))
}

/// The whole store mapped through one physics step per entity.
pub open spec fn spec_physics_all(s: Seq<Entity>) -> Seq<Entity> {
    Seq::new(s.len(), |j: int| spec_physics_step(s[j]))
}

/// The whole store mapped through one respawn step per entity.
pub open spec fn spec_respawn_all(s: Seq<Entity>, x: i64, y: i64) -> Seq<Entity> {
    Seq::new(s.len(), |j: int| spec_respawn_step(s[j], x, y))
}

/// The whole store mapped through one lifespan step per entity.
pub open spec fn spec_lifespan_all(s: Seq<Entity>) -> Seq<Entity> {
    Seq::new(s.len(), |j: int| spec_lifespan_step(s[j]))
}

/// The store as the first half of a tick leaves it: the command batch
/// written onto intentions, movement and physics run, and the shooter
/// fold applied.
pub open spec fn spec_pre_collision(
    reg: Seq<crate::session::SessionEntry>,
    s: Seq<Entity>,
    batch: Seq<crate::session::TaggedCommand>,
    cap: int,
    sample: int,
) -> Seq<Entity> {
    let s1 = crate::session::spec_transform_fold(reg, s, batch, batch.len() as int);
    let s3 = spec_physics_all(spec_movement_all(s1));
    spec_shooter_fold(s3, cap, s3.len() as int, sample)
}

/// One full server tick, driving every system in pipeline order:
/// command transformer, movement, physics, shooter, collision,
/// health, respawn, lifespan, then the broadcasters. Returns the
/// tick's update and delete deltas.
///
/// The final store is the stage composition applied to the old one:
/// the pre-collision half exactly, then a collision pass — some store
/// `mid` and damage queue `dmg` in which only struck projectiles
/// differ and every colliding pair is handled — then health fed with
/// those damages, respawn and lifespan, each exact. The update delta
/// names exactly the live entities of the final store; the delete
/// delta is exactly the tick's removed set. Removal takes priority
/// over update: no entity the delete delta names appears in the
/// update delta, so an entity created and removed within the tick is
/// reported only as removed.
pub fn server_tick(
    world: &mut World,
    registry: &crate::session::SessionRegistry,
    batch: &Vec<crate::session::TaggedCommand>,
    spawn_x: i64,
    spawn_y: i64,
    spread_sample: i64,
) -> (deltas: (Vec<usize>, Vec<usize>))
    requires
        world_wf(*old(world)),
        -WORLD_BOUND <= spawn_x <= WORLD_BOUND,
        -WORLD_BOUND <= spawn_y <= WORLD_BOUND,
    ensures
        world_wf(*final(world)),
        final(world).capacity == old(world).capacity,
        deltas.1@ == final(world).removed_this_tick@,
        forall|x: usize| deltas.0@.contains(x) <==> x < final(world).entities@.len()
            && final(world).entities@[x as int].alive,
        forall|k1: int, k2: int| 0 <= k1 < k2 < deltas.1@.len() ==> #[trigger] deltas.1@[k1]
            != #[trigger] deltas.1@[k2],
        forall|x: usize| deltas.1@.contains(x) ==> !deltas.0@.contains(x),
        ({
            let s4 = spec_pre_collision(
                registry.sessions@,
                old(world).entities@,
                batch@,
                old(world).capacity as int,
                spread_sample as int,
            );
            exists|mid: Seq<Entity>, dmg: Seq<DamageEvent>|
                {
                    &&& mid.len() == s4.len()
                    &&& (forall|j: int| 0 <= j < s4.len() ==> #[trigger] mid[j] == s4[j] || (
                    s4[j].kind == EntityKind::Projectile && mid[j] == (Entity {
                        alive: false,
                        ..s4[j]
                    })))
                    &&& (forall|a: usize, b: usize| a < b < s4.len() && spec_pair_collides(
                        s4,
                        a as int,
                        b as int,
                    ) ==> spec_pair_handled(s4, mid, dmg, a, b))
                    &&& final(world).entities@ == spec_lifespan_all(
                        spec_respawn_all(
                            #[trigger] spec_damage_fold(mid, dmg, dmg.len() as int),
                            spawn_x,
                            spawn_y,
                        ),
                    )
                }
        }),
{
    let ghost s0 = world.entities@;
    world.begin_tick();
    let mut transformer = crate::session::CommandTransformer;
    transformer.run(registry, world, batch);
    let ghost s1 = world.entities@;
    let mut movement = PlayerMovementSystem;
    movement.run(world);
    proof {
        assert(world.entities@ =~= spec_movement_all(s1));
    }
    let ghost s2 = world.entities@;
    let mut physics = PhysicsSystem;
    physics.run(world);
    proof {
        assert(world.entities@ =~= spec_physics_all(s2));
    }
    let mut shooter = ShooterSystem;
    shooter.run(world, spread_sample);
    proof {
        assert(world.entities@ == spec_pre_collision(
            registry.sessions@,
            s0,
            batch@,
            old(world).capacity as int,
            spread_sample as int,
        ));
    }
    let ghost s4 = world.entities@;
    let mut collision = CollisionSystem;
    let damages = collision.run(world);
    let ghost mid = world.entities@;
    let mut health = HealthSystem;
    health.run(world, &damages);
    let ghost s6 = world.entities@;
    let mut respawn = RespawnSystem;
    respawn.run(world, spawn_x, spawn_y);
    proof {
        assert(world.entities@ =~= spec_respawn_all(s6, spawn_x, spawn_y));
    }
    let ghost s7 = world.entities@;
    let mut lifespan = LifespanSystem;
    lifespan.run(world);
    proof {
        assert(world.entities@ =~= spec_lifespan_all(s7));
        assert(world.entities@ == spec_lifespan_all(
            spec_respawn_all(spec_damage_fold(mid, damages@, damages@.len() as int), spawn_x, spawn_y),
        ));
    }
    let updates = crate::broadcast::EntityStateBroadcaster.state_delta(world);
    let deletes = crate::broadcast::EntityDeleteBroadcaster.delete_delta(world);
    (updates, deletes)
}

} // verus!