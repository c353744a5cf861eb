//! The shared entity store: an arena of entities addressed by stable
//! indices, with spawn, removal, death and respawn transitions.

use vstd::prelude::*;
use crate::collision::{BoundingCircle, circle_wf};
use crate::health::{Health, health_wf};
use crate::math::Vector2;
use crate::movement::{InputState, Transform, Velocity, WORLD_BOUND, spec_neutral_input, transform_wf};
use crate::weapon::{Weapon, WeaponDetails, WeaponState, weapon_details_wf, weapon_wf};

verus! {

/// Ticks a dead player waits before respawning: five seconds of
/// simulated time.
pub const RESPAWN_DELAY_TICKS: u32 = 300;

/// Collision radius of a player, in fixed position units: 8 world
/// units times the fixed-point scale of 12.
pub const PLAYER_BOUNDING_RADIUS: u32 = 96;

/// The archetype of an entity, dispatched on by the collision system.
#[derive(Clone, Copy, PartialEq, Eq, Structural, Debug)]
pub enum EntityKind {
    Player,
    Projectile,
    Obstacle,
}

/// One simulated object and its components.
#[derive(Clone, Copy, Debug)]
pub struct Entity {
    pub kind: EntityKind,
    /// False once removed; a removed slot keeps its index so handles
    /// stay stable, and is never processed again.
    pub alive: bool,
    /// A dead player: retained with its components but excluded from
    /// movement, shooting and collision until respawn.
    pub dead: bool,
    /// Ticks left until a dead player may respawn.
    pub respawn_timer: u32,
    pub transform: Transform,
    pub velocity: Velocity,
    pub input: InputState,
    pub weapon: Option<Weapon>,
    pub bounding: Option<BoundingCircle>,
    pub health: Option<Health>,
    /// Ticks left to live, for projectiles and transient effects.
    pub lifespan: Option<u32>,
}

pub open spec fn entity_wf(e: Entity) -> bool {
    &&& transform_wf(e.transform)
    &&& crate::movement::input_wf(e.input)
    &&& -2_000_000 <= e.velocity.0.x <= 2_000_000
    &&& -2_000_000 <= e.velocity.0.y <= 2_000_000
    &&& match e.weapon {
        Some(w) => weapon_wf(w),
        None => true,
    }
    &&& match e.bounding {
        Some(c) => circle_wf(c),
        None => true,
    }
    &&& match e.health {
        Some(h) => health_wf(h),
        None => true,
    }
}

/// The shared mutable entity store, plus the per-tick bookkeeping the
/// delete broadcaster reads: which slots were removed this tick.
pub struct World {
    pub entities: Vec<Entity>,
    /// Most entities the store may hold; spawning past it fails.
    pub capacity: usize,
    pub removed_this_tick: Vec<usize>,
}

pub open spec fn world_wf(w: World) -> bool {
    &&& forall|i: int| 0 <= i < w.entities@.len() ==> entity_wf(#[trigger] w.entities@[i])
    &&& w.entities@.len() <= w.capacity
    &&& forall|k: int| 0 <= k < w.removed_this_tick@.len() ==> (#[trigger] w.removed_this_tick@[k])
        < w.entities@.len() && !w.entities@[w.removed_this_tick@[k] as int].alive
    &&& forall|k1: int, k2: int| 0 <= k1 < k2 < w.removed_this_tick@.len()
        ==> #[trigger] w.removed_this_tick@[k1] != #[trigger] w.removed_this_tick@[k2]
}

impl World {
    /// An empty store for at most `capacity` entities.
    pub fn new(capacity: usize) -> (r: World)
        ensures
            r.entities@.len() == 0,
            r.capacity == capacity,
            r.removed_this_tick@.len() == 0,
            world_wf(r),
    {
        World { entities: Vec::new(), capacity, removed_this_tick: Vec::new() }
    }

    /// Opens a new tick: the removed set starts empty.
    pub fn begin_tick(&mut self)
        requires
            world_wf(*old(self)),
        ensures
            final(self).entities == old(self).entities,
            final(self).capacity == old(self).capacity,
            final(self).removed_this_tick@.len() == 0,
            world_wf(*final(self)),
    {
        self.removed_this_tick = Vec::new();
    }

    /// Materializes a new entity. Fails — returning `None` and changing
    /// nothing — when the store is at capacity, so the caller may retry
    /// next tick.
    pub fn spawn(&mut self, e: Entity) -> (r: Option<usize>)
        requires
            world_wf(*old(self)),
            entity_wf(e),
            e.alive,
        ensures
            world_wf(*final(self)),
            final(self).capacity == old(self).capacity,
            final(self).removed_this_tick == old(self).removed_this_tick,
            old(self).entities@.len() < old(self).capacity ==> {
                &&& r == Some(old(self).entities@.len() as usize)
                &&& final(self).entities@ == old(self).entities@.push(e)
            },
            old(self).entities@.len() >= old(self).capacity ==> {
                &&& r is None
                &&& final(self).entities == old(self).entities
            },
    {
        if self.entities.len() < self.capacity {
            let idx = self.entities.len();
            self.entities.push(e);
            Some(idx)
        } else {
            None
        }
    }

    /// Marks an entity removed. Removing an already-removed entity is a
    /// no-op, and a slot never appears twice in the removed set, so the
    /// delete broadcast of the tick names it at most once.
    pub fn remove(&mut self, idx: usize)
        requires
            world_wf(*old(self)),
            idx < old(self).entities@.len(),
        ensures
            world_wf(*final(self)),
            final(self).capacity == old(self).capacity,
            final(self).entities@.len() == old(self).entities@.len(),
            forall|j: int| 0 <= j < old(self).entities@.len() && j != idx
                ==> final(self).entities@[j] == old(self).entities@[j],
            !final(self).entities@[idx as int].alive,
            !old(self).entities@[idx as int].alive ==> {
                &&& final(self).entities == old(self).entities
                &&& final(self).removed_this_tick == old(self).removed_this_tick
            },
            old(self).entities@[idx as int].alive ==> {
                &&& final(self).entities@ == old(self).entities@.update(
                    idx as int,
                    Entity { alive: false, ..old(self).entities@[idx as int] },
                )
                &&& final(self).removed_this_tick@ == old(self).removed_this_tick@.push(idx)
            },
    {
        if self.entities[idx].alive {
            let mut e = self.entities[idx];
            e.alive = false;
            self.entities.set(idx, e);
            self.removed_this_tick.push(idx);
        }
    }
}

/// The death transition: a living entity becomes dead, keeps its
/// components, and starts its respawn timer; a dead one is left
/// exactly as it is, so a second lethal hit in the same tick reports
/// nothing new.
pub open spec fn spec_kill(e: Entity) -> Entity {
    if e.dead {
        e
    } else {
        Entity { dead: true, respawn_timer: RESPAWN_DELAY_TICKS, ..e }
    }
}

/// Applies the death transition to one entity.
pub fn kill_entity(e: &mut Entity)
    requires
        entity_wf(*old(e)),
    ensures
        *final(e) == spec_kill(*old(e)),
        entity_wf(*final(e)),
{
    if !e.dead {
        e.dead = true;
        e.respawn_timer = RESPAWN_DELAY_TICKS;
    }
}

/// Dying twice in the same tick is dying once: the death transition is
/// idempotent.
pub proof fn lemma_death_idempotent(e: Entity)
    ensures
        spec_kill(spec_kill(e)) == spec_kill(e),
{
}

/// A respawned entity: the same identity and tuning, all mutable state
/// reset — placed at the spawn point, at rest, with a neutral
/// intention, a fresh magazine and full health.
pub open spec fn spec_respawn(e: Entity, x: i64, y: i64) -> Entity {
    Entity {
        dead: false,
        respawn_timer: 0,
        transform: Transform {
            position: Vector2 { x, y },
            rotation: crate::movement::Facing { dx: 0, dy: -1i64 },
        },
        velocity: Velocity(Vector2 { x: 0, y: 0 }),
        input: spec_neutral_input(),
        weapon: match e.weapon {
            Some(w) => Some(
                Weapon { details: w.details, ammo: w.details.magazine_size, state: WeaponState::Idle },
            ),
            None => None,
        },
        health: match e.health {
            Some(h) => Some(Health { current: h.max, max: h.max }),
            None => None,
        },
        ..e
    }
}

/// Respawn: spawn re-applied to a dead entity's identity once its
/// timer has elapsed, preserving the slot so session mappings stay
/// valid.
pub fn respawn_entity(e: &mut Entity, x: i64, y: i64)
    requires
        entity_wf(*old(e)),
        old(e).dead,
        old(e).respawn_timer == 0,
        -WORLD_BOUND <= x <= WORLD_BOUND,
        -WORLD_BOUND <= y <= WORLD_BOUND,
    ensures
        *final(e) == spec_respawn(*old(e), x, y),
        entity_wf(*final(e)),
{
    e.dead = false;
    e.transform = Transform {
        position: Vector2 { x, y },
        rotation: crate::movement::Facing { dx: 0, dy: -1i64 },
    };
    e.velocity = Velocity(Vector2 { x: 0, y: 0 });
    e.input = InputState::neutral();
    e.weapon = match e.weapon {
        Some(w) => Some(
            Weapon { details: w.details, ammo: w.details.magazine_size, state: WeaponState::Idle },
        ),
        None => None,
    };
    e.health = match e.health {
        Some(h) => Some(Health { current: h.max, max: h.max }),
        None => None,
    };
}

/// The full baseline component set of a player entity at a start
/// position.
pub open spec fn spec_player_entity(x: i64, y: i64, details: WeaponDetails, max_health: u32) -> Entity {
    Entity {
        kind: EntityKind::Player,
        alive: true,
        dead: false,
        respawn_timer: 0,
        transform: Transform {
            position: Vector2 { x, y },
            rotation: crate::movement::Facing { dx: 0, dy: -1i64 },
        },
        velocity: Velocity(Vector2 { x: 0, y: 0 }),
        input: spec_neutral_input(),
        weapon: Some(Weapon { details, ammo: details.magazine_size, state: WeaponState::Idle }),
        bounding: Some(BoundingCircle { radius: PLAYER_BOUNDING_RADIUS }),
        health: Some(Health { current: max_health, max: max_health }),
        lifespan: None,
    }
}

/// Creates a player entity with its full component set — transform at
/// the start position, resting velocity, neutral input, the configured
/// weapon with a full magazine, bounding circle and full health — and
/// spawns it into the world. Fails only when the store is at capacity.
pub fn initialize_player(
    world: &mut World,
    start_x: i64,
    start_y: i64,
    details: WeaponDetails,
    max_health: u32,
) -> (r: Option<usize>)
    requires
        world_wf(*old(world)),
        weapon_details_wf(details),
        -WORLD_BOUND <= start_x <= WORLD_BOUND,
        -WORLD_BOUND <= start_y <= WORLD_BOUND,
    ensures
        world_wf(*final(world)),
        final(world).capacity == old(world).capacity,
        old(world).entities@.len() < old(world).capacity ==> {
            &&& r == Some(old(world).entities@.len() as usize)
            &&& final(world).entities@ == old(world).entities@.push(
                spec_player_entity(start_x, start_y, details, max_health),
            )
        },
        old(world).entities@.len() >= old(world).capacity ==> {
            &&& r is None
            &&& final(world).entities == old(world).entities
        },
{
    let entity = Entity {
        kind: EntityKind::Player,
        alive: true,
        dead: false,
        respawn_timer: 0,
        transform: Transform::at_position(start_x, start_y),
        velocity: Velocity(Vector2 { x: 0, y: 0 }),
        input: InputState::neutral(),
        weapon: Some(Weapon::new(details)),
        bounding: Some(BoundingCircle { radius: PLAYER_BOUNDING_RADIUS }),
        health: Some(Health::full(max_health)),
        lifespan: None,
    };
    world.spawn(entity)
}

} // verus!
