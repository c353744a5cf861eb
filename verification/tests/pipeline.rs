use westiny_core::broadcast::{EntityDeleteBroadcaster, EntityStateBroadcaster};
use westiny_core::collision::BoundingCircle;
use westiny_core::events::{AppEvent, EngineEvent, EventChannel, WestinyEvent};
use westiny_core::health::DamageEvent;
use westiny_core::math::Vector2;
use westiny_core::movement::{InputState, MoveDirection, PlayerMovementSystem, Transform, Velocity};
use westiny_core::session::{
    CommandTransformer, InputCommand, SessionRegistry, TaggedCommand, apply_command,
    handle_connection, handle_disconnect, handshake_response,
};
use westiny_core::systems::{
    CollisionSystem, HealthSystem, LifespanSystem, PhysicsSystem, RespawnSystem, ShooterSystem,
    server_tick,
};
use westiny_core::weapon::{Shot, Weapon, WeaponDetails, WeaponState, start_reload, try_fire, weapon_tick};
use westiny_core::world::{Entity, EntityKind, World, initialize_player, kill_entity};

fn revolver() -> WeaponDetails {
    WeaponDetails {
        damage: 5,
        distance: 1440,
        fire_rate: 6,
        magazine_size: 6,
        reload_time: 60,
        spread: 2,
        shot: Shot::Single,
        bullet_speed: 240,
    }
}

fn new_world() -> World {
    World::new(64)
}

fn spawn_player(world: &mut World, x: i64, y: i64) -> usize {
    initialize_player(world, x, y, revolver(), 100).unwrap()
}

#[test]
fn initialize_player_full_component_set() {
    let mut world = new_world();
    let idx = spawn_player(&mut world, 36, 36);
    let e = &world.entities[idx];
    assert!(matches!(e.kind, EntityKind::Player));
    assert!(e.alive && !e.dead);
    assert_eq!(e.transform.position, Vector2 { x: 36, y: 36 });
    assert_eq!(e.velocity.0, Vector2 { x: 0, y: 0 });
    let w = e.weapon.unwrap();
    assert_eq!(w.ammo, 6);
    assert!(matches!(w.state, WeaponState::Idle));
    assert_eq!(e.bounding.unwrap().radius, 96);
    let h = e.health.unwrap();
    assert_eq!(h.current, 100);
    assert_eq!(h.max, 100);
    assert!(e.lifespan.is_none());
}

#[test]
fn spawn_fails_at_capacity() {
    let mut world = World::new(1);
    assert!(initialize_player(&mut world, 0, 0, revolver(), 100).is_some());
    assert!(initialize_player(&mut world, 0, 0, revolver(), 100).is_none());
    assert_eq!(world.entities.len(), 1);
}

// Weapon state machine.

#[test]
fn firing_with_zero_ammo_is_rejected() {
    let mut w = Weapon::new(revolver());
    w.ammo = 0;
    assert!(!try_fire(&mut w));
    assert_eq!(w.ammo, 0);
}

#[test]
fn firing_during_cooldown_is_rejected() {
    let mut w = Weapon::new(revolver());
    assert!(try_fire(&mut w));
    assert_eq!(w.ammo, 5);
    // Immediately after a successful shot the cooldown is running.
    assert!(!try_fire(&mut w));
    assert_eq!(w.ammo, 5);
}

#[test]
fn reload_restores_full_magazine_after_reload_time() {
    let mut w = Weapon::new(revolver());
    assert!(try_fire(&mut w));
    // Wait out the cooldown of 60 / 6 = 10 ticks.
    for _ in 0..10 {
        weapon_tick(&mut w);
    }
    assert!(matches!(w.state, WeaponState::Idle));
    start_reload(&mut w);
    assert!(matches!(w.state, WeaponState::Reloading { .. }));
    for _ in 0..59 {
        weapon_tick(&mut w);
        assert_eq!(w.ammo, 5);
    }
    weapon_tick(&mut w);
    assert_eq!(w.ammo, 6);
    assert!(matches!(w.state, WeaponState::Idle));
}

#[test]
fn firing_while_reloading_is_ignored() {
    let mut w = Weapon::new(revolver());
    start_reload(&mut w);
    assert!(!try_fire(&mut w));
    assert!(matches!(w.state, WeaponState::Reloading { .. }));
}

// Death and removal idempotence.

#[test]
fn death_transition_is_idempotent() {
    let mut world = new_world();
    let idx = spawn_player(&mut world, 0, 0);
    let mut once = world.entities[idx];
    kill_entity(&mut once);
    let mut twice = once;
    kill_entity(&mut twice);
    assert_eq!(once.dead, twice.dead);
    assert_eq!(once.respawn_timer, twice.respawn_timer);
    assert_eq!(once.alive, twice.alive);
    assert_eq!(once.transform, twice.transform);
}

#[test]
fn double_lethal_damage_reports_one_death() {
    let mut world = new_world();
    let idx = spawn_player(&mut world, 0, 0);
    let hits = vec![
        DamageEvent { target: idx, amount: 200 },
        DamageEvent { target: idx, amount: 200 },
    ];
    let mut health = HealthSystem;
    health.run(&mut world, &hits);
    let e = &world.entities[idx];
    assert!(e.dead);
    assert_eq!(e.health.unwrap().current, 0);
    // The second lethal hit changed nothing: the respawn timer was not
    // restarted past its initial value and the entity is still there.
    assert!(e.alive);
}

#[test]
fn removing_removed_entity_is_noop() {
    let mut world = new_world();
    let idx = spawn_player(&mut world, 0, 0);
    world.remove(idx);
    world.remove(idx);
    assert!(!world.entities[idx].alive);
    assert_eq!(world.removed_this_tick.len(), 1);
    let deletes = EntityDeleteBroadcaster.delete_delta(&world);
    assert_eq!(deletes, vec![idx]);
}

#[test]
fn removed_entity_never_in_update_delta() {
    let mut world = new_world();
    let a = spawn_player(&mut world, 0, 0);
    let b = spawn_player(&mut world, 10, 10);
    world.remove(a);
    let updates = EntityStateBroadcaster.state_delta(&world);
    assert_eq!(updates, vec![b]);
    let deletes = EntityDeleteBroadcaster.delete_delta(&world);
    assert_eq!(deletes, vec![a]);
}

#[test]
fn created_and_removed_same_tick_only_deleted() {
    let mut world = new_world();
    world.begin_tick();
    let idx = spawn_player(&mut world, 0, 0);
    world.remove(idx);
    let updates = EntityStateBroadcaster.state_delta(&world);
    assert!(updates.is_empty());
    let deletes = EntityDeleteBroadcaster.delete_delta(&world);
    assert_eq!(deletes, vec![idx]);
}

// Sessions.

#[test]
fn duplicate_connection_yields_one_entity() {
    let mut world = new_world();
    let mut registry = SessionRegistry::new();
    let first = handle_connection(&mut registry, &mut world, 7, 0, 0, revolver(), 100);
    let second = handle_connection(&mut registry, &mut world, 7, 0, 0, revolver(), 100);
    assert_eq!(first, second);
    assert_eq!(world.entities.len(), 1);
    assert_eq!(registry.sessions.len(), 1);
}

#[test]
fn stale_session_is_replaced() {
    let mut world = new_world();
    let mut registry = SessionRegistry::new();
    let first = handle_connection(&mut registry, &mut world, 7, 0, 0, revolver(), 100).unwrap();
    world.remove(first);
    let second = handle_connection(&mut registry, &mut world, 7, 0, 0, revolver(), 100).unwrap();
    assert_ne!(first, second);
    assert!(world.entities[second].alive);
    assert_eq!(registry.sessions.len(), 1);
}

#[test]
fn handshake_carries_identity_and_snapshot() {
    let mut world = new_world();
    let mut registry = SessionRegistry::new();
    let other = spawn_player(&mut world, 10, 10);
    let idx = handle_connection(&mut registry, &mut world, 7, 0, 0, revolver(), 100).unwrap();
    let (init, snapshot) = handshake_response(&world, idx, 0, 0);
    assert_eq!(init.player_entity, idx);
    assert_eq!(snapshot, vec![other, idx]);
}

#[test]
fn disconnect_removes_session_and_entity() {
    let mut world = new_world();
    let mut registry = SessionRegistry::new();
    let idx = handle_connection(&mut registry, &mut world, 7, 0, 0, revolver(), 100).unwrap();
    handle_disconnect(&mut registry, &mut world, 7);
    assert!(!world.entities[idx].alive);
    assert!(registry.find(7).is_none());
}

// Commands.

fn command(seq: u64, action: MoveDirection, pressed: bool) -> InputCommand {
    InputCommand {
        seq,
        action,
        pressed,
        aim: Vector2 { x: 0, y: 0 },
        fire: false,
        reload: false,
    }
}

#[test]
fn stale_command_is_discarded() {
    let mut input = InputState::neutral();
    apply_command(&mut input, command(5, MoveDirection::Forward, true));
    assert!(input.forward);
    let before = input;
    apply_command(&mut input, command(3, MoveDirection::Forward, false));
    assert_eq!(input, before);
    assert!(input.forward);
    assert_eq!(input.last_seq, 5);
}

#[test]
fn transformer_applies_and_counts_drops() {
    let mut world = new_world();
    let mut registry = SessionRegistry::new();
    let idx = handle_connection(&mut registry, &mut world, 7, 0, 0, revolver(), 100).unwrap();
    let batch = vec![
        TaggedCommand { identity: 7, command: command(1, MoveDirection::Forward, true) },
        // Unknown identity: an expected race, dropped silently.
        TaggedCommand { identity: 9, command: command(1, MoveDirection::Forward, true) },
        // Malformed: aim far outside the world.
        TaggedCommand {
            identity: 7,
            command: InputCommand {
                seq: 2,
                action: MoveDirection::Forward,
                pressed: true,
                aim: Vector2 { x: 5_000_000_000, y: 0 },
                fire: false,
                reload: false,
            },
        },
    ];
    let mut transformer = CommandTransformer;
    let dropped = transformer.run(&registry, &mut world, &batch);
    assert_eq!(dropped, 2);
    assert!(world.entities[idx].input.forward);
}

// Lifespan and broadcasting.

fn spawn_transient(world: &mut World, ttl: u32) -> usize {
    let e = Entity {
        kind: EntityKind::Projectile,
        alive: true,
        dead: false,
        respawn_timer: 0,
        transform: Transform::at_position(0, 0),
        velocity: Velocity(Vector2 { x: 0, y: 0 }),
        input: InputState::neutral(),
        weapon: None,
        bounding: Some(BoundingCircle { radius: 12 }),
        health: None,
        lifespan: Some(ttl),
    };
    world.spawn(e).unwrap()
}

#[test]
fn lifespan_removes_exactly_on_tick_n() {
    let mut world = new_world();
    let idx = spawn_transient(&mut world, 3);
    let mut lifespan = LifespanSystem;
    for tick in 1..=3u32 {
        world.begin_tick();
        lifespan.run(&mut world);
        let deletes = EntityDeleteBroadcaster.delete_delta(&world);
        if tick < 3 {
            assert!(world.entities[idx].alive, "removed too early, tick {}", tick);
            assert!(deletes.is_empty());
        } else {
            assert!(!world.entities[idx].alive);
            assert_eq!(deletes, vec![idx]);
        }
    }
}

// Movement over the store, physics, shooting, collisions.

#[test]
fn movement_system_updates_facing_and_velocity() {
    let mut world = new_world();
    let idx = spawn_player(&mut world, 3, 3);
    world.entities[idx].input.forward = true;
    world.entities[idx].input.aim = Vector2 { x: 3, y: 2 };
    let mut movement = PlayerMovementSystem;
    movement.run(&mut world);
    let e = &world.entities[idx];
    assert_eq!(e.transform.rotation.dx, 0);
    assert_eq!(e.transform.rotation.dy, 1);
    assert_eq!(e.velocity.0, Vector2 { x: 0, y: 768 });
}

#[test]
fn physics_integrates_velocity() {
    let mut world = new_world();
    let idx = spawn_player(&mut world, 100, 200);
    world.entities[idx].velocity = Velocity(Vector2 { x: 12, y: -24 });
    let mut physics = PhysicsSystem;
    physics.run(&mut world);
    assert_eq!(world.entities[idx].transform.position, Vector2 { x: 112, y: 176 });
}

#[test]
fn shooter_spawns_projectile_and_spends_round() {
    let mut world = new_world();
    let idx = spawn_player(&mut world, 0, 0);
    world.entities[idx].input.fire = true;
    let mut shooter = ShooterSystem;
    shooter.run(&mut world, 0);
    assert_eq!(world.entities.len(), 2);
    assert_eq!(world.entities[idx].weapon.unwrap().ammo, 5);
    let p = &world.entities[1];
    assert!(matches!(p.kind, EntityKind::Projectile));
    // Facing down (the fresh transform), the bullet flies down at
    // bullet speed, and lives distance / speed = 1440 / 240 = 6 ticks.
    assert_eq!(p.velocity.0, Vector2 { x: 0, y: -240 });
    assert_eq!(p.lifespan, Some(6));
}

#[test]
fn spread_sample_is_clamped_to_the_cone() {
    // The revolver's cone allows a lateral offset of at most
    // 240 * 2 / 200 = 2 velocity units; a wild sample is clamped.
    let mut world = new_world();
    let idx = spawn_player(&mut world, 0, 0);
    world.entities[idx].input.fire = true;
    let mut shooter = ShooterSystem;
    shooter.run(&mut world, 100);
    // Facing straight down, the bullet keeps the clamped lateral.
    assert_eq!(world.entities[1].velocity.0, Vector2 { x: 2, y: -240 });
}

#[test]
fn projectile_hits_player() {
    let mut world = new_world();
    let victim = spawn_player(&mut world, 0, 0);
    let projectile = spawn_transient(&mut world, 100);
    // Give the projectile a source weapon so it carries damage.
    world.entities[projectile].weapon = Some(Weapon::new(revolver()));
    let mut collision = CollisionSystem;
    let damages = collision.run(&mut world);
    assert_eq!(damages.len(), 1);
    assert_eq!(damages[0].target, victim);
    assert_eq!(damages[0].amount, 5);
    assert!(!world.entities[projectile].alive);
    let mut health = HealthSystem;
    health.run(&mut world, &damages);
    assert_eq!(world.entities[victim].health.unwrap().current, 95);
}

#[test]
fn distant_circles_do_not_collide() {
    let mut world = new_world();
    spawn_player(&mut world, 0, 0);
    spawn_player(&mut world, 500, 500);
    let mut collision = CollisionSystem;
    let damages = collision.run(&mut world);
    assert!(damages.is_empty());
    assert!(world.removed_this_tick.is_empty());
}

#[test]
fn respawn_after_timer_preserves_identity() {
    let mut world = new_world();
    let idx = spawn_player(&mut world, 0, 0);
    let hits = vec![DamageEvent { target: idx, amount: 200 }];
    let mut health = HealthSystem;
    health.run(&mut world, &hits);
    assert!(world.entities[idx].dead);
    let mut respawn = RespawnSystem;
    for _ in 0..300 {
        respawn.run(&mut world, 48, 48);
        assert!(world.entities[idx].dead);
    }
    respawn.run(&mut world, 48, 48);
    let e = &world.entities[idx];
    assert!(!e.dead);
    assert_eq!(e.transform.position, Vector2 { x: 48, y: 48 });
    assert_eq!(e.health.unwrap().current, 100);
    assert_eq!(e.weapon.unwrap().ammo, 6);
}

// The unified event channel.

#[test]
fn channel_merges_and_readers_are_independent() {
    let mut channel: EventChannel<WestinyEvent> = EventChannel::new();
    let mut first = channel.register_reader();
    channel.single_write(WestinyEvent::EngineEvent(EngineEvent::KeyPressed(17)));
    channel.single_write(WestinyEvent::App(AppEvent::Disconnect));
    let mut second = channel.register_reader();
    channel.single_write(WestinyEvent::EngineEvent(EngineEvent::CloseRequested));

    let seen_first = channel.read(&mut first);
    assert_eq!(seen_first.len(), 3);
    assert!(matches!(
        seen_first[0],
        WestinyEvent::EngineEvent(EngineEvent::KeyPressed(17))
    ));
    assert!(matches!(seen_first[1], WestinyEvent::App(AppEvent::Disconnect)));
    assert!(matches!(
        seen_first[2],
        WestinyEvent::EngineEvent(EngineEvent::CloseRequested)
    ));

    // The second reader sees only what was written after it
    // registered; the first reader consumed nothing for it.
    let seen_second = channel.read(&mut second);
    assert_eq!(seen_second.len(), 1);
    assert!(matches!(
        seen_second[0],
        WestinyEvent::EngineEvent(EngineEvent::CloseRequested)
    ));

    // A second poll returns only what is newly available: nothing.
    let again = channel.read(&mut first);
    assert!(again.is_empty());
}

#[test]
fn server_tick_runs_the_whole_pipeline() {
    let mut world = new_world();
    let mut registry = SessionRegistry::new();
    let player = handle_connection(&mut registry, &mut world, 7, 36, 36, revolver(), 100).unwrap();

    // Tick 0: aim up and fire once.
    let fire_batch = vec![TaggedCommand {
        identity: 7,
        command: InputCommand {
            seq: 0,
            action: MoveDirection::Forward,
            pressed: false,
            aim: Vector2 { x: 36, y: 24 },
            fire: true,
            reload: false,
        },
    }];
    let (updates, deletes) = server_tick(&mut world, &registry, &fire_batch, 36, 36, 0);
    assert_eq!(world.entities.len(), 2);
    let projectile = 1usize;
    assert!(updates.contains(&player) && updates.contains(&projectile));
    assert!(deletes.is_empty());
    // The shooter spawned the bullet with six ticks to live and the
    // lifespan system already spent one in the same tick.
    assert_eq!(world.entities[projectile].lifespan, Some(5));

    // The bullet flies straight up and dies exactly five ticks later,
    // reported in that tick's delete delta and gone from the updates.
    for tick in 1u64..=5 {
        let quiet_batch = vec![TaggedCommand {
            identity: 7,
            command: InputCommand {
                seq: tick,
                action: MoveDirection::Forward,
                pressed: false,
                aim: Vector2 { x: 36, y: 24 },
                fire: false,
                reload: false,
            },
        }];
        let (updates, deletes) = server_tick(&mut world, &registry, &quiet_batch, 36, 36, 0);
        for d in &deletes {
            assert!(!updates.contains(d));
        }
        if tick < 5 {
            assert!(deletes.is_empty(), "deleted too early, tick {}", tick);
            assert!(world.entities[projectile].alive);
        } else {
            assert_eq!(deletes, vec![projectile]);
            assert!(!world.entities[projectile].alive);
        }
    }
}
