//! The session registry — the live binding between network identities
//! and player entities — the client introduction handshake, and the
//! command transformer that writes decoded commands onto entity
//! intentions.

use vstd::prelude::*;
use crate::broadcast::EntityStateBroadcaster;
use crate::events::ClientInitialData;
use crate::math::Vector2;
use crate::movement::{InputState, MoveDirection, WORLD_BOUND, input_wf};
use crate::weapon::{WeaponDetails, weapon_details_wf};
use crate::world::{Entity, World, initialize_player, spec_player_entity, world_wf};

verus! {

/// One live session: a network identity bound to a player entity slot.
#[derive(Clone, Copy, PartialEq, Eq, Structural, Debug)]
pub struct SessionEntry {
    pub identity: u64,
    pub entity: usize,
}

/// Maps network identities to entities. Invariant: no identity holds
/// two sessions, and no two live sessions reference the same entity.
pub struct SessionRegistry {
    pub sessions: Vec<SessionEntry>,
}

pub open spec fn registry_wf(r: SessionRegistry) -> bool {
    forall|k1: int, k2: int| 0 <= k1 < k2 < r.sessions@.len() ==> #[trigger] r.sessions@[k1].identity
        != #[trigger] r.sessions@[k2].identity && r.sessions@[k1].entity != r.sessions@[k2].entity
}

/// Every registered entity names a slot of the world.
pub open spec fn registry_world_wf(r: SessionRegistry, w: World) -> bool {
    forall|k: int| 0 <= k < r.sessions@.len() ==> (#[trigger] r.sessions@[k]).entity
        < w.entities@.len()
}

/// The entity a registered identity is bound to, scanning from the
/// front.
pub open spec fn spec_find(s: Seq<SessionEntry>, identity: u64) -> Option<usize>
    decreases s.len(),
{
    if s.len() == 0 {
        None
    } else if s[0].identity == identity {
        Some(s[0].entity)
    } else {
        spec_find(s.drop_first(), identity)
    }
}

impl SessionRegistry {
    /// An empty registry.
    pub fn new() -> (r: SessionRegistry)
        ensures
            r.sessions@.len() == 0,
            registry_wf(r),
    {
        SessionRegistry { sessions: Vec::new() }
    }

    /// Resolves an identity to its entity, or `None` for an identity
    /// with no session.
    pub fn find(&self, identity: u64) -> (r: Option<usize>)
        ensures
            r == spec_find(self.sessions@, identity),
    {
        let mut i: usize = 0;
        proof {
            assert(self.sessions@.skip(0) =~= self.sessions@);
        }
        while i < self.sessions.len()
            invariant
                0 <= i <= self.sessions@.len(),
                spec_find(self.sessions@, identity) == spec_find(
                    self.sessions@.skip(i as int),
                    identity,
                ),
            decreases self.sessions@.len() - i,
        {
            if self.sessions[i].identity == identity {
                proof {
                    assert(self.sessions@.skip(i as int)[0] == self.sessions@[i as int]);
                    assert(spec_find(self.sessions@.skip(i as int), identity) == Some(
                        self.sessions@[i as int].entity,
                    ));
                }
                return Some(self.sessions[i].entity);
            }
            proof {
                assert(self.sessions@.skip(i as int).drop_first() =~= self.sessions@.skip(i + 1));
                assert(self.sessions@.skip(i as int)[0] == self.sessions@[i as int]);
            }
            i += 1;
        }
        proof {
            assert(self.sessions@.skip(self.sessions@.len() as int)
                =~= Seq::<SessionEntry>::empty());
        }
        None
    }
}

/// A registered identity resolves to the entry that carries it.
pub proof fn lemma_find_some(s: Seq<SessionEntry>, identity: u64)
    ensures
        match spec_find(s, identity) {
            Some(e) => exists|k: int| 0 <= k < s.len() && s[k] == (SessionEntry {
                identity,
                entity: e,
            }),
            None => forall|k: int| 0 <= k < s.len() ==> (#[trigger] s[k]).identity != identity,
        },
    decreases s.len(),
{
    if s.len() > 0 {
        if s[0].identity == identity {
            assert(s[0] == (SessionEntry { identity, entity: s[0].entity }));
        } else {
            lemma_find_some(s.drop_first(), identity);
            match spec_find(s, identity) {
                Some(e) => {
                    let k = choose|k: int| 0 <= k < s.drop_first().len() && s.drop_first()[k]
                        == (SessionEntry { identity, entity: e });
                    assert(s[k + 1] == (SessionEntry { identity, entity: e }));
                },
                None => {
                    assert forall|k: int| 0 <= k < s.len() implies (#[trigger] s[k]).identity
                        != identity by {
                        if k > 0 {
                            assert(s.drop_first()[k - 1] == s[k]);
                        }
                    }
                },
            }
        }
    }
}

/// Whether an identity holds a session whose entity is still live in
/// the world.
pub open spec fn spec_session_live(reg: Seq<SessionEntry>, w: World, identity: u64) -> bool {
    match spec_find(reg, identity) {
        Some(e) => e < w.entities@.len() && w.entities@[e as int].alive,
        None => false,
    }
}

/// Handles one `Connection` success event for `identity`: the one-time
/// client introduction.
///
/// If the identity already has a session whose entity is still live,
/// nothing changes and that entity is returned — a duplicate
/// connection never creates a second entity. A stale session (its
/// entity removed) is replaced: the entry is dropped, a fresh player
/// is spawned and registered. With no session at all, a fresh player
/// is spawned and registered. Returns `None` only when the store is at
/// capacity; the registry then holds no session for the identity and
/// the next event may retry.
pub fn handle_connection(
    registry: &mut SessionRegistry,
    world: &mut World,
    identity: u64,
    start_x: i64,
    start_y: i64,
    details: WeaponDetails,
    max_health: u32,
) -> (r: Option<usize>)
    requires
        registry_wf(*old(registry)),
        registry_world_wf(*old(registry), *old(world)),
        world_wf(*old(world)),
        weapon_details_wf(details),
        -WORLD_BOUND <= start_x <= WORLD_BOUND,
        -WORLD_BOUND <= start_y <= WORLD_BOUND,
    ensures
        registry_wf(*final(registry)),
        registry_world_wf(*final(registry), *final(world)),
        world_wf(*final(world)),
        final(world).capacity == old(world).capacity,
        spec_session_live(old(registry).sessions@, *old(world), identity) ==> {
            &&& r == spec_find(old(registry).sessions@, identity)
            &&& *final(world) == *old(world)
            &&& *final(registry) == *old(registry)
        },
        !spec_session_live(old(registry).sessions@, *old(world), identity) && old(
            world,
        ).entities@.len() < old(world).capacity ==> {
            &&& r == Some(old(world).entities@.len() as usize)
            &&& final(world).entities@ == old(world).entities@.push(
                spec_player_entity(start_x, start_y, details, max_health),
            )
        },
        r is Some ==> spec_find(final(registry).sessions@, identity) == r
            && final(world).entities@[r->0 as int].alive,
        r is None ==> old(world).entities@.len() >= old(world).capacity
            && spec_find(final(registry).sessions@, identity) is None
            && final(world).entities == old(world).entities,
{
    let found = registry.find(identity);
    proof {
        lemma_find_some(registry.sessions@, identity);
    }
    match found {
        Some(e) => {
            if e < world.entities.len() && world.entities[e].alive {
                return Some(e);
            }
            remove_session(registry, identity);
            introduce(registry, world, identity, start_x, start_y, details, max_health)
        },
        None => introduce(registry, world, identity, start_x, start_y, details, max_health),
    }
}

/// Drops the session of `identity`, if any.
///
/// Used by the disconnect path and by stale-session replacement; the
/// entity itself is the caller's to remove.
pub fn remove_session(registry: &mut SessionRegistry, identity: u64) -> (r: Option<usize>)
    requires
        registry_wf(*old(registry)),
    ensures
        registry_wf(*final(registry)),
        r == spec_find(old(registry).sessions@, identity),
        spec_find(final(registry).sessions@, identity) is None,
        forall|k: int| 0 <= k < final(registry).sessions@.len()
            ==> old(registry).sessions@.contains(#[trigger] final(registry).sessions@[k]),
        forall|k: int| 0 <= k < old(registry).sessions@.len()
            && (#[trigger] old(registry).sessions@[k]).identity != identity
            ==> final(registry).sessions@.contains(old(registry).sessions@[k]),
{
    proof {
        lemma_find_some(registry.sessions@, identity);
    }
    let ghost orig = registry.sessions@;
    let mut kept: Vec<SessionEntry> = Vec::new();
    let mut i: usize = 0;
    let mut removed: Option<usize> = None;
    while i < registry.sessions.len()
        invariant
            0 <= i <= orig.len(),
            registry.sessions@ == orig,
            registry_wf(*old(registry)),
            forall|k: int| 0 <= k < kept@.len() ==> (#[trigger] kept@[k]).identity != identity,
            forall|k: int| 0 <= k < kept@.len() ==> orig.take(i as int).contains(
                #[trigger] kept@[k],
            ),
            forall|k: int| 0 <= k < i && (#[trigger] orig[k]).identity != identity
                ==> kept@.contains(orig[k]),
            forall|k1: int, k2: int| 0 <= k1 < k2 < kept@.len() ==> #[trigger] kept@[k1].identity
                != #[trigger] kept@[k2].identity && kept@[k1].entity != kept@[k2].entity,
            removed == if exists|k: int| 0 <= k < i && (#[trigger] orig[k]).identity == identity {
                Some(orig[choose|k: int| 0 <= k < i && (#[trigger] orig[k]).identity == identity].entity)
            } else {
                Option::<usize>::None
            },
        decreases orig.len() - i,
    {
        let entry = registry.sessions[i];
        if entry.identity == identity {
            removed = Some(entry.entity);
            proof {
                assert(orig[i as int].identity == identity);
                assert forall|k: int| 0 <= k < kept@.len() implies orig.take(i + 1).contains(
                    #[trigger] kept@[k],
                ) by {
                    let m = choose|m: int| 0 <= m < i && orig.take(i as int)[m] == kept@[k];
                    assert(orig.take(i + 1)[m] == kept@[k]);
                }
            }
        } else {
            let ghost kept0 = kept@;
            kept.push(entry);
            proof {
                assert forall|k: int| 0 <= k < kept@.len() implies orig.take(i + 1).contains(
                    #[trigger] kept@[k],
                ) by {
                    if k < kept0.len() {
                        assert(kept@[k] == kept0[k]);
                        assert(orig.take(i as int).contains(kept0[k]));
                        let m = choose|m: int| 0 <= m < i && orig.take(i as int)[m] == kept0[k];
                        assert(orig.take(i + 1)[m] == kept@[k]);
                    } else {
                        assert(kept@[k] == orig[i as int]);
                        assert(orig.take(i + 1)[i as int] == orig[i as int]);
                    }
                }
                assert forall|k: int| 0 <= k < i + 1 && (#[trigger] orig[k]).identity != identity
                    implies kept@.contains(orig[k]) by {
                    if k < i {
                        assert(kept0.contains(orig[k]));
                        let m = choose|m: int| 0 <= m < kept0.len() && kept0[m] == orig[k];
                        assert(kept@[m] == orig[k]);
                    } else {
                        assert(kept@[kept0.len() as int] == orig[k]);
                    }
                }
                assert forall|k1: int, k2: int| 0 <= k1 < k2 < kept@.len() implies
                    #[trigger] kept@[k1].identity != #[trigger] kept@[k2].identity
                    && kept@[k1].entity != kept@[k2].entity by {
                    if k2 == kept@.len() - 1 {
                        assert(orig.take(i as int).contains(kept@[k1]));
                        let m = choose|m: int| 0 <= m < i && orig.take(i as int)[m] == kept@[k1];
                        assert(orig[m] == kept@[k1]);
                        assert(kept@[k2] == orig[i as int]);
                    } else {
                        assert(kept0[k1] == kept@[k1] && kept0[k2] == kept@[k2]);
                    }
                }
            }
        }
        i += 1;
    }
    proof {
        assert(orig.take(orig.len() as int) =~= orig);
    }
    registry.sessions = kept;
    proof {
        lemma_find_some(registry.sessions@, identity);
        if spec_find(registry.sessions@, identity) is Some {
            let k = choose|k: int| 0 <= k < registry.sessions@.len() && registry.sessions@[k]
                == (SessionEntry {
                identity,
                entity: spec_find(registry.sessions@, identity)->0,
            });
        }
        if spec_find(orig, identity) is Some {
            let e = spec_find(orig, identity)->0;
            let k = choose|k: int| 0 <= k < orig.len() && orig[k] == (SessionEntry {
                identity,
                entity: e,
            });
            assert(exists|m: int| 0 <= m < orig.len() && (#[trigger] orig[m]).identity
                == identity);
            let m = choose|m: int| 0 <= m < orig.len() && (#[trigger] orig[m]).identity
                == identity;
            assert(removed == Some(orig[m].entity));
            if m != k {
                assert(false);
            }
        } else {
            assert(forall|k: int| 0 <= k < orig.len() ==> (#[trigger] orig[k]).identity
                != identity);
            assert(removed is None);
        }
    }
    removed
}

/// Spawns a fresh player and registers the identity with it; the
/// identity must hold no session.
fn introduce(
    registry: &mut SessionRegistry,
    world: &mut World,
    identity: u64,
    start_x: i64,
    start_y: i64,
    details: WeaponDetails,
    max_health: u32,
) -> (r: Option<usize>)
    requires
        registry_wf(*old(registry)),
        registry_world_wf(*old(registry), *old(world)),
        world_wf(*old(world)),
        weapon_details_wf(details),
        spec_find(old(registry).sessions@, identity) is None,
        -WORLD_BOUND <= start_x <= WORLD_BOUND,
        -WORLD_BOUND <= start_y <= WORLD_BOUND,
    ensures
        registry_wf(*final(registry)),
        registry_world_wf(*final(registry), *final(world)),
        world_wf(*final(world)),
        final(world).capacity == old(world).capacity,
        old(world).entities@.len() < old(world).capacity ==> r == Some(
            old(world).entities@.len() as usize,
        ),
        r is Some ==> spec_find(final(registry).sessions@, identity) == r
            && final(world).entities@[r->0 as int].alive
            && final(world).entities@ == old(world).entities@.push(
            spec_player_entity(start_x, start_y, details, max_health),
        ),
        r is None ==> old(world).entities@.len() >= old(world).capacity
            && spec_find(final(registry).sessions@, identity) is None
            && final(world).entities == old(world).entities
            && final(registry).sessions == old(registry).sessions,
{
    proof {
        lemma_find_some(registry.sessions@, identity);
    }
    let spawned = initialize_player(world, start_x, start_y, details, max_health);
    match spawned {
        Some(idx) => {
            let ghost before = registry.sessions@;
            registry.sessions.push(SessionEntry { identity, entity: idx });
            proof {
                assert forall|k1: int, k2: int| 0 <= k1 < k2 < registry.sessions@.len() implies
                    #[trigger] registry.sessions@[k1].identity
                    != #[trigger] registry.sessions@[k2].identity
                    && registry.sessions@[k1].entity != registry.sessions@[k2].entity by {
                    if k2 == registry.sessions@.len() - 1 {
                        assert(before[k1] == registry.sessions@[k1]);
                    }
                }
                lemma_find_push(before, identity, idx);
            }
            Some(idx)
        },
        None => None,
    }
}

/// Finding an identity absent from `s` in `s` extended with that
/// identity's fresh entry yields the fresh entry.
pub proof fn lemma_find_push(s: Seq<SessionEntry>, identity: u64, entity: usize)
    requires
        spec_find(s, identity) is None,
    ensures
        spec_find(s.push(SessionEntry { identity, entity }), identity) == Some(entity),
    decreases s.len(),
{
    let t = s.push(SessionEntry { identity, entity });
    if s.len() == 0 {
        assert(t[0] == (SessionEntry { identity, entity }));
    } else {
        assert(t[0] == s[0]);
        assert(t.drop_first() =~= s.drop_first().push(SessionEntry { identity, entity }));
        lemma_find_push(s.drop_first(), identity, entity);
    }
}

/// The handshake response of a successful introduction: the client's
/// assigned entity identity with its start position, plus a snapshot
/// of the slots of all currently live entities.
pub fn handshake_response(world: &World, entity: usize, start_x: i64, start_y: i64) -> (r: (
    ClientInitialData,
    Vec<usize>,
))
    requires
        world_wf(*world),
    ensures
        r.0 == (ClientInitialData { player_entity: entity, start_x, start_y }),
        forall|x: usize| r.1@.contains(x) <==> x < world.entities@.len()
            && world.entities@[x as int].alive,
{
    let snapshot = EntityStateBroadcaster.state_delta(world);
    (ClientInitialData { player_entity: entity, start_x, start_y }, snapshot)
}

/// Handles a `Disconnect` or `Connection` failure event: drops the
/// identity's session and marks its entity for deletion through the
/// same removal path death and lifespan use, so the delete broadcast
/// stays uniform. With no session, or a stale one, this is a silent
/// no-op on the store.
pub fn handle_disconnect(registry: &mut SessionRegistry, world: &mut World, identity: u64)
    requires
        registry_wf(*old(registry)),
        registry_world_wf(*old(registry), *old(world)),
        world_wf(*old(world)),
    ensures
        registry_wf(*final(registry)),
        registry_world_wf(*final(registry), *final(world)),
        world_wf(*final(world)),
        final(world).capacity == old(world).capacity,
        final(world).entities@.len() == old(world).entities@.len(),
        spec_find(final(registry).sessions@, identity) is None,
        match spec_find(old(registry).sessions@, identity) {
            Some(e) => !final(world).entities@[e as int].alive && forall|j: int| 0 <= j < old(
                world,
            ).entities@.len() && j != e ==> final(world).entities@[j] == old(world).entities@[j],
            None => final(world).entities == old(world).entities,
        },
{
    proof {
        lemma_find_some(registry.sessions@, identity);
    }
    let removed = remove_session(registry, identity);
    match removed {
        Some(e) => {
            if e < world.entities.len() {
                world.remove(e);
            }
        },
        None => {},
    }
}

/// One decoded client command: an intention change for the tick,
/// ordered per client by its sequence number.
#[derive(Clone, Copy, PartialEq, Eq, Structural, Debug)]
pub struct InputCommand {
    pub seq: u64,
    /// Which movement direction the action names.
    pub action: MoveDirection,
    /// Whether the action was pressed or released.
    pub pressed: bool,
    /// Aim target in fixed position units.
    pub aim: Vector2,
    pub fire: bool,
    pub reload: bool,
}

/// A command tagged with its sender's identity.
#[derive(Clone, Copy, PartialEq, Eq, Structural, Debug)]
pub struct TaggedCommand {
    pub identity: u64,
    pub command: InputCommand,
}

/// A command whose aim lies outside the world is malformed and never
/// reaches an entity.
pub open spec fn spec_command_ok(c: InputCommand) -> bool {
    &&& -WORLD_BOUND <= c.aim.x <= WORLD_BOUND
    &&& -WORLD_BOUND <= c.aim.y <= WORLD_BOUND
}

/// The intention after one command: a command older than the last
/// applied sequence number is discarded without touching anything;
/// a current one toggles its named direction and overwrites aim, fire
/// and reload.
pub open spec fn spec_apply_command(i: InputState, c: InputCommand) -> InputState {
    if c.seq < i.last_seq {
        i
    } else {
        InputState {
            forward: if c.action == MoveDirection::Forward {
                c.pressed
            } else {
                i.forward
            },
            backward: if c.action == MoveDirection::Backward {
                c.pressed
            } else {
                i.backward
            },
            strafe_left: if c.action == MoveDirection::StrafeLeft {
                c.pressed
            } else {
                i.strafe_left
            },
            strafe_right: if c.action == MoveDirection::StrafeRight {
                c.pressed
            } else {
                i.strafe_right
            },
            aim: c.aim,
            fire: c.fire,
            reload: c.reload,
            last_seq: c.seq,
        }
    }
}

/// Writes one command onto an intention. A stale command — sequence
/// number lower than the last applied — is discarded and the intention
/// is left exactly as it was.
pub fn apply_command(input: &mut InputState, cmd: InputCommand)
    requires
        input_wf(*old(input)),
        spec_command_ok(cmd),
    ensures
        *final(input) == spec_apply_command(*old(input), cmd),
        cmd.seq < old(input).last_seq ==> *final(input) == *old(input),
        input_wf(*final(input)),
{
    if cmd.seq < input.last_seq {
        return ;
    }
    match cmd.action {
        MoveDirection::Forward => input.forward = cmd.pressed,
        MoveDirection::Backward => input.backward = cmd.pressed,
        MoveDirection::StrafeLeft => input.strafe_left = cmd.pressed,
        MoveDirection::StrafeRight => input.strafe_right = cmd.pressed,
    }
    input.aim = cmd.aim;
    input.fire = cmd.fire;
    input.reload = cmd.reload;
    input.last_seq = cmd.seq;
}

/// Whether a command reaches no entity: malformed, its identity has no
/// session, or the session's entity is out of range or removed —
/// silent, expected races.
pub open spec fn spec_command_dropped(
    reg: Seq<SessionEntry>,
    s: Seq<Entity>,
    tc: TaggedCommand,
) -> bool {
    if !spec_command_ok(tc.command) {
        true
    } else {
        match spec_find(reg, tc.identity) {
            Some(e) => !(e < s.len() && s[e as int].alive),
            None => true,
        }
    }
}

/// The store after one tagged command.
pub open spec fn spec_transform_step(
    reg: Seq<SessionEntry>,
    s: Seq<Entity>,
    tc: TaggedCommand,
) -> Seq<Entity> {
    if spec_command_dropped(reg, s, tc) {
        s
    } else {
        let e = spec_find(reg, tc.identity)->0;
        s.update(
            e as int,
            Entity { input: spec_apply_command(s[e as int].input, tc.command), ..s[e as int] },
        )
    }
}

/// The store after the first `k` commands of a batch, in order.
pub open spec fn spec_transform_fold(
    reg: Seq<SessionEntry>,
    s: Seq<Entity>,
    batch: Seq<TaggedCommand>,
    k: int,
) -> Seq<Entity>
    decreases k,
{
    if k <= 0 {
        s
    } else {
        spec_transform_step(reg, spec_transform_fold(reg, s, batch, k - 1), batch[k - 1])
    }
}

/// How many of the first `k` commands of a batch reach no entity.
pub open spec fn spec_dropped_count(
    reg: Seq<SessionEntry>,
    s: Seq<Entity>,
    batch: Seq<TaggedCommand>,
    k: int,
) -> int
    decreases k,
{
    if k <= 0 {
        0
    } else {
        spec_dropped_count(reg, s, batch, k - 1) + if spec_command_dropped(
            reg,
            spec_transform_fold(reg, s, batch, k - 1),
            batch[k - 1],
        ) {
            1int
        } else {
            0int
        }
    }
}

/// Writes the tick's inbound command batch onto entity intentions,
/// resolving each sender through the session registry.
pub struct CommandTransformer;

impl CommandTransformer {
    /// Applies a batch of tagged commands in order and returns how
    /// many were dropped — malformed or unresolved, the expected
    /// races, counted for diagnostics.
    pub fn run(
        &mut self,
        registry: &SessionRegistry,
        world: &mut World,
        batch: &Vec<TaggedCommand>,
    ) -> (dropped: usize)
        requires
            world_wf(*old(world)),
        ensures
            world_wf(*final(world)),
            final(world).capacity == old(world).capacity,
            final(world).removed_this_tick == old(world).removed_this_tick,
            final(world).entities@ == spec_transform_fold(
                registry.sessions@,
                old(world).entities@,
                batch@,
                batch@.len() as int,
            ),
            dropped == spec_dropped_count(
                registry.sessions@,
                old(world).entities@,
                batch@,
                batch@.len() as int,
            ),
    {
        let ghost orig = world.entities@;
        let ghost reg = registry.sessions@;
        let mut dropped: usize = 0;
        let mut k: usize = 0;
        while k < batch.len()
            invariant
                world_wf(*world),
                world.capacity == old(world).capacity,
                world.removed_this_tick == old(world).removed_this_tick,
                0 <= k <= batch@.len(),
                registry.sessions@ == reg,
                world.entities@ == spec_transform_fold(reg, orig, batch@, k as int),
                dropped == spec_dropped_count(reg, orig, batch@, k as int),
                dropped <= k,
            decreases batch@.len() - k,
        {
            let tc = batch[k];
            let c = tc.command;
            let ok = -WORLD_BOUND <= c.aim.x && c.aim.x <= WORLD_BOUND && -WORLD_BOUND <= c.aim.y
                && c.aim.y <= WORLD_BOUND;
            let mut applied = false;
            if ok {
                match registry.find(tc.identity) {
                    Some(e) => {
                        if e < world.entities.len() {
                            let ent = world.entities[e];
                            if ent.alive {
                                let mut ent2 = ent;
                                apply_command(&mut ent2.input, c);
                                world.entities.set(e, ent2);
                                applied = true;
                            }
                        }
                    },
                    None => {},
                }
            }
            if !applied {
                dropped = dropped + 1;
            }
            k += 1;
        }
        dropped
    }
}

} // verus!
