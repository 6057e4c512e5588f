//! The authoritative entity store. Entities live in a `hecs::World`; the
//! model of that store is a map from entity bits to the full player
//! component set, and every operation is specified against that map.

use crate::components::{Collider, Health, PlayerTag, Pos, Vel};
use crate::math::{COORD_MAX, RADIUS_MAX};
use vstd::prelude::*;

verus! {

/// Largest velocity component a player can reach (6 units per second).
pub const MAX_SPEED: i64 = 6000;

/// Collider radius given to a freshly spawned player (0.35 world units).
pub const SPAWN_RADIUS: i64 = 350;

#[verifier::external_type_specification]
#[verifier::external_body]
pub struct ExWorld(hecs::World);

/// One player entity's full component set, as the world model records it.
#[derive(Clone, Copy, PartialEq, Eq, Structural, Debug)]
pub struct Player {
    pub pos: Pos,
    pub vel: Vel,
    pub health: Health,
    pub collider: Collider,
    pub tag: PlayerTag,
}

/// The contents of a `hecs::World`: every entity holding the full player
/// component set (position, velocity, health, collider, identity), keyed by
/// its entity bits.
pub uninterp spec fn players_of(w: hecs::World) -> Map<u64, Player>;

/// A player whose components respect the world's bounds.
pub open spec fn player_wf(p: Player) -> bool {
    &&& -COORD_MAX <= p.pos.0 <= COORD_MAX
    &&& -COORD_MAX <= p.pos.1 <= COORD_MAX
    &&& -COORD_MAX <= p.pos.2 <= COORD_MAX
    &&& -MAX_SPEED <= p.vel.0 <= MAX_SPEED
    &&& -MAX_SPEED <= p.vel.1 <= MAX_SPEED
    &&& -MAX_SPEED <= p.vel.2 <= MAX_SPEED
    &&& 0 <= p.collider.radius <= RADIUS_MAX
    &&& p.health.hp <= p.health.max
}

pub open spec fn world_wf(m: Map<u64, Player>) -> bool {
    forall|id: u64| m.contains_key(id) ==> player_wf(m[id])
}

/// Relies on hecs::World::new: a new world holds no entities.
#[verifier::external_body]
fn world_new() -> (w: hecs::World)
    ensures
        players_of(w).dom() == Set::<u64>::empty(),
{
    hecs::World::new()
}

/// Relies on hecs::World::spawn, which allocates an entity handle not held
/// by any live entity, and on Entity::to_bits. The library only ever spawns
/// this full component bundle, so the spawned entity enters the model map.
#[verifier::external_body]
fn world_spawn(w: &mut hecs::World, p: Player) -> (id: u64)
    ensures
        !players_of(*old(w)).contains_key(id),
        players_of(*final(w)) == players_of(*old(w)).insert(id, p),
{
    w.spawn((p.pos, p.vel, p.health, p.collider, p.tag)).to_bits().get()
}

/// Relies on hecs::World::despawn and Entity::from_bits: despawning removes
/// the entity and all its components, while an unknown or stale handle
/// leaves the world unchanged; and on hecs::World::query_one over the full
/// player bundle to report whether the id named a live player.
#[verifier::external_body]
fn world_despawn(w: &mut hecs::World, id: u64) -> (was: bool)
    ensures
        players_of(*final(w)) == players_of(*old(w)).remove(id),
        was == players_of(*old(w)).contains_key(id),
{
    match hecs::Entity::from_bits(id) {
        Some(e) => {
            let mut q = w.query_one::<(&Pos, &Vel, &Health, &Collider, &PlayerTag)>(e);
            let was = q.get().is_ok();
            drop(q);
            let _ = w.despawn(e);
            was
        },
        None => false,
    }
}

/// Relies on hecs::World::query_one over the full player bundle: it yields
/// exactly the components the entity holds, or fails if any is missing.
#[verifier::external_body]
fn world_get(w: &hecs::World, id: u64) -> (r: Option<Player>)
    ensures
        (match r {
            Some(p) => players_of(*w).contains_key(id) && players_of(*w)[id] == p,
            None => !players_of(*w).contains_key(id),
        }),
{
    let e = hecs::Entity::from_bits(id)?;
    let mut q = w.query_one::<(&Pos, &Vel, &Health, &Collider, &PlayerTag)>(e);
    let (p, v, h, c, t) = q.get().ok()?;
    Some(Player { pos: *p, vel: *v, health: *h, collider: *c, tag: *t })
}

/// Relies on hecs::World::query_one_mut over (&mut Pos, &mut Vel): writing
/// through it replaces exactly those two components of that entity.
#[verifier::external_body]
fn world_set_motion(w: &mut hecs::World, id: u64, pos: Pos, vel: Vel)
    ensures
        players_of(*old(w)).contains_key(id) ==> players_of(*final(w)) == players_of(*old(w))
            .insert(
            id,
            (Player {
                pos,
                vel,
                health: players_of(*old(w))[id].health,
                collider: players_of(*old(w))[id].collider,
                tag: players_of(*old(w))[id].tag,
            }),
        ),
        !players_of(*old(w)).contains_key(id) ==> players_of(*final(w)) == players_of(*old(w)),
{
    if let Some(e) = hecs::Entity::from_bits(id) {
        if let Ok((p, v)) = w.query_one_mut::<(&mut Pos, &mut Vel)>(e) {
            *p = pos;
            *v = vel;
        }
    }
}

/// Relies on hecs::World::query_one_mut over &mut Health: writing through
/// it replaces exactly that component of that entity.
#[verifier::external_body]
fn world_set_health(w: &mut hecs::World, id: u64, health: Health)
    ensures
        players_of(*old(w)).contains_key(id) ==> players_of(*final(w)) == players_of(*old(w))
            .insert(
            id,
            (Player {
                pos: players_of(*old(w))[id].pos,
                vel: players_of(*old(w))[id].vel,
                health,
                collider: players_of(*old(w))[id].collider,
                tag: players_of(*old(w))[id].tag,
            }),
        ),
        !players_of(*old(w)).contains_key(id) ==> players_of(*final(w)) == players_of(*old(w)),
{
    if let Some(e) = hecs::Entity::from_bits(id) {
        if let Ok(h) = w.query_one_mut::<&mut Health>(e) {
            *h = health;
        }
    }
}

/// Relies on hecs::World::query over the full player bundle: the iteration
/// visits each such entity exactly once, in an order the store does not
/// specify, and on Entity::to_bits.
#[verifier::external_body]
fn world_players(w: &hecs::World) -> (v: Vec<(u64, Player)>)
    ensures
        forall|i: int, j: int| 0 <= i < j < v@.len() ==> (#[trigger] v@[i]).0 != (#[trigger] v@[j]).0,
        forall|i: int|
            0 <= i < v@.len() ==> players_of(*w).contains_key((#[trigger] v@[i]).0) && players_of(
                *w,
            )[v@[i].0] == v@[i].1,
        forall|id: u64|
            players_of(*w).contains_key(id) ==> exists|i: int|
                0 <= i < v@.len() && (#[trigger] v@[i]).0 == id,
{
    let mut out = Vec::new();
    let mut q = w.query::<(hecs::Entity, &Pos, &Vel, &Health, &Collider, &PlayerTag)>();
    for (e, p, v, h, c, t) in q.iter() {
        out.push((e.to_bits().get(), Player { pos: *p, vel: *v, health: *h, collider: *c, tag: *t }));
    }
    out
}

/// The scene owns the authoritative entity world.
pub struct Scene {
    pub world: hecs::World,
}

/// The components a freshly spawned player starts with: the origin, at
/// rest, full health, the spawn collider, and the client's identity.
pub open spec fn initial_player(client_id: u64) -> Player {
    Player {
        pos: Pos(0, 0, 0),
        vel: Vel(0, 0, 0),
        health: Health { hp: 100, max: 100 },
        collider: Collider { radius: SPAWN_RADIUS },
        tag: PlayerTag { id: client_id },
    }
}

impl Scene {
    pub open spec fn players(self) -> Map<u64, Player> {
        players_of(self.world)
    }

    pub open spec fn wf(self) -> bool {
        world_wf(self.players())
    }

    pub fn new() -> (s: Scene)
        ensures
            s.players() == Map::<u64, Player>::empty(),
            s.wf(),
    {
        let s = Scene { world: world_new() };
        proof {
            assert(s.players() =~= Map::<u64, Player>::empty());
        }
        s
    }
}

/// Spawn a player entity for a newly connected client and return its
/// entity bits; the new handle names no previously live entity.
pub fn spawn_player(scene: &mut Scene, client_id: u64) -> (id: u64)
    requires
        old(scene).wf(),
    ensures
        final(scene).wf(),
        !old(scene).players().contains_key(id),
        final(scene).players() == old(scene).players().insert(id, initial_player(client_id)),
{
    let p = Player {
        pos: Pos(0, 0, 0),
        vel: Vel(0, 0, 0),
        health: Health::default(),
        collider: Collider { radius: SPAWN_RADIUS },
        tag: PlayerTag { id: client_id },
    };
    let id = world_spawn(&mut scene.world, p);
    proof {
        assert forall|i: u64| final(scene).players().contains_key(i) implies player_wf(
            final(scene).players()[i],
        ) by {
            if i != id {
                assert(old(scene).players().contains_key(i));
            }
        }
    }
    id
}

/// Remove a player entity and all its components. Despawning an id that is
/// absent (or already despawned) is a no-op, not an error, and leaves every
/// other entity untouched.
pub fn despawn_player(scene: &mut Scene, id: u64) -> (was: bool)
    requires
        old(scene).wf(),
    ensures
        final(scene).wf(),
        final(scene).players() == old(scene).players().remove(id),
        was == old(scene).players().contains_key(id),
{
    let was = world_despawn(&mut scene.world, id);
    proof {
        assert forall|i: u64| final(scene).players().contains_key(i) implies player_wf(
            final(scene).players()[i],
        ) by {
            assert(old(scene).players().contains_key(i));
        }
    }
    was
}

/// Read one player's full component set.
pub fn get_player(scene: &Scene, id: u64) -> (r: Option<Player>)
    ensures
        (match r {
            Some(p) => scene.players().contains_key(id) && scene.players()[id] == p,
            None => !scene.players().contains_key(id),
        }),
{
    world_get(&scene.world, id)
}

/// List every live player with its entity bits, each exactly once, in an
/// order the store does not specify.
pub fn list_players(scene: &Scene) -> (v: Vec<(u64, Player)>)
    ensures
        forall|i: int, j: int| 0 <= i < j < v@.len() ==> (#[trigger] v@[i]).0 != (#[trigger] v@[j]).0,
        forall|i: int|
            0 <= i < v@.len() ==> scene.players().contains_key((#[trigger] v@[i]).0)
                && scene.players()[v@[i].0] == v@[i].1,
        forall|id: u64|
            scene.players().contains_key(id) ==> exists|i: int|
                0 <= i < v@.len() && (#[trigger] v@[i]).0 == id,
{
    world_players(&scene.world)
}

/// Idempotent despawn: removing an id twice leaves exactly the map that
/// removing it once leaves, and removal never touches any other entity's
/// entry — so a repeated or racing despawn is harmless.
pub proof fn lemma_despawn_idempotent(m: Map<u64, Player>, id: u64)
    ensures
        m.remove(id).remove(id) == m.remove(id),
        forall|other: u64|
            other != id ==> m.remove(id).contains_key(other) == m.contains_key(other),
        forall|other: u64|
            other != id && m.contains_key(other) ==> m.remove(id)[other] == m[other],
{
    assert(m.remove(id).remove(id) =~= m.remove(id));
}

/// A player after taking `dmg` damage: hit points reduced, saturating at zero.
pub open spec fn damaged(p: Player, dmg: u16) -> Player {
    Player {
        pos: p.pos,
        vel: p.vel,
        health: Health {
            hp: if p.health.hp >= dmg {
                (p.health.hp - dmg) as u16
            } else {
                0
            },
            max: p.health.max,
        },
        collider: p.collider,
        tag: p.tag,
    }
}

/// Apply damage to a player's live health. An absent victim (disconnect
/// race) is tolerated: nothing changes.
pub fn apply_damage(scene: &mut Scene, id: u64, dmg: u16) -> (hit: bool)
    requires
        old(scene).wf(),
    ensures
        final(scene).wf(),
        hit == old(scene).players().contains_key(id),
        hit ==> final(scene).players() == old(scene).players().insert(
            id,
            damaged(old(scene).players()[id], dmg),
        ),
        !hit ==> final(scene).players() == old(scene).players(),
{
    match get_player(&*scene, id) {
        None => false,
        Some(p) => {
            let nh: u16 = if p.health.hp >= dmg {
                p.health.hp - dmg
            } else {
                0
            };
            world_set_health(&mut scene.world, id, Health { hp: nh, max: p.health.max });
            proof {
                assert forall|i: u64| final(scene).players().contains_key(i) implies player_wf(
                    final(scene).players()[i],
                ) by {
                    assert(old(scene).players().contains_key(i));
                }
            }
            true
        },
    }
}

/// Update one player's position and velocity, leaving its other components
/// unchanged. An absent id changes nothing.
pub fn set_motion(scene: &mut Scene, id: u64, pos: Pos, vel: Vel)
    requires
        old(scene).wf(),
        -COORD_MAX <= pos.0 <= COORD_MAX,
        -COORD_MAX <= pos.1 <= COORD_MAX,
        -COORD_MAX <= pos.2 <= COORD_MAX,
        -MAX_SPEED <= vel.0 <= MAX_SPEED,
        -MAX_SPEED <= vel.1 <= MAX_SPEED,
        -MAX_SPEED <= vel.2 <= MAX_SPEED,
    ensures
        final(scene).wf(),
        old(scene).players().contains_key(id) ==> final(scene).players() == old(scene).players()
            .insert(
            id,
            (Player {
                pos,
                vel,
                health: old(scene).players()[id].health,
                collider: old(scene).players()[id].collider,
                tag: old(scene).players()[id].tag,
            }),
        ),
        !old(scene).players().contains_key(id) ==> final(scene).players() == old(scene).players(),
{
    world_set_motion(&mut scene.world, id, pos, vel);
    proof {
        assert forall|i: u64| final(scene).players().contains_key(i) implies player_wf(
            final(scene).players()[i],
        ) by {
            if !(old(scene).players().contains_key(id) && i == id) {
                assert(old(scene).players().contains_key(i));
            }
        }
    }
}

} // verus!
