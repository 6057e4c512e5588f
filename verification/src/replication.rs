//! Replication: extract the per-tick payload describing current entity
//! state, and record per-tick snapshots for the history. Pure reads.

use crate::history::SnapshotPlayer;
use crate::math::Vec3;
use crate::world::{list_players, Player, Scene};
use vstd::prelude::*;

verus! {

/// One entity's replicated state: identifier, position and hit points.
#[derive(Clone, Copy, PartialEq, Eq, Structural, Debug)]
pub struct EntityDelta {
    pub id: u64,
    pub pos: Vec3,
    pub hp: u16,
}

/// The delta one entry of the player map replicates.
pub open spec fn delta_of(id: u64, p: Player) -> EntityDelta {
    EntityDelta { id, pos: Vec3 { x: p.pos.0, y: p.pos.1, z: p.pos.2 }, hp: p.health.hp }
}

/// The snapshot record one entry of the player map leaves in the history.
pub open spec fn snap_of(id: u64, p: Player) -> SnapshotPlayer {
    SnapshotPlayer {
        id,
        pos: Vec3 { x: p.pos.0, y: p.pos.1, z: p.pos.2 },
        radius: p.collider.radius,
    }
}

/// `v` replicates `m`: every live player exactly once, with its position
/// and hit points, and nothing else.
pub open spec fn deltas_match(v: Seq<EntityDelta>, m: Map<u64, Player>) -> bool {
    &&& forall|i: int, j: int| 0 <= i < j < v.len() ==> (#[trigger] v[i]).id != (#[trigger] v[j]).id
    &&& forall|i: int|
        0 <= i < v.len() ==> m.contains_key((#[trigger] v[i]).id) && v[i] == delta_of(
            v[i].id,
            m[v[i].id],
        )
    &&& forall|id: u64| #[trigger]
        m.contains_key(id) ==> exists|i: int| 0 <= i < v.len() && (#[trigger] v[i]).id == id
}

/// `v` records `m`: every live player exactly once, with its position and
/// collider radius, and nothing else.
pub open spec fn snapshot_matches(v: Seq<SnapshotPlayer>, m: Map<u64, Player>) -> bool {
    &&& forall|i: int, j: int| 0 <= i < j < v.len() ==> (#[trigger] v[i]).id != (#[trigger] v[j]).id
    &&& forall|i: int|
        0 <= i < v.len() ==> m.contains_key((#[trigger] v[i]).id) && v[i] == snap_of(
            v[i].id,
            m[v[i].id],
        )
    &&& forall|id: u64| #[trigger]
        m.contains_key(id) ==> exists|i: int| 0 <= i < v.len() && (#[trigger] v[i]).id == id
}

/// Produce the per-tick payload: one delta per live player. A pure read;
/// the order is stable within a call but otherwise unspecified by the store.
pub fn collect_deltas(scene: &Scene) -> (v: Vec<EntityDelta>)
    ensures
        deltas_match(v@, scene.players()),
{
    let list = list_players(scene);
    let mut out: Vec<EntityDelta> = Vec::new();
    let mut i: usize = 0;
    while i < list.len()
        invariant
            i <= list@.len(),
            forall|a: int, b: int|
                0 <= a < b < list@.len() ==> (#[trigger] list@[a]).0 != (#[trigger] list@[b]).0,
            forall|a: int|
                0 <= a < list@.len() ==> scene.players().contains_key((#[trigger] list@[a]).0)
                    && scene.players()[list@[a].0] == list@[a].1,
            forall|id: u64|
                scene.players().contains_key(id) ==> exists|a: int|
                    0 <= a < list@.len() && (#[trigger] list@[a]).0 == id,
            out@.len() == i,
            forall|a: int|
                0 <= a < i ==> (#[trigger] out@[a]) == delta_of(list@[a].0, list@[a].1),
        decreases list@.len() - i,
    {
        let pair = list[i];
        out.push(
            EntityDelta {
                id: pair.0,
                pos: Vec3 { x: pair.1.pos.0, y: pair.1.pos.1, z: pair.1.pos.2 },
                hp: pair.1.health.hp,
            },
        );
        i = i + 1;
    }
    proof {
        assert forall|a: int, b: int| 0 <= a < b < out@.len() implies (#[trigger] out@[a]).id != (
        #[trigger] out@[b]).id by {
            assert(out@[a].id == list@[a].0 && out@[b].id == list@[b].0);
        }
        assert forall|id: u64| #[trigger]
            scene.players().contains_key(id) implies exists|a: int|
            0 <= a < out@.len() && (#[trigger] out@[a]).id == id by {
            let a = choose|a: int| 0 <= a < list@.len() && (#[trigger] list@[a]).0 == id;
            assert(out@[a].id == id);
        }
    }
    out
}

/// Record the live players for the history: one record per live player.
pub fn snapshot_players(scene: &Scene) -> (v: Vec<SnapshotPlayer>)
    ensures
        snapshot_matches(v@, scene.players()),
{
    let list = list_players(scene);
    let mut out: Vec<SnapshotPlayer> = Vec::new();
    let mut i: usize = 0;
    while i < list.len()
        invariant
            i <= list@.len(),
            forall|a: int, b: int|
                0 <= a < b < list@.len() ==> (#[trigger] list@[a]).0 != (#[trigger] list@[b]).0,
            forall|a: int|
                0 <= a < list@.len() ==> scene.players().contains_key((#[trigger] list@[a]).0)
                    && scene.players()[list@[a].0] == list@[a].1,
            forall|id: u64|
                scene.players().contains_key(id) ==> exists|a: int|
                    0 <= a < list@.len() && (#[trigger] list@[a]).0 == id,
            out@.len() == i,
            forall|a: int|
                0 <= a < i ==> (#[trigger] out@[a]) == snap_of(list@[a].0, list@[a].1),
        decreases list@.len() - i,
    {
        let pair = list[i];
        out.push(
            SnapshotPlayer {
                id: pair.0,
                pos: Vec3 { x: pair.1.pos.0, y: pair.1.pos.1, z: pair.1.pos.2 },
                radius: pair.1.collider.radius,
            },
        );
        i = i + 1;
    }
    proof {
        assert forall|a: int, b: int| 0 <= a < b < out@.len() implies (#[trigger] out@[a]).id != (
        #[trigger] out@[b]).id by {
            assert(out@[a].id == list@[a].0 && out@[b].id == list@[b].0);
        }
        assert forall|id: u64| #[trigger]
            scene.players().contains_key(id) implies exists|a: int|
            0 <= a < out@.len() && (#[trigger] out@[a]).id == id by {
            let a = choose|a: int| 0 <= a < list@.len() && (#[trigger] list@[a]).0 == id;
            assert(out@[a].id == id);
        }
    }
    out
}

} // verus!
