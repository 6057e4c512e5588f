//! Movement integration: once per tick, advance every entity's position by
//! its velocity over the tick interval. Deterministic, and no entity's
//! integration depends on another's.

use crate::components::Pos;
use crate::input::clamp_coord;
use crate::math::{div_trunc, lemma_tdiv_bound, tdiv, COORD_MAX, MILLI};
use crate::world::{list_players, player_wf, set_motion, world_wf, Player, Scene};
use vstd::prelude::*;

verus! {

/// A player after one tick of motion: position advanced by velocity times
/// the tick interval (in milliseconds), clamped to the world bounds;
/// velocity and every other component unchanged.
pub open spec fn move_step(p: Player, dt_ms: u16) -> Player {
    Player {
        pos: Pos(
            clamp_coord(p.pos.0 + tdiv(p.vel.0 * dt_ms, MILLI as int)) as i64,
            clamp_coord(p.pos.1 + tdiv(p.vel.1 * dt_ms, MILLI as int)) as i64,
            clamp_coord(p.pos.2 + tdiv(p.vel.2 * dt_ms, MILLI as int)) as i64,
        ),
        vel: p.vel,
        health: p.health,
        collider: p.collider,
        tag: p.tag,
    }
}

/// Every player of the map, moved one tick.
pub open spec fn map_move(m: Map<u64, Player>, dt_ms: u16) -> Map<u64, Player> {
    Map::new(|id: u64| m.contains_key(id), |id: u64| move_step(m[id], dt_ms))
}

/// Some entry among the first `i` of the list carries this id.
pub open spec fn seen(list: Seq<(u64, Player)>, i: int, id: u64) -> bool {
    exists|a: int| 0 <= a < i && (#[trigger] list[a]).0 == id
}

/// Advance every player's position by its velocity over `dt_ms`.
#[verifier::rlimit(60)]
pub fn integrate(scene: &mut Scene, dt_ms: u16)
    requires
        old(scene).wf(),
        1 <= dt_ms <= 1000,
    ensures
        final(scene).wf(),
        final(scene).players() == map_move(old(scene).players(), dt_ms),
{
    let list = list_players(&*scene);
    let ghost m0 = scene.players();
    let n = list.len();
    let mut i: usize = 0;
    while i < n
        invariant
            n == list@.len(),
            i <= n,
            1 <= dt_ms <= 1000,
            world_wf(m0),
            forall|a: int, b: int|
                0 <= a < b < list@.len() ==> (#[trigger] list@[a]).0 != (#[trigger] list@[b]).0,
            forall|a: int|
                0 <= a < list@.len() ==> m0.contains_key((#[trigger] list@[a]).0) && m0[list@[a].0]
                    == list@[a].1,
            forall|id: u64|
                m0.contains_key(id) ==> exists|a: int|
                    0 <= a < list@.len() && (#[trigger] list@[a]).0 == id,
            scene.wf(),
            scene.players().dom() =~= m0.dom(),
            forall|id: u64| #[trigger]
                m0.contains_key(id) ==> scene.players()[id] == (if seen(list@, i as int, id) {
                    move_step(m0[id], dt_ms)
                } else {
                    m0[id]
                }),
        decreases n - i,
    {
        let pair = list[i];
        let id = pair.0;
        let p = pair.1;
        proof {
            assert(m0.contains_key(id) && m0[id] == p);
            assert(!seen(list@, i as int, id)) by {
                if seen(list@, i as int, id) {
                    let a = choose|a: int| 0 <= a < i && (#[trigger] list@[a]).0 == id;
                    assert(list@[a].0 != list@[i as int].0);
                }
            }
            assert(scene.players()[id] == p);
            assert(player_wf(p));
            assert(-6_000_000 <= (p.vel.0 as int) * (dt_ms as int) <= 6_000_000)
                by (nonlinear_arith)
                requires
                    -6000 <= p.vel.0 as int <= 6000,
                    0 <= dt_ms as int <= 1000;
            assert(-6_000_000 <= (p.vel.1 as int) * (dt_ms as int) <= 6_000_000)
                by (nonlinear_arith)
                requires
                    -6000 <= p.vel.1 as int <= 6000,
                    0 <= dt_ms as int <= 1000;
            assert(-6_000_000 <= (p.vel.2 as int) * (dt_ms as int) <= 6_000_000)
                by (nonlinear_arith)
                requires
                    -6000 <= p.vel.2 as int <= 6000,
                    0 <= dt_ms as int <= 1000;
            lemma_tdiv_bound((p.vel.0 as int) * (dt_ms as int), MILLI as int, 6000);
            lemma_tdiv_bound((p.vel.1 as int) * (dt_ms as int), MILLI as int, 6000);
            lemma_tdiv_bound((p.vel.2 as int) * (dt_ms as int), MILLI as int, 6000);
        }
        let dx = div_trunc(p.vel.0 * (dt_ms as i64), MILLI);
        let dy = div_trunc(p.vel.1 * (dt_ms as i64), MILLI);
        let dz = div_trunc(p.vel.2 * (dt_ms as i64), MILLI);
        let sx = p.pos.0 + dx;
        let sy = p.pos.1 + dy;
        let sz = p.pos.2 + dz;
        let px: i64 = if sx < -COORD_MAX { -COORD_MAX } else if sx > COORD_MAX { COORD_MAX } else { sx };
        let py: i64 = if sy < -COORD_MAX { -COORD_MAX } else if sy > COORD_MAX { COORD_MAX } else { sy };
        let pz: i64 = if sz < -COORD_MAX { -COORD_MAX } else if sz > COORD_MAX { COORD_MAX } else { sz };
        let ghost mcur = scene.players();
        set_motion(scene, id, Pos(px, py, pz), p.vel);
        proof {
            assert(scene.players() == mcur.insert(id, move_step(m0[id], dt_ms)));
            assert(scene.players().dom() =~= m0.dom());
            assert forall|id2: u64| #[trigger]
                m0.contains_key(id2) implies scene.players()[id2] == (if seen(
                list@,
                i as int + 1,
                id2,
            ) {
                move_step(m0[id2], dt_ms)
            } else {
                m0[id2]
            }) by {
                if id2 == id {
                    assert(list@[i as int].0 == id2);
                    assert(seen(list@, i as int + 1, id2));
                } else {
                    assert(scene.players()[id2] == mcur[id2]);
                    assert(seen(list@, i as int + 1, id2) == seen(list@, i as int, id2)) by {
                        if seen(list@, i as int + 1, id2) {
                            let a = choose|a: int|
                                0 <= a < i + 1 && (#[trigger] list@[a]).0 == id2;
                            assert(a != i);
                            assert(seen(list@, i as int, id2));
                        }
                        if seen(list@, i as int, id2) {
                            let a = choose|a: int| 0 <= a < i && (#[trigger] list@[a]).0 == id2;
                            assert(0 <= a < i + 1 && list@[a].0 == id2);
                        }
                    }
                }
            }
        }
        i = i + 1;
    }
    proof {
        assert forall|id: u64| #[trigger]
            m0.contains_key(id) implies scene.players()[id] == move_step(m0[id], dt_ms) by {
            assert(seen(list@, n as int, id));
        }
        assert(scene.players() =~= map_move(m0, dt_ms));
    }
}

} // verus!
