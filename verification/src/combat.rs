//! Hit resolution: a fire command resolves to at most one victim, the
//! qualifying candidate closest along the ray, the shooter excluded.

use crate::history::SnapshotPlayer;
use crate::math::{
    dir_bounded, in_world, norm, norm_spec, ray_sphere, ray_sphere_spec, unit_bounded, Vec3,
    RADIUS_MAX,
};
use vstd::prelude::*;

verus! {

/// A fire command to resolve: who shot, from where, in which direction and
/// how far the shot carries (milli-units).
#[derive(Clone, Copy, PartialEq, Eq, Structural, Debug)]
pub struct FireEvent {
    pub shooter_id: u64,
    pub origin: Vec3,
    pub dir: Vec3,
    pub range: i64,
}

/// The outcome of hit resolution over one candidate set.
#[derive(Clone, Copy, PartialEq, Eq, Structural, Debug)]
pub enum Hit {
    Miss,
    Victim(u64),
}

/// The ray's intersection distance with a candidate's collider.
pub open spec fn hit_dist(sp: SnapshotPlayer, o: Vec3, d: Vec3) -> int {
    ray_sphere_spec(o, d, sp.pos, sp.radius as int)->Some_0
}

/// A candidate qualifies when it is not the shooter and the ray meets its
/// collider at a distance `t` with `0 <= t <= range`.
pub open spec fn qualifies(sp: SnapshotPlayer, shooter: u64, o: Vec3, d: Vec3, range: int) -> bool {
    &&& sp.id != shooter
    &&& ray_sphere_spec(o, d, sp.pos, sp.radius as int) is Some
    &&& 0 <= hit_dist(sp, o, d) <= range
}

/// The winner among the candidates: the qualifying one with the smallest
/// intersection distance, an earlier candidate kept on an exact tie.
pub open spec fn best_hit(
    cands: Seq<SnapshotPlayer>,
    shooter: u64,
    o: Vec3,
    d: Vec3,
    range: int,
) -> Option<(u64, int)>
    decreases cands.len(),
{
    if cands.len() == 0 {
        None
    } else {
        let acc = best_hit(cands.drop_last(), shooter, o, d, range);
        let sp = cands.last();
        if qualifies(sp, shooter, o, d, range) && (acc is None || hit_dist(sp, o, d) < (
        acc->Some_0).1) {
            Some((sp.id, hit_dist(sp, o, d)))
        } else {
            acc
        }
    }
}

/// Resolve a fire command against an explicit candidate set (a snapshot's
/// players, or the live ones): the victim is the qualifying candidate
/// closest along the normalized ray, or nobody.
pub fn hitscan(cands: &Vec<SnapshotPlayer>, evt: &FireEvent) -> (h: Hit)
    requires
        in_world(evt.origin),
        dir_bounded(evt.dir),
        0 <= evt.range,
        forall|k: int|
            0 <= k < cands@.len() ==> in_world((#[trigger] cands@[k]).pos) && 0 <= cands@[k].radius
                <= RADIUS_MAX,
    ensures
        (match best_hit(cands@, evt.shooter_id, evt.origin, norm_spec(evt.dir), evt.range as int) {
            Some(p) => h == Hit::Victim(p.0),
            None => h == Hit::Miss,
        }),
{
    let d = norm(evt.dir);
    let mut best: Option<(u64, i64)> = None;
    let mut k: usize = 0;
    while k < cands.len()
        invariant
            k <= cands@.len(),
            unit_bounded(d),
            d == norm_spec(evt.dir),
            in_world(evt.origin),
            0 <= evt.range,
            forall|a: int|
                0 <= a < cands@.len() ==> in_world((#[trigger] cands@[a]).pos) && 0 <= cands@[a].radius
                    <= RADIUS_MAX,
            (match best_hit(
                cands@.take(k as int),
                evt.shooter_id,
                evt.origin,
                d,
                evt.range as int,
            ) {
                Some(p) => best is Some && (best->Some_0).0 == p.0 && (best->Some_0).1 as int
                    == p.1,
                None => best is None,
            }),
        decreases cands@.len() - k,
    {
        let sp = cands[k];
        proof {
            assert(cands@.take(k as int + 1).drop_last() =~= cands@.take(k as int));
            assert(cands@.take(k as int + 1).last() == cands@[k as int]);
        }
        if sp.id != evt.shooter_id {
            match ray_sphere(evt.origin, d, sp.pos, sp.radius) {
                Some(t) => {
                    if t <= evt.range {
                        let replace = match best {
                            None => true,
                            Some(b) => t < b.1,
                        };
                        if replace {
                            best = Some((sp.id, t));
                        }
                    }
                },
                None => {},
            }
        }
        k = k + 1;
    }
    proof {
        assert(cands@.take(cands@.len() as int) =~= cands@);
    }
    match best {
        None => Hit::Miss,
        Some(b) => Hit::Victim(b.0),
    }
}

/// Hit determinism: when resolution names a victim, that victim is a
/// qualifying candidate (so never the shooter, never a collider the ray
/// misses or that lies wholly behind the origin), and its intersection
/// distance is minimal among all qualifying candidates; when it names
/// nobody, no candidate qualifies.
pub proof fn lemma_best_hit_props(
    cands: Seq<SnapshotPlayer>,
    shooter: u64,
    o: Vec3,
    d: Vec3,
    range: int,
)
    ensures
        (match best_hit(cands, shooter, o, d, range) {
            Some(p) => {
                &&& exists|k: int|
                    0 <= k < cands.len() && (#[trigger] cands[k]).id == p.0 && qualifies(
                        cands[k],
                        shooter,
                        o,
                        d,
                        range,
                    ) && hit_dist(cands[k], o, d) == p.1
                &&& forall|k: int|
                    0 <= k < cands.len() && qualifies(#[trigger] cands[k], shooter, o, d, range)
                        ==> p.1 <= hit_dist(cands[k], o, d)
                &&& p.0 != shooter
            },
            None => forall|k: int|
                0 <= k < cands.len() ==> !qualifies(#[trigger] cands[k], shooter, o, d, range),
        }),
    decreases cands.len(),
{
    if cands.len() == 0 {
    } else {
        let pre = cands.drop_last();
        lemma_best_hit_props(pre, shooter, o, d, range);
        let acc = best_hit(pre, shooter, o, d, range);
        let sp = cands.last();
        assert(forall|k: int| 0 <= k < pre.len() ==> #[trigger] pre[k] == cands[k]);
        if qualifies(sp, shooter, o, d, range) && (acc is None || hit_dist(sp, o, d) < (
        acc->Some_0).1) {
            let p = best_hit(cands, shooter, o, d, range)->Some_0;
            assert(cands[cands.len() - 1] == sp);
            assert forall|k: int|
                0 <= k < cands.len() && qualifies(#[trigger] cands[k], shooter, o, d, range)
                    implies p.1 <= hit_dist(cands[k], o, d) by {
                if k < cands.len() - 1 {
                    assert(pre[k] == cands[k]);
                }
            }
        } else {
            match acc {
                Some(p) => {
                    let w = choose|k: int|
                        0 <= k < pre.len() && (#[trigger] pre[k]).id == p.0 && qualifies(
                            pre[k],
                            shooter,
                            o,
                            d,
                            range,
                        ) && hit_dist(pre[k], o, d) == p.1;
                    assert(cands[w] == pre[w]);
                    assert forall|k: int|
                        0 <= k < cands.len() && qualifies(
                            #[trigger] cands[k],
                            shooter,
                            o,
                            d,
                            range,
                        ) implies p.1 <= hit_dist(cands[k], o, d) by {
                        if k < cands.len() - 1 {
                            assert(pre[k] == cands[k]);
                        }
                    }
                },
                None => {
                    assert forall|k: int|
                        0 <= k < cands.len() implies !qualifies(
                        #[trigger] cands[k],
                        shooter,
                        o,
                        d,
                        range,
                    ) by {
                        if k < cands.len() - 1 {
                            assert(pre[k] == cands[k]);
                        }
                    }
                },
            }
        }
    }
}

} // verus!
