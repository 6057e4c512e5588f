//! The tick scheduler: process-wide simulation state, the fixed-rate tick
//! step (integrate, record a snapshot, emit the world delta), and
//! lag-compensated fire resolution against the snapshot history.

use crate::combat::{best_hit, hitscan, FireEvent, Hit};
use crate::history::{nearest_spec, push_model, History, Snapshot, SnapshotPlayer};
use crate::history::lemma_nearest_props;
use crate::math::{dir_bounded, in_world, norm_spec, Vec3, RADIUS_MAX};
use crate::movement::{integrate, map_move};
use crate::replication::{
    collect_deltas, deltas_match, snap_of, snapshot_matches, snapshot_players, EntityDelta,
};
use crate::world::{player_wf, Scene};
use vstd::arithmetic::div_mod::{lemma_add_mod_noop, lemma_mod_self_0, lemma_small_mod};
use vstd::prelude::*;

verus! {

/// Damage one landed shot deals.
pub const FIRE_DAMAGE: u16 = 10;

/// Every record of a snapshot stays inside the world's bounds.
pub open spec fn snap_bounded(v: Seq<SnapshotPlayer>) -> bool {
    forall|k: int|
        0 <= k < v.len() ==> in_world((#[trigger] v[k]).pos) && 0 <= v[k].radius <= RADIUS_MAX
}

/// Process-wide simulation state: the wrapping tick counter, the snapshot
/// history, and the configuration fixed at startup.
pub struct SimState {
    pub tick: u32,
    pub history: History,
    pub max_players: usize,
    pub tick_hz: u16,
}

impl SimState {
    /// A live tick rate, and a well-formed history whose recorded ticks
    /// never run ahead of the counter and whose records stay in bounds.
    pub open spec fn wf(&self) -> bool {
        &&& self.tick_hz >= 1
        &&& self.history.wf()
        &&& (self.history@.len() > 0 ==> self.history@.last().tick <= self.tick)
        &&& forall|i: int|
            0 <= i < self.history@.len() ==> snap_bounded(
                (#[trigger] self.history@[i]).players@,
            )
    }

    /// A zero tick rate or history capacity is a startup configuration
    /// fault: the caller must reject it before the loop starts.
    pub fn new(tick_hz: u16, hist_ticks: usize, max_players: usize) -> (s: SimState)
        requires
            tick_hz >= 1,
            hist_ticks >= 1,
        ensures
            s.wf(),
            s.tick == 0,
            s.tick_hz == tick_hz,
            s.max_players == max_players,
            s.history@ == Seq::<Snapshot>::empty(),
            s.history.capacity() == hist_ticks,
    {
        SimState { tick: 0, history: History::new(hist_ticks), max_players, tick_hz }
    }

    pub fn current_tick(&self) -> (t: u32)
        ensures
            t == self.tick,
    {
        self.tick
    }

    /// The snapshot lag compensation would use for a tick, if any is
    /// retained.
    pub fn history_snapshot(&self, tick: u32) -> (r: Option<&Snapshot>)
        ensures
            (match r {
                Some(s) => nearest_spec(self.history@, tick) == Some(*s),
                None => nearest_spec(self.history@, tick) is None,
            }),
    {
        self.history.nearest_at_or_before(tick)
    }
}

/// The tick counter after one advance: one more, wrapping at the limit.
pub open spec fn wrap_inc(t: u32) -> u32 {
    if t == u32::MAX {
        0
    } else {
        (t + 1) as u32
    }
}

/// The tick counter after `n` advances.
pub open spec fn tick_after(t: u32, n: nat) -> u32
    decreases n,
{
    if n == 0 {
        t
    } else {
        wrap_inc(tick_after(t, (n - 1) as nat))
    }
}

/// Tick monotonicity: advancing `n` times moves the counter forward by
/// exactly `n`, modulo the wrap at 2^32.
pub proof fn lemma_tick_after_mod(t: u32, n: nat)
    ensures
        tick_after(t, n) as int == (t + n) % 0x1_0000_0000,
    decreases n,
{
    let m: int = 0x1_0000_0000;
    if n == 0 {
        lemma_small_mod(t as nat, m as nat);
    } else {
        lemma_tick_after_mod(t, (n - 1) as nat);
        let prev = tick_after(t, (n - 1) as nat);
        lemma_add_mod_noop(t + n - 1, 1, m);
        lemma_small_mod(1nat, m as nat);
        if prev == u32::MAX {
            lemma_mod_self_0(m);
            assert((prev as int + 1) % m == 0);
        } else {
            lemma_small_mod((prev + 1) as nat, m as nat);
        }
    }
}

/// The milliseconds of one tick at the configured rate, at least one.
pub open spec fn tick_dt_spec(hz: u16) -> u16 {
    if 1000int / (hz as int) < 1 {
        1u16
    } else {
        (1000int / (hz as int)) as u16
    }
}

pub fn tick_dt_ms(hz: u16) -> (dt: u16)
    requires
        hz >= 1,
    ensures
        dt == tick_dt_spec(hz),
        1 <= dt <= 1000,
{
    let q: u16 = 1000 / hz;
    if q < 1 {
        1
    } else {
        q
    }
}

/// The per-tick payload to broadcast: the new tick and one delta per
/// live player.
pub struct WorldDelta {
    pub tick: u32,
    pub ents: Vec<EntityDelta>,
}

/// One full tick step: integrate motion, advance the wrapping counter,
/// record a snapshot of the new state, and emit the world delta. When the
/// counter wraps, the history restarts so recorded ticks stay increasing.
#[verifier::rlimit(60)]
pub fn advance_tick(state: &mut SimState, scene: &mut Scene) -> (delta: WorldDelta)
    requires
        old(state).wf(),
        old(scene).wf(),
    ensures
        final(state).wf(),
        final(scene).wf(),
        final(state).tick == wrap_inc(old(state).tick),
        final(state).tick_hz == old(state).tick_hz,
        final(state).max_players == old(state).max_players,
        final(state).history.capacity() == old(state).history.capacity(),
        final(scene).players() == map_move(
            old(scene).players(),
            tick_dt_spec(old(state).tick_hz),
        ),
        final(state).history@.len() > 0,
        final(state).history@.last().tick == final(state).tick,
        snapshot_matches(final(state).history@.last().players@, final(scene).players()),
        old(state).tick < u32::MAX ==> final(state).history@ == push_model(
            old(state).history@,
            old(state).history.capacity(),
            final(state).history@.last(),
        ),
        old(state).tick == u32::MAX ==> final(state).history@.len() == 1,
        delta.tick == final(state).tick,
        deltas_match(delta.ents@, final(scene).players()),
{
    let dt = tick_dt_ms(state.tick_hz);
    integrate(scene, dt);
    let new_tick: u32;
    if state.tick == u32::MAX {
        state.history.clear();
        new_tick = 0;
    } else {
        new_tick = state.tick + 1;
    }
    state.tick = new_tick;
    let players = snapshot_players(&*scene);
    let ghost m = scene.players();
    proof {
        assert(snap_bounded(players@)) by {
            assert forall|k: int|
                0 <= k < players@.len() implies in_world((#[trigger] players@[k]).pos) && 0
                <= players@[k].radius <= RADIUS_MAX by {
                assert(players@[k] == snap_of(players@[k].id, m[players@[k].id]));
                assert(player_wf(m[players@[k].id]));
            }
        }
    }
    let ghost hist_before = state.history@;
    let snap = Snapshot { tick: new_tick, players };
    state.history.push(snap);
    proof {
        assert forall|i: int|
            0 <= i < state.history@.len() implies snap_bounded(
            (#[trigger] state.history@[i]).players@,
        ) by {
            if i == state.history@.len() - 1 {
                assert(state.history@[i] == snap);
            } else {
                if hist_before.len() >= state.history.capacity() {
                    assert(state.history@[i] == hist_before[i + 1]);
                } else {
                    assert(state.history@[i] == hist_before[i]);
                }
            }
        }
    }
    let ents = collect_deltas(&*scene);
    WorldDelta { tick: new_tick, ents }
}

/// The outcome of a resolved fire command.
#[derive(Clone, Copy, PartialEq, Eq, Structural, Debug)]
pub enum FireOutcome {
    Miss,
    Victim { shooter: u64, victim: u64, dmg: u16, at_tick: u32 },
}

/// Resolve a fire command with lag compensation: hit detection runs
/// against the retained snapshot nearest at or before the evaluation tick,
/// so the shot is judged against the world as the shooter saw it. When the
/// tick predates the retained window (or the history is not yet warm), the
/// resolution degrades to the live state rather than failing.
pub fn resolve_fire(
    state: &SimState,
    scene: &Scene,
    shooter: u64,
    origin: Vec3,
    dir: Vec3,
    range: i64,
    evaluation_tick: u32,
) -> (out: FireOutcome)
    requires
        state.wf(),
        scene.wf(),
        in_world(origin),
        dir_bounded(dir),
        0 <= range,
    ensures
        (match nearest_spec(state.history@, evaluation_tick) {
            Some(sn) => (match best_hit(sn.players@, shooter, origin, norm_spec(dir), range as int) {
                Some(p) => out == (FireOutcome::Victim {
                    shooter,
                    victim: p.0,
                    dmg: FIRE_DAMAGE,
                    at_tick: state.tick,
                }),
                None => out == FireOutcome::Miss,
            }),
            None => exists|cs: Seq<SnapshotPlayer>|
                #[trigger] snapshot_matches(cs, scene.players()) && (match best_hit(
                    cs,
                    shooter,
                    origin,
                    norm_spec(dir),
                    range as int,
                ) {
                    Some(p) => out == (FireOutcome::Victim {
                        shooter,
                        victim: p.0,
                        dmg: FIRE_DAMAGE,
                        at_tick: state.tick,
                    }),
                    None => out == FireOutcome::Miss,
                }),
        }),
{
    let evt = FireEvent { shooter_id: shooter, origin, dir, range };
    match state.history.nearest_at_or_before(evaluation_tick) {
        Some(snap) => {
            proof {
                lemma_nearest_props(state.history@, evaluation_tick);
                let i = choose|i: int|
                    0 <= i < state.history@.len() && state.history@[i] == nearest_spec(
                        state.history@,
                        evaluation_tick,
                    )->Some_0;
                assert(snap_bounded(state.history@[i].players@));
            }
            let h = hitscan(&snap.players, &evt);
            match h {
                Hit::Miss => FireOutcome::Miss,
                Hit::Victim(v) => FireOutcome::Victim {
                    shooter,
                    victim: v,
                    dmg: FIRE_DAMAGE,
                    at_tick: state.tick,
                },
            }
        },
        None => {
            let cs = snapshot_players(scene);
            proof {
                assert(snap_bounded(cs@)) by {
                    assert forall|k: int|
                        0 <= k < cs@.len() implies in_world((#[trigger] cs@[k]).pos) && 0
                        <= cs@[k].radius <= RADIUS_MAX by {
                        assert(cs@[k] == snap_of(cs@[k].id, scene.players()[cs@[k].id]));
                        assert(player_wf(scene.players()[cs@[k].id]));
                    }
                }
            }
            let h = hitscan(&cs, &evt);
            match h {
                Hit::Miss => FireOutcome::Miss,
                Hit::Victim(v) => FireOutcome::Victim {
                    shooter,
                    victim: v,
                    dmg: FIRE_DAMAGE,
                    at_tick: state.tick,
                },
            }
        },
    }
}

/// Relies on std::time::SystemTime::now: milliseconds since the Unix
/// epoch, or zero if the clock reads before it. The value depends on the
/// machine's clock, so nothing is promised of it.
#[verifier::external_body]
fn clock_epoch_ms() -> u64 {
    std::time::SystemTime::now()
        .duration_since(std::time::UNIX_EPOCH)
        .map(|d| d.as_millis() as u64)
        .unwrap_or(0)
}

/// The wall clock, as milliseconds since the Unix epoch, for timestamping
/// pong replies. Its value depends on the machine's clock alone; every
/// decision the core makes takes it as an explicit argument.
pub fn epoch_ms() -> u64 {
    clock_epoch_ms()
}

} // verus!
