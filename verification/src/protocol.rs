//! Decoded protocol messages and the per-command decision logic: what one
//! client command does to the world and which messages go out. The
//! transport decodes bytes into `ClientMsg` values and delivers the
//! returned `OutMsg` values; it never decides.

use crate::combat::best_hit;
use crate::history::{nearest_spec, SnapshotPlayer};
use crate::input::{apply_input, clamp_coord, clamp_dir, input_step};
use crate::math::{norm_spec, Vec3, COORD_MAX, DIR_MAX};
use crate::replication::{snapshot_matches, EntityDelta};
use crate::scheduler::{resolve_fire, FireOutcome, SimState, FIRE_DAMAGE};
use crate::world::{apply_damage, damaged, Player, Scene};
use vstd::prelude::*;

verus! {

/// Shot range of the single weapon (75 world units).
pub const FIRE_RANGE: i64 = 75_000;

/// A decoded command from a client.
#[derive(Clone, Copy, PartialEq, Eq, Structural, Debug)]
pub enum ClientMsg {
    Ping { client_time_ms: u64 },
    Input { seq: u32, dt_ms: u16, dx: i64, dy: i64 },
    Fire { seq: u32, client_time_ms: u64, origin: Vec3, dir: Vec3, weapon: u16 },
}

/// A decoded message for the transport to encode and deliver.
#[derive(Clone, PartialEq, Eq, Debug)]
pub enum ServerMsg {
    Welcome { tick_hz: u16, your_id: u64 },
    Pong { server_time_ms: u64 },
    WorldDelta { tick: u32, last_processed_input: u32, ents: Vec<EntityDelta> },
    HitConfirm { shooter: u64, victim: u64, dmg: u16, at_tick: u32 },
}

/// An outbound delivery the caller owes the transport.
#[derive(Clone, PartialEq, Eq, Debug)]
pub enum OutMsg {
    To { client: u64, msg: ServerMsg },
    Broadcast { msg: ServerMsg },
}

/// A client-supplied point, clamped to the world bounds.
pub open spec fn clamp_point(v: Vec3) -> Vec3 {
    Vec3 { x: clamp_coord(v.x as int) as i64, y: clamp_coord(v.y as int) as i64, z: clamp_coord(
        v.z as int,
    ) as i64 }
}

/// A client-supplied direction, clamped to the accepted window.
pub open spec fn clamp_direction(v: Vec3) -> Vec3 {
    Vec3 { x: clamp_dir(v.x as int) as i64, y: clamp_dir(v.y as int) as i64, z: clamp_dir(
        v.z as int,
    ) as i64 }
}

/// The evaluation tick for a shot: the current tick rewound by the
/// estimated latency, saturating at the first tick.
pub open spec fn rewind_tick(tick: u32, lag_ticks: u32) -> u32 {
    if lag_ticks > tick {
        0u32
    } else {
        (tick - lag_ticks) as u32
    }
}

/// What a resolved shot does: a named victim takes the shot's damage in
/// the live world (if still alive there) and a hit confirmation is
/// broadcast, naming the shooter's client, the victim entity and the tick;
/// a miss changes nothing and sends nothing.
pub open spec fn fire_effect(
    client_id: u64,
    at_tick: u32,
    m0: Map<u64, Player>,
    m1: Map<u64, Player>,
    out: Seq<OutMsg>,
    bh: Option<(u64, int)>,
) -> bool {
    match bh {
        Some(p) => {
            &&& m1 == (if m0.contains_key(p.0) {
                m0.insert(p.0, damaged(m0[p.0], FIRE_DAMAGE))
            } else {
                m0
            })
            &&& out == seq![
                OutMsg::Broadcast {
                    msg: ServerMsg::HitConfirm {
                        shooter: client_id,
                        victim: p.0,
                        dmg: FIRE_DAMAGE,
                        at_tick,
                    },
                },
            ]
        },
        None => m1 == m0 && out.len() == 0,
    }
}

/// Apply one decoded client command. The caller supplies the entity bound
/// to the issuing session (never searched for), the clock reading for
/// pings, and the session's estimated latency in ticks for lag
/// compensation. Commands naming a session with no live entity are
/// dropped, never fatal.
#[verifier::rlimit(100)]
pub fn handle_client_message(
    state: &SimState,
    scene: &mut Scene,
    client_id: u64,
    entity: Option<u64>,
    msg: ClientMsg,
    now_ms: u64,
    lag_ticks: u32,
) -> (out: Vec<OutMsg>)
    requires
        state.wf(),
        old(scene).wf(),
    ensures
        final(scene).wf(),
        (match msg {
            ClientMsg::Ping { client_time_ms: _ } => final(scene).players() == old(scene).players()
                && out@ == seq![
                OutMsg::To { client: client_id, msg: ServerMsg::Pong { server_time_ms: now_ms } },
            ],
            ClientMsg::Input { seq: _, dt_ms, dx, dy } => out@.len() == 0 && (match entity {
                Some(e) => {
                    &&& old(scene).players().contains_key(e) ==> final(scene).players() == old(
                        scene,
                    ).players().insert(
                        e,
                        input_step(old(scene).players()[e], dx as int, dy as int, dt_ms),
                    )
                    &&& !old(scene).players().contains_key(e) ==> final(scene).players() == old(
                        scene,
                    ).players()
                },
                None => final(scene).players() == old(scene).players(),
            }),
            ClientMsg::Fire { seq: _, client_time_ms: _, origin, dir, weapon: _ } => (match entity {
                Some(e) => (match nearest_spec(
                    state.history@,
                    rewind_tick(state.tick, lag_ticks),
                ) {
                    Some(sn) => fire_effect(
                        client_id,
                        state.tick,
                        old(scene).players(),
                        final(scene).players(),
                        out@,
                        best_hit(
                            sn.players@,
                            e,
                            clamp_point(origin),
                            norm_spec(clamp_direction(dir)),
                            FIRE_RANGE as int,
                        ),
                    ),
                    None => exists|cs: Seq<SnapshotPlayer>|
                        #[trigger] snapshot_matches(cs, old(scene).players()) && fire_effect(
                            client_id,
                            state.tick,
                            old(scene).players(),
                            final(scene).players(),
                            out@,
                            best_hit(
                                cs,
                                e,
                                clamp_point(origin),
                                norm_spec(clamp_direction(dir)),
                                FIRE_RANGE as int,
                            ),
                        ),
                }),
                None => final(scene).players() == old(scene).players() && out@.len() == 0,
            }),
        }),
{
    let mut out: Vec<OutMsg> = Vec::new();
    match msg {
        ClientMsg::Ping { client_time_ms: _ } => {
            out.push(OutMsg::To { client: client_id, msg: ServerMsg::Pong { server_time_ms: now_ms } });
        },
        ClientMsg::Input { seq: _, dt_ms, dx, dy } => {
            match entity {
                Some(e) => {
                    apply_input(scene, e, dx, dy, dt_ms);
                },
                None => {},
            }
        },
        ClientMsg::Fire { seq: _, client_time_ms: _, origin, dir, weapon: _ } => {
            match entity {
                Some(e) => {
                    let ox: i64 = if origin.x < -COORD_MAX { -COORD_MAX } else if origin.x > COORD_MAX { COORD_MAX } else { origin.x };
                    let oy: i64 = if origin.y < -COORD_MAX { -COORD_MAX } else if origin.y > COORD_MAX { COORD_MAX } else { origin.y };
                    let oz: i64 = if origin.z < -COORD_MAX { -COORD_MAX } else if origin.z > COORD_MAX { COORD_MAX } else { origin.z };
                    let dx: i64 = if dir.x < -DIR_MAX { -DIR_MAX } else if dir.x > DIR_MAX { DIR_MAX } else { dir.x };
                    let dy: i64 = if dir.y < -DIR_MAX { -DIR_MAX } else if dir.y > DIR_MAX { DIR_MAX } else { dir.y };
                    let dz: i64 = if dir.z < -DIR_MAX { -DIR_MAX } else if dir.z > DIR_MAX { DIR_MAX } else { dir.z };
                    let o = Vec3 { x: ox, y: oy, z: oz };
                    let d = Vec3 { x: dx, y: dy, z: dz };
                    let eval: u32 = if lag_ticks > state.tick { 0 } else { state.tick - lag_ticks };
                    let oc = resolve_fire(state, &*scene, e, o, d, FIRE_RANGE, eval);
                    match oc {
                        FireOutcome::Miss => {},
                        FireOutcome::Victim { shooter: _, victim, dmg: _, at_tick: _ } => {
                            apply_damage(scene, victim, FIRE_DAMAGE);
                            out.push(
                                OutMsg::Broadcast {
                                    msg: ServerMsg::HitConfirm {
                                        shooter: client_id,
                                        victim,
                                        dmg: FIRE_DAMAGE,
                                        at_tick: state.tick,
                                    },
                                },
                            );
                        },
                    }
                },
                None => {},
            }
        },
    }
    out
}

} // verus!
