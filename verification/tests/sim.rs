use moonhold_sim::aoi::GridAOI;
use moonhold_sim::combat::{FireEvent, Hit};
use moonhold_sim::components::{Health, Pos, Vel};
use moonhold_sim::history::{History, Snapshot, SnapshotPlayer};
use moonhold_sim::input::apply_input;
use moonhold_sim::math::Vec3;
use moonhold_sim::combat::hitscan;
use moonhold_sim::protocol::{handle_client_message, ClientMsg, OutMsg, ServerMsg};
use moonhold_sim::replication::collect_deltas;
use moonhold_sim::scheduler::{advance_tick, resolve_fire, FireOutcome, SimState};
use moonhold_sim::world::{
    apply_damage, despawn_player, get_player, set_motion, spawn_player, Scene,
};

fn snap(id: u64, x: i64, y: i64, z: i64, r: i64) -> SnapshotPlayer {
    SnapshotPlayer { id, pos: Vec3 { x, y, z }, radius: r }
}

#[test]
fn tick_monotonicity() {
    let mut state = SimState::new(50, 3, 8);
    let mut scene = Scene::new();
    assert_eq!(state.current_tick(), 0);
    for _ in 0..5 {
        advance_tick(&mut state, &mut scene);
    }
    assert_eq!(state.current_tick(), 5);
    // Capacity 3: ticks 3, 4, 5 retained; 1 and 2 evicted oldest-first.
    assert!(state.history_snapshot(2).is_none());
    assert_eq!(state.history_snapshot(3).unwrap().tick, 3);
    assert_eq!(state.history_snapshot(5).unwrap().tick, 5);
}

#[test]
fn history_bound() {
    let mut h = History::new(4);
    for t in [10u32, 20, 30, 40, 50, 60] {
        h.push(Snapshot { tick: t, players: Vec::new() });
    }
    // Six pushed into capacity four: 10 and 20 evicted, 30..60 retained.
    assert!(h.nearest_at_or_before(9).is_none());
    assert!(h.nearest_at_or_before(29).is_none());
    assert_eq!(h.nearest_at_or_before(30).unwrap().tick, 30);
    assert_eq!(h.nearest_at_or_before(35).unwrap().tick, 30);
    assert_eq!(h.nearest_at_or_before(60).unwrap().tick, 60);
    assert_eq!(h.nearest_at_or_before(u32::MAX).unwrap().tick, 60);
}

#[test]
fn input_clamp_low() {
    let mut a = Scene::new();
    let mut b = Scene::new();
    let ea = spawn_player(&mut a, 1);
    let eb = spawn_player(&mut b, 1);
    apply_input(&mut a, ea, 1000, 0, 0);
    apply_input(&mut b, eb, 1000, 0, 1);
    assert_eq!(get_player(&a, ea).unwrap(), get_player(&b, eb).unwrap());
}

#[test]
fn input_clamp_high() {
    let mut a = Scene::new();
    let mut b = Scene::new();
    let ea = spawn_player(&mut a, 1);
    let eb = spawn_player(&mut b, 1);
    apply_input(&mut a, ea, 1000, 0, 10000);
    apply_input(&mut b, eb, 1000, 0, 50);
    assert_eq!(get_player(&a, ea).unwrap(), get_player(&b, eb).unwrap());
}

#[test]
fn input_zero_direction() {
    let mut scene = Scene::new();
    let e = spawn_player(&mut scene, 1);
    apply_input(&mut scene, e, 0, 0, 10);
    let p = get_player(&scene, e).unwrap();
    assert_eq!(p.vel, Vel(0, 0, 0));
    assert_eq!(p.pos, Pos(0, 0, 0));
}

#[test]
fn input_direction_normalized() {
    let mut scene = Scene::new();
    let e = spawn_player(&mut scene, 1);
    apply_input(&mut scene, e, 3000, 4000, 10);
    let p = get_player(&scene, e).unwrap();
    // (3, 4) normalizes to (0.6, 0.8); at max speed 6 that is (3.6, 4.8).
    assert_eq!(p.vel, Vel(3600, 0, 4800));
    assert_eq!(p.pos, Pos(36, 0, 48));
}

#[test]
fn ray_picks_closer_collider() {
    let cands = vec![snap(10, 5000, 0, 0, 1000), snap(11, 10_000, 0, 0, 1000)];
    let evt = FireEvent {
        shooter_id: 1,
        origin: Vec3 { x: 0, y: 0, z: 0 },
        dir: Vec3 { x: 1000, y: 0, z: 0 },
        range: 20_000,
    };
    assert_eq!(hitscan(&cands, &evt), Hit::Victim(10));
}

#[test]
fn ray_ignores_collider_behind_origin() {
    let cands = vec![snap(10, -5000, 0, 0, 1000)];
    let evt = FireEvent {
        shooter_id: 1,
        origin: Vec3 { x: 0, y: 0, z: 0 },
        dir: Vec3 { x: 1000, y: 0, z: 0 },
        range: 20_000,
    };
    assert_eq!(hitscan(&cands, &evt), Hit::Miss);
}

#[test]
fn ray_respects_range() {
    let cands = vec![snap(10, 30_000, 0, 0, 1000)];
    let evt = FireEvent {
        shooter_id: 1,
        origin: Vec3 { x: 0, y: 0, z: 0 },
        dir: Vec3 { x: 1000, y: 0, z: 0 },
        range: 20_000,
    };
    assert_eq!(hitscan(&cands, &evt), Hit::Miss);
}

#[test]
fn shooter_never_hits_itself() {
    let cands = vec![snap(10, 5000, 0, 0, 1000)];
    let evt = FireEvent {
        shooter_id: 10,
        origin: Vec3 { x: 0, y: 0, z: 0 },
        dir: Vec3 { x: 1000, y: 0, z: 0 },
        range: 20_000,
    };
    assert_eq!(hitscan(&cands, &evt), Hit::Miss);
}

#[test]
fn lag_compensated_hit() {
    let mut state = SimState::new(50, 16, 8);
    let mut scene = Scene::new();
    let shooter = spawn_player(&mut scene, 1);
    let victim = spawn_player(&mut scene, 2);
    // Victim stands on the +x axis when the shot was taken...
    set_motion(&mut scene, victim, Pos(5000, 0, 0), Vel(0, 0, 0));
    advance_tick(&mut state, &mut scene); // records snapshot at tick 1
    // ...but has moved far off the ray since.
    set_motion(&mut scene, victim, Pos(0, 0, 90_000), Vel(0, 0, 0));
    advance_tick(&mut state, &mut scene); // records snapshot at tick 2
    let origin = Vec3 { x: 0, y: 0, z: 0 };
    let dir = Vec3 { x: 1000, y: 0, z: 0 };
    // Evaluated at tick 1, the shot must rewind and hit.
    let then = resolve_fire(&state, &scene, shooter, origin, dir, 20_000, 1);
    match then {
        FireOutcome::Victim { victim: v, .. } => assert_eq!(v, victim),
        FireOutcome::Miss => panic!("expected a rewound hit"),
    }
    // Evaluated at the current tick, the same ray misses.
    let now = resolve_fire(&state, &scene, shooter, origin, dir, 20_000, 2);
    assert!(matches!(now, FireOutcome::Miss));
}

#[test]
fn despawn_is_idempotent() {
    let mut scene = Scene::new();
    let a = spawn_player(&mut scene, 1);
    let b = spawn_player(&mut scene, 2);
    assert!(despawn_player(&mut scene, b));
    assert!(!despawn_player(&mut scene, b));
    assert!(get_player(&scene, b).is_none());
    // The other entity is untouched by either removal.
    let p = get_player(&scene, a).unwrap();
    assert_eq!(p.tag.id, 1);
    assert_eq!(collect_deltas(&scene).len(), 1);
}

#[test]
fn damage_saturates_at_zero() {
    let mut scene = Scene::new();
    let e = spawn_player(&mut scene, 1);
    assert!(apply_damage(&mut scene, e, 30));
    assert_eq!(get_player(&scene, e).unwrap().health.hp, 70);
    assert!(apply_damage(&mut scene, e, 200));
    assert_eq!(get_player(&scene, e).unwrap().health.hp, 0);
    assert!(!apply_damage(&mut scene, 0xdead_beef, 10));
}

#[test]
fn default_health_is_full() {
    let h = Health::default();
    assert_eq!(h.hp, 100);
    assert_eq!(h.max, 100);
}

#[test]
fn deltas_replicate_live_state() {
    let mut scene = Scene::new();
    let a = spawn_player(&mut scene, 7);
    set_motion(&mut scene, a, Pos(1000, 2000, 3000), Vel(0, 0, 0));
    apply_damage(&mut scene, a, 25);
    let deltas = collect_deltas(&scene);
    assert_eq!(deltas.len(), 1);
    assert_eq!(deltas[0].id, a);
    assert_eq!(deltas[0].pos, Vec3 { x: 1000, y: 2000, z: 3000 });
    assert_eq!(deltas[0].hp, 75);
}

#[test]
fn cell_keys_floor_per_axis() {
    let g = GridAOI::new(2000);
    assert_eq!(g.cell_key(5000, -1), (2, -1));
    assert_eq!(g.cell_key(-4000, 0), (-2, 0));
    assert_eq!(g.cell_key(3999, 2000), (1, 1));
    assert_eq!(g.cell_key(0, -2001), (0, -2));
}

#[test]
fn ping_answers_with_pong() {
    let state = SimState::new(50, 4, 8);
    let mut scene = Scene::new();
    let out = handle_client_message(
        &state,
        &mut scene,
        42,
        None,
        ClientMsg::Ping { client_time_ms: 123 },
        777,
        0,
    );
    assert_eq!(out.len(), 1);
    match &out[0] {
        OutMsg::To { client, msg } => {
            assert_eq!(*client, 42);
            assert_eq!(*msg, ServerMsg::Pong { server_time_ms: 777 });
        },
        _ => panic!("expected a direct reply"),
    }
}

#[test]
fn fire_command_damages_victim_and_confirms() {
    let mut state = SimState::new(50, 16, 8);
    let mut scene = Scene::new();
    let shooter = spawn_player(&mut scene, 1);
    let victim = spawn_player(&mut scene, 2);
    set_motion(&mut scene, victim, Pos(5000, 0, 0), Vel(0, 0, 0));
    advance_tick(&mut state, &mut scene);
    let msg = ClientMsg::Fire {
        seq: 0,
        client_time_ms: 0,
        origin: Vec3 { x: 0, y: 0, z: 0 },
        dir: Vec3 { x: 1000, y: 0, z: 0 },
        weapon: 0,
    };
    let out = handle_client_message(&state, &mut scene, 1, Some(shooter), msg, 0, 0);
    assert_eq!(get_player(&scene, victim).unwrap().health.hp, 90);
    assert_eq!(out.len(), 1);
    match &out[0] {
        OutMsg::Broadcast { msg } => {
            assert_eq!(
                *msg,
                ServerMsg::HitConfirm { shooter: 1, victim, dmg: 10, at_tick: 1 }
            );
        },
        _ => panic!("expected a broadcast confirmation"),
    }
}

#[test]
fn unknown_session_input_is_dropped() {
    let state = SimState::new(50, 4, 8);
    let mut scene = Scene::new();
    let e = spawn_player(&mut scene, 1);
    let before = get_player(&scene, e).unwrap();
    let out = handle_client_message(
        &state,
        &mut scene,
        99,
        None,
        ClientMsg::Input { seq: 0, dt_ms: 10, dx: 1000, dy: 0 },
        0,
        0,
    );
    assert!(out.is_empty());
    assert_eq!(get_player(&scene, e).unwrap(), before);
}

#[test]
fn input_moves_only_the_bound_entity() {
    let mut scene = Scene::new();
    let a = spawn_player(&mut scene, 1);
    let b = spawn_player(&mut scene, 2);
    apply_input(&mut scene, a, 1000, 0, 50);
    let pa = get_player(&scene, a).unwrap();
    let pb = get_player(&scene, b).unwrap();
    assert_eq!(pa.vel, Vel(6000, 0, 0));
    assert_eq!(pa.pos, Pos(300, 0, 0));
    assert_eq!(pb.vel, Vel(0, 0, 0));
    assert_eq!(pb.pos, Pos(0, 0, 0));
}

#[test]
fn integration_moves_by_velocity_each_tick() {
    let mut state = SimState::new(100, 8, 8); // 10 ms per tick
    let mut scene = Scene::new();
    let e = spawn_player(&mut scene, 1);
    set_motion(&mut scene, e, Pos(0, 0, 0), Vel(6000, 0, -2000));
    advance_tick(&mut state, &mut scene);
    assert_eq!(get_player(&scene, e).unwrap().pos, Pos(60, 0, -20));
    advance_tick(&mut state, &mut scene);
    assert_eq!(get_player(&scene, e).unwrap().pos, Pos(120, 0, -40));
}

#[test]
fn norm_is_exact_on_pythagorean_directions() {
    let n = moonhold_sim::math::norm(Vec3 { x: 3000, y: 0, z: 4000 });
    assert_eq!(n, Vec3 { x: 600, y: 0, z: 800 });
    let z = moonhold_sim::math::norm(Vec3 { x: 0, y: 0, z: 0 });
    assert_eq!(z, Vec3 { x: 0, y: 0, z: 0 });
}

#[test]
fn ray_sphere_exact_distance() {
    let t = moonhold_sim::math::ray_sphere(
        Vec3 { x: 0, y: 0, z: 0 },
        Vec3 { x: 1000, y: 0, z: 0 },
        Vec3 { x: 5000, y: 0, z: 0 },
        1000,
    );
    assert_eq!(t, Some(4000));
    let miss = moonhold_sim::math::ray_sphere(
        Vec3 { x: 0, y: 0, z: 0 },
        Vec3 { x: 1000, y: 0, z: 0 },
        Vec3 { x: 0, y: 5000, z: 0 },
        1000,
    );
    assert_eq!(miss, None);
}

#[test]
fn isqrt_is_floor() {
    assert_eq!(moonhold_sim::math::isqrt(0), 0);
    assert_eq!(moonhold_sim::math::isqrt(24), 4);
    assert_eq!(moonhold_sim::math::isqrt(25), 5);
    assert_eq!(moonhold_sim::math::isqrt(26), 5);
}

#[test]
fn tick_wraps_and_history_restarts() {
    let mut state = SimState::new(50, 8, 4);
    let mut scene = Scene::new();
    advance_tick(&mut state, &mut scene);
    state.tick = u32::MAX;
    advance_tick(&mut state, &mut scene);
    assert_eq!(state.current_tick(), 0);
    // The restarted history holds only the snapshot of the wrapped tick.
    assert_eq!(state.history_snapshot(0).unwrap().tick, 0);
    assert_eq!(state.history_snapshot(u32::MAX).unwrap().tick, 0);
}

#[test]
fn fire_falls_back_to_live_state_without_history() {
    let state = SimState::new(50, 8, 4); // no tick advanced: history empty
    let mut scene = Scene::new();
    let shooter = spawn_player(&mut scene, 1);
    let victim = spawn_player(&mut scene, 2);
    set_motion(&mut scene, victim, Pos(5000, 0, 0), Vel(0, 0, 0));
    let out = resolve_fire(
        &state,
        &scene,
        shooter,
        Vec3 { x: 0, y: 0, z: 0 },
        Vec3 { x: 1000, y: 0, z: 0 },
        20_000,
        0,
    );
    match out {
        FireOutcome::Victim { victim: v, dmg, .. } => {
            assert_eq!(v, victim);
            assert_eq!(dmg, 10);
        },
        FireOutcome::Miss => panic!("expected a live-state hit"),
    }
}
