//! Input application: translate one client movement command into velocity
//! and position changes for exactly the entity bound to that client.

use crate::components::{Pos, Vel};
use crate::math::{
    div_trunc, is_sqrt_floor, isqrt, lemma_component_le_sqrt, lemma_sqrt_floor_is,
    lemma_tdiv_bound, mul_div_trunc, sqrt_floor, tdiv, COORD_MAX, DIR_MAX, MILLI,
};
use crate::world::{get_player, player_wf, set_motion, Player, Scene, MAX_SPEED};
use vstd::prelude::*;

verus! {

/// Lower clamp on a command's reported elapsed time, in milliseconds.
pub const DT_MIN_MS: u16 = 1;

/// Upper clamp on a command's reported elapsed time, in milliseconds.
pub const DT_MAX_MS: u16 = 50;

/// A client-reported elapsed time, clamped to the sane window: clamping is
/// the recovery for an absurd or zero claim, not a rejection.
pub open spec fn clamp_ms(ms: u16) -> int {
    if ms < DT_MIN_MS {
        DT_MIN_MS as int
    } else if ms > DT_MAX_MS {
        DT_MAX_MS as int
    } else {
        ms as int
    }
}

/// A raw direction component, clamped to the accepted window.
pub open spec fn clamp_dir(c: int) -> int {
    if c < -DIR_MAX {
        -DIR_MAX as int
    } else if c > DIR_MAX {
        DIR_MAX as int
    } else {
        c
    }
}

/// A coordinate clamped to the world bounds.
pub open spec fn clamp_coord(c: int) -> int {
    if c < -COORD_MAX {
        -COORD_MAX as int
    } else if c > COORD_MAX {
        COORD_MAX as int
    } else {
        c
    }
}

/// Planar velocity components from a movement direction: the direction
/// normalized and scaled to `MAX_SPEED`; a zero direction means rest.
pub open spec fn input_vx(dx: int, dy: int) -> int {
    let cx = clamp_dir(dx);
    let cy = clamp_dir(dy);
    if cx == 0 && cy == 0 {
        0
    } else {
        tdiv(cx * (MAX_SPEED as int), sqrt_floor(cx * cx + cy * cy))
    }
}

pub open spec fn input_vy(dx: int, dy: int) -> int {
    let cx = clamp_dir(dx);
    let cy = clamp_dir(dy);
    if cx == 0 && cy == 0 {
        0
    } else {
        tdiv(cy * (MAX_SPEED as int), sqrt_floor(cx * cx + cy * cy))
    }
}

/// What one movement command does to a player: planar velocity set from the
/// normalized direction, position advanced by that velocity over the
/// clamped elapsed time, clamped to the world bounds.
pub open spec fn input_step(p: Player, dx: int, dy: int, ms: u16) -> Player {
    let vx = input_vx(dx, dy);
    let vy = input_vy(dx, dy);
    let t = clamp_ms(ms);
    Player {
        pos: Pos(
            clamp_coord(p.pos.0 + tdiv(vx * t, MILLI as int)) as i64,
            p.pos.1,
            clamp_coord(p.pos.2 + tdiv(vy * t, MILLI as int)) as i64,
        ),
        vel: Vel(vx as i64, p.vel.1, vy as i64),
        health: p.health,
        collider: p.collider,
        tag: p.tag,
    }
}

/// Apply one movement command to the entity bound to the issuing session.
/// An id with no live entity (disconnect race) changes nothing and reports
/// `false`; the caller logs and drops, never fails.
#[verifier::rlimit(60)]
pub fn apply_input(scene: &mut Scene, id: u64, dx: i64, dy: i64, dt_ms: u16) -> (known: bool)
    requires
        old(scene).wf(),
    ensures
        final(scene).wf(),
        known == old(scene).players().contains_key(id),
        known ==> final(scene).players() == old(scene).players().insert(
            id,
            input_step(old(scene).players()[id], dx as int, dy as int, dt_ms),
        ),
        !known ==> final(scene).players() == old(scene).players(),
{
    let p = match get_player(&*scene, id) {
        None => { return false; },
        Some(p) => p,
    };
    proof {
        assert(player_wf(old(scene).players()[id]));
    }
    let cx: i64 = if dx < -DIR_MAX { -DIR_MAX } else if dx > DIR_MAX { DIR_MAX } else { dx };
    let cy: i64 = if dy < -DIR_MAX { -DIR_MAX } else if dy > DIR_MAX { DIR_MAX } else { dy };
    let t: u16 = if dt_ms < DT_MIN_MS { DT_MIN_MS } else if dt_ms > DT_MAX_MS { DT_MAX_MS } else { dt_ms };
    let vx: i64;
    let vy: i64;
    if cx == 0 && cy == 0 {
        vx = 0;
        vy = 0;
    } else {
        proof {
            assert(0 <= (cx as int) * (cx as int) <= 1_000_000_000_000) by (nonlinear_arith)
                requires
                    -1_000_000 <= cx as int <= 1_000_000;
            assert(0 <= (cy as int) * (cy as int) <= 1_000_000_000_000) by (nonlinear_arith)
                requires
                    -1_000_000 <= cy as int <= 1_000_000;
            assert(1 <= (cx as int) * (cx as int) + (cy as int) * (cy as int)) by (nonlinear_arith)
                requires
                    cx as int != 0 || cy as int != 0;
        }
        let n2: i64 = cx * cx + cy * cy;
        let m: u64 = isqrt(n2 as u64);
        proof {
            lemma_component_le_sqrt(cx as int, n2 as int, m as int);
            lemma_component_le_sqrt(cy as int, n2 as int, m as int);
            assert(m >= 1);
            assert(-(m as int) * (MAX_SPEED as int) <= (cx as int) * (MAX_SPEED as int)
                <= (m as int) * (MAX_SPEED as int)) by (nonlinear_arith)
                requires
                    -(m as int) <= cx as int <= m as int;
            assert(-(m as int) * (MAX_SPEED as int) <= (cy as int) * (MAX_SPEED as int)
                <= (m as int) * (MAX_SPEED as int)) by (nonlinear_arith)
                requires
                    -(m as int) <= cy as int <= m as int;
            lemma_tdiv_bound((cx as int) * (MAX_SPEED as int), m as int, MAX_SPEED as int);
            lemma_tdiv_bound((cy as int) * (MAX_SPEED as int), m as int, MAX_SPEED as int);
        }
        vx = mul_div_trunc(cx, MAX_SPEED, m as i64);
        vy = mul_div_trunc(cy, MAX_SPEED, m as i64);
    }
    proof {
        assert(-300_000 <= (vx as int) * (t as int) <= 300_000) by (nonlinear_arith)
            requires
                -6000 <= vx as int <= 6000,
                0 <= t as int <= 50;
        assert(-300_000 <= (vy as int) * (t as int) <= 300_000) by (nonlinear_arith)
            requires
                -6000 <= vy as int <= 6000,
                0 <= t as int <= 50;
        lemma_tdiv_bound((vx as int) * (t as int), MILLI as int, 300);
        lemma_tdiv_bound((vy as int) * (t as int), MILLI as int, 300);
    }
    let ddx: i64 = div_trunc(vx * (t as i64), MILLI);
    let ddz: i64 = div_trunc(vy * (t as i64), MILLI);
    let sx: i64 = p.pos.0 + ddx;
    let sz: i64 = p.pos.2 + ddz;
    let px: i64 = if sx < -COORD_MAX { -COORD_MAX } else if sx > COORD_MAX { COORD_MAX } else { sx };
    let pz: i64 = if sz < -COORD_MAX { -COORD_MAX } else if sz > COORD_MAX { COORD_MAX } else { sz };
    set_motion(scene, id, Pos(px, p.pos.1, pz), Vel(vx, p.vel.1, vy));
    true
}

/// Input clamping: an elapsed time at or below the lower clamp behaves as
/// the lower clamp, and one at or above the upper clamp behaves as the
/// upper clamp.
pub proof fn lemma_input_clamp(p: Player, dx: int, dy: int, ms: u16)
    ensures
        ms <= DT_MIN_MS ==> input_step(p, dx, dy, ms) == input_step(p, dx, dy, DT_MIN_MS),
        ms >= DT_MAX_MS ==> input_step(p, dx, dy, ms) == input_step(p, dx, dy, DT_MAX_MS),
{
}

/// A zero direction yields zero planar velocity and leaves the position in
/// place: there is no division by a near-zero magnitude.
pub proof fn lemma_input_zero_dir(p: Player, ms: u16)
    requires
        player_wf(p),
    ensures
        input_step(p, 0, 0, ms).vel == Vel(0, p.vel.1, 0),
        input_step(p, 0, 0, ms).pos == p.pos,
{
}

/// A (3, 4) direction normalizes exactly: the planar velocity is
/// `MAX_SPEED` times (0.6, 0.8).
pub proof fn lemma_input_direction_three_four()
    ensures
        input_vx(3000, 4000) == 3600,
        input_vy(3000, 4000) == 4800,
{
    assert(clamp_dir(3000) == 3000 && clamp_dir(4000) == 4000);
    assert(3000 * 3000 + 4000 * 4000 == 25_000_000) by (nonlinear_arith);
    assert(is_sqrt_floor(25_000_000, 5000)) by (nonlinear_arith);
    lemma_sqrt_floor_is(25_000_000, 5000);
    vstd::arithmetic::div_mod::lemma_div_multiples_vanish(3600, 5000);
    vstd::arithmetic::div_mod::lemma_div_multiples_vanish(4800, 5000);
    assert(3000 * (MAX_SPEED as int) == 5000 * 3600) by (nonlinear_arith);
    assert(4000 * (MAX_SPEED as int) == 5000 * 4800) by (nonlinear_arith);
    assert(tdiv(3000 * (MAX_SPEED as int), 5000) == 3600);
    assert(tdiv(4000 * (MAX_SPEED as int), 5000) == 4800);
}

} // verus!
