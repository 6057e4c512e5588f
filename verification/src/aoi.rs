//! Area-of-interest index: map a continuous position to a coarse grid
//! cell, so replication and queries can be restricted to nearby entities.

use crate::math::COORD_MAX;
use vstd::arithmetic::div_mod::{
    lemma_div_nonincreasing, lemma_div_pos_is_pos, lemma_fundamental_div_mod,
    lemma_mod_division_less_than_divisor,
};
use vstd::prelude::*;

verus! {

/// A grid with a fixed cell size (milli-units), set at construction.
#[derive(Clone, Copy, PartialEq, Eq, Structural, Debug)]
pub struct GridAOI {
    pub cell: i64,
}

impl GridAOI {
    pub open spec fn wf(&self) -> bool {
        1 <= self.cell <= COORD_MAX
    }

    pub fn new(cell: i64) -> (g: GridAOI)
        requires
            1 <= cell <= COORD_MAX,
        ensures
            g.cell == cell,
            g.wf(),
    {
        GridAOI { cell }
    }

    /// The cell key of a position: the floor of each coordinate divided by
    /// the cell size, so a key `k` covers `[cell * k, cell * (k + 1))`.
    /// Deterministic for a given cell size over the process lifetime.
    pub fn cell_key(&self, x: i64, z: i64) -> (k: (i32, i32))
        requires
            self.wf(),
            -COORD_MAX <= x <= COORD_MAX,
            -COORD_MAX <= z <= COORD_MAX,
        ensures
            (self.cell as int) * (k.0 as int) <= x < (self.cell as int) * ((k.0 as int) + 1),
            (self.cell as int) * (k.1 as int) <= z < (self.cell as int) * ((k.1 as int) + 1),
    {
        (floor_div_cell(x, self.cell), floor_div_cell(z, self.cell))
    }
}

/// Floor division of a bounded coordinate by a positive cell size.
fn floor_div_cell(x: i64, c: i64) -> (k: i32)
    requires
        1 <= c <= COORD_MAX,
        -COORD_MAX <= x <= COORD_MAX,
    ensures
        (c as int) * (k as int) <= x < (c as int) * ((k as int) + 1),
{
    if x >= 0 {
        let q: u64 = (x as u64) / (c as u64);
        proof {
            lemma_fundamental_div_mod(x as int, c as int);
            lemma_mod_division_less_than_divisor(x as int, c as int);
            lemma_div_pos_is_pos(x as int, c as int);
            lemma_div_nonincreasing(x as int, c as int);
            assert((c as int) * (q as int) <= x && x < (c as int) * ((q as int) + 1))
                by (nonlinear_arith)
                requires
                    x as int == (c as int) * (q as int) + (x as int) % (c as int),
                    0 <= (x as int) % (c as int) && (x as int) % (c as int) < c as int;
        }
        q as i32
    } else {
        let y: i64 = -x;
        let num: u64 = (y as u64) + (c as u64) - 1;
        let q: u64 = num / (c as u64);
        proof {
            lemma_fundamental_div_mod(num as int, c as int);
            lemma_mod_division_less_than_divisor(num as int, c as int);
            lemma_div_pos_is_pos(num as int, c as int);
            lemma_div_nonincreasing(num as int, c as int);
            assert((c as int) * (-(q as int)) <= x && x < (c as int) * ((-(q as int)) + 1))
                by (nonlinear_arith)
                requires
                    num as int == (c as int) * (q as int) + (num as int) % (c as int),
                    0 <= (num as int) % (c as int) && (num as int) % (c as int) < c as int,
                    num as int == (y as int) + (c as int) - 1,
                    y as int == -(x as int),
                    1 <= c as int,
                    1 <= y as int;
        }
        let ki: i64 = -(q as i64);
        ki as i32
    }
}

} // verus!
