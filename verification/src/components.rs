//! Typed components attached to entities: position, velocity, health,
//! collider and player identity. Coordinates are fixed-point milli-units.

use vstd::prelude::*;

verus! {

#[derive(Clone, Copy, PartialEq, Eq, Structural, Debug)]
pub struct Pos(pub i64, pub i64, pub i64);

#[derive(Clone, Copy, PartialEq, Eq, Structural, Debug)]
pub struct Vel(pub i64, pub i64, pub i64);

#[derive(Clone, Copy, PartialEq, Eq, Structural, Debug)]
pub struct Health {
    pub hp: u16,
    pub max: u16,
}

impl Default for Health {
    /// A freshly spawned entity has full health.
    fn default() -> (h: Health)
        ensures
            h.hp == 100,
            h.max == 100,
    {
        Health { hp: 100, max: 100 }
    }
}

#[derive(Clone, Copy, PartialEq, Eq, Structural, Debug)]
pub struct PlayerTag {
    pub id: u64,
}

#[derive(Clone, Copy, PartialEq, Eq, Structural, Debug)]
pub struct Collider {
    pub radius: i64,
}

} // verus!
