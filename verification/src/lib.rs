use vstd::prelude::*;

pub mod cells;
pub mod coords;
pub mod generator;
pub mod rules;
pub mod timer;
pub mod ui;
pub mod world;

verus! {

/// Half-width of the square in which new cells may be created.
pub const WORLD_EDGE: i32 = 4000;

} // verus!
