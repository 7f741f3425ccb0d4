// The simulation core of an arcade shooter: the sprite collision-mask
// pipeline (outline extraction, bit packing, pixel-accurate collision tests,
// nearest-enemy acquisition) and the state machine that moves the enemy
// formation as one body.

pub mod grid;
pub mod outline;
pub mod packing;
pub mod sheet;
pub mod position;
pub mod collision;
pub mod swarm;
pub mod spatial;
pub mod aliens;
