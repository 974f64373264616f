//! Elastic collisions among discs in a bounded rectangle.
//!
//! A `World` holds bodies and the region that confines them. A tick (`tick::step`)
//! lets every colliding pair exchange velocities, moves every body, and reflects
//! the bodies at the walls. `factory` fills a world with bodies that keep clear of
//! each other, and `cursor` launches a body by a drag.
//!
//! All quantities are fixed-point integers, `scalar::UNIT` raw steps to the world
//! unit, and elapsed time is counted in microseconds. Quotients round
//! toward zero, and values that leave their range stay at its edge. The contracts
//! state each result exactly, over mathematical integers; `conservation` proves
//! what a collision conserves, `totals` what a whole sweep conserves, and `pairs`
//! in which order a tick visits the pairs.

pub mod scalar;
pub mod vector;
pub mod error;
pub mod body;
pub mod pairs;
pub mod world;
pub mod collision;
pub mod conservation;
pub mod totals;
pub mod motion;
pub mod factory;
pub mod cursor;
pub mod tick;
