//! A small two-dimensional Newtonian gravity simulator.
//!
//! The engine works on exact integer arithmetic: positions are stored in
//! nanometres, velocities in nanometres per second, accelerations in
//! nanometres per second squared, and masses in kilograms.  Every public
//! operation carries a contract that pins down the produced values, including
//! the truncation performed by integer division and the clamping applied to
//! keep all quantities inside their configured ranges.

pub mod body;
pub mod camera;
pub mod num;
pub mod sim;
pub mod vec2;
