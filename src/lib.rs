//! A flock of autonomous agents ("boids") steering by separation, alignment
//! and cohesion, with a spatial index over their positions that is rebuilt
//! every tick.
//!
//! All quantities are integers in fixed units: positions and distances in
//! [`vector::UNITS_PER_PIXEL`] units, velocities in units per second,
//! accelerations in units per second squared, and time steps in milliseconds.

pub mod boids_plugin;
pub mod flow_field_plugin;
pub mod spatial;
pub mod steering;
pub mod vector;
