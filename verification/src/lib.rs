//! Simulation core of a single-player arcade shooter.
//!
//! The crate holds the rules of the game and nothing that draws, plays or
//! reads a device: a driver samples the input once per frame, hands it to
//! [`world::World::step`] and acts on the report that comes back.
//!
//! All geometry is fixed-point. Lengths and coordinates are whole sub-pixel
//! units, a thousand to the pixel; speeds are units per second; elapsed time
//! is whole microseconds. Every function is total: none has a precondition.

pub mod units;
pub mod shape;
pub mod score;
pub mod persist;
pub mod state;
pub mod spawner;
pub mod effect;
pub mod fleet;
pub mod world;
