//! The record of a visual effect in flight.

use vstd::prelude::*;
use crate::shape::Shape;

verus! {

/// Particles asked for per point that the destroyed enemy was worth.
pub const PARTICLES_PER_POINT: u32 = 4;

/// A one-shot explosion that the renderer is playing. The renderer owns the
/// effect itself and reports through `emitting` whether it is still active.
#[derive(Clone, Copy, Debug, PartialEq, Eq, Structural)]
pub struct Effect {
    /// Horizontal centre, in units.
    pub x: i64,
    /// Vertical centre, in units.
    pub y: i64,
    /// Number of particles asked for.
    pub amount: u32,
    /// Cleared by the renderer once the effect has played out.
    pub emitting: bool,
}

impl Effect {
    /// The explosion of `enemy`: centred on it, active, with four particles to
    /// each point that the enemy was worth.
    pub open spec fn spec_blast(enemy: Shape) -> Effect {
        Effect { x: enemy.x, y: enemy.y, amount: (4 * enemy.spec_points()) as u32, emitting: true }
    }

    /// The explosion of `enemy`.
    pub fn blast(enemy: &Shape) -> (effect: Effect)
        ensures
            effect == Self::spec_blast(*enemy),
            effect.emitting,
    {
        Effect {
            x: enemy.x,
            y: enemy.y,
            amount: enemy.points() * PARTICLES_PER_POINT,
            emitting: true,
        }
    }
}

} // verus!
