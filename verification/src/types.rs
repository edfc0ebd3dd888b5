//! Domain classifications for breakup simulation.

use vstd::prelude::*;

verus! {

/// Object type classification for the area-to-mass distributions.
#[derive(Debug, Clone, Copy, PartialEq, Eq, Hash, Structural)]
pub enum ObjectType {
    /// Payload / satellite / spacecraft (solar panels, payloads, bus structures).
    Spacecraft,
    /// Upper stage / rocket body (pressure tanks, propellant shells, nozzles).
    RocketBody,
}

/// Breakup event regime.
#[derive(Debug, Clone, Copy, PartialEq, Eq, Hash, Structural)]
pub enum BreakupType {
    /// Hypervelocity impact between two objects.
    Collision,
    /// Internal energetic rupture (propellant explosion, battery rupture).
    Explosion,
}

} // verus!
