//! Per-character snapshot of the rigid body, refreshed once per tick.

use vstd::prelude::*;

use crate::math::IVec3;

verus! {

/// How much of the per-tick pipeline runs for a character.
#[derive(Clone, Copy, PartialEq, Eq, Structural, Debug)]
pub enum SensingToggle {
    /// Neither sensing nor motor output: the tracker and the sensor keep
    /// their previous values and no force is written.
    Disabled,
    /// Sensing runs, but motor output is suppressed downstream.
    SenseOnly,
    /// Everything runs.
    Enabled,
}

impl SensingToggle {
    /// Sensing (tracker refresh, proximity cast) runs for this toggle.
    pub open spec fn senses(self) -> bool {
        self != SensingToggle::Disabled
    }
}

impl Default for SensingToggle {
    /// A character without an explicit toggle is fully enabled.
    fn default() -> (r: Self)
        ensures
            r == SensingToggle::Enabled,
    {
        SensingToggle::Enabled
    }
}

/// An orientation, stored as the four components of a quaternion in the
/// caller's fixed scale. The crate carries it as data; rotating vectors by it
/// is the backend's work.
#[derive(Clone, Copy, PartialEq, Eq, Structural, Debug)]
pub struct Rotation {
    pub x: i64,
    pub y: i64,
    pub z: i64,
    pub w: i64,
}

/// What one character's rigid body looked like at the start of the tick:
/// world transform, velocities, and the ambient gravity. Overwritten
/// wholesale every tick; no history is kept.
#[derive(Clone, Copy, PartialEq, Eq, Structural, Debug)]
pub struct RigidBodyState {
    pub translation: IVec3,
    pub rotation: Rotation,
    pub velocity: IVec3,
    pub angvel: IVec3,
    pub gravity: IVec3,
}

/// The tracker value after one tick: a disabled character keeps its previous
/// snapshot untouched, any other character takes the freshly observed one.
pub fn refreshed_tracker(
    toggle: SensingToggle,
    previous: RigidBodyState,
    observed: RigidBodyState,
) -> (r: RigidBodyState)
    ensures
        r == if toggle.senses() {
            observed
        } else {
            previous
        },
{
    match toggle {
        SensingToggle::Disabled => previous,
        SensingToggle::SenseOnly => observed,
        SensingToggle::Enabled => observed,
    }
}

} // verus!
