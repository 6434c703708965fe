//! The motor consumer: turns a computed boost and acceleration into velocity
//! and force writes for the physics backend.

use vstd::prelude::*;

use crate::math::{in_range, vec_in_range, IVec3};
use crate::tracker::SensingToggle;

verus! {

/// One axis of the motor command. A missing component means "no contribution
/// this axis": it is skipped rather than applied as zero, preserving whatever
/// motion the backend already drives on that axis.
#[derive(Clone, Copy, PartialEq, Eq, Structural, Debug)]
pub struct MotorAxis {
    /// An instantaneous velocity change.
    pub boost: Option<IVec3>,
    /// A sustained acceleration, to be scaled by the body's mass or inertia.
    pub acceleration: Option<IVec3>,
}

/// The motor command record handed to the consumer each tick.
#[derive(Clone, Copy, PartialEq, Eq, Structural, Debug)]
pub struct Motor {
    pub lin: MotorAxis,
    pub ang: MotorAxis,
}

/// The backend's velocity record for the character.
#[derive(Clone, Copy, PartialEq, Eq, Structural, Debug)]
pub struct BodyVelocity {
    pub linvel: IVec3,
    pub angvel: IVec3,
}

/// The backend's external force record for the character.
#[derive(Clone, Copy, PartialEq, Eq, Structural, Debug)]
pub struct AppliedForce {
    pub force: IVec3,
    pub torque: IVec3,
}

/// Applies one tick's motor command to the character's velocity and force
/// records.
///
/// A character whose toggle is not fully enabled receives zero force and an
/// untouched velocity. For an enabled character each present component
/// contributes: a boost adds to the matching velocity directly, a linear
/// acceleration writes the force scaled by the body's mass, and an angular
/// acceleration writes the torque scaled axis by axis by the body's principal
/// inertia. Absent components leave their record untouched.
pub fn apply_motor(
    toggle: SensingToggle,
    motor: &Motor,
    mass: i64,
    principal_inertia: IVec3,
    velocity: &mut BodyVelocity,
    force: &mut AppliedForce,
)
    requires
        vec_in_range(old(velocity).linvel),
        vec_in_range(old(velocity).angvel),
        in_range(mass as int),
        vec_in_range(principal_inertia),
        match motor.lin.boost {
            Some(b) => vec_in_range(b),
            None => true,
        },
        match motor.lin.acceleration {
            Some(a) => vec_in_range(a),
            None => true,
        },
        match motor.ang.boost {
            Some(b) => vec_in_range(b),
            None => true,
        },
        match motor.ang.acceleration {
            Some(a) => vec_in_range(a),
            None => true,
        },
    ensures
        toggle != SensingToggle::Enabled ==> {
            &&& *final(velocity) == *old(velocity)
            &&& final(force).force.is_zero_vec()
            &&& final(force).torque.is_zero_vec()
        },
        toggle == SensingToggle::Enabled ==> {
            &&& match motor.lin.boost {
                Some(b) => {
                    &&& final(velocity).linvel.x == old(velocity).linvel.x + b.x
                    &&& final(velocity).linvel.y == old(velocity).linvel.y + b.y
                    &&& final(velocity).linvel.z == old(velocity).linvel.z + b.z
                },
                None => final(velocity).linvel == old(velocity).linvel,
            }
            &&& match motor.ang.boost {
                Some(b) => {
                    &&& final(velocity).angvel.x == old(velocity).angvel.x + b.x
                    &&& final(velocity).angvel.y == old(velocity).angvel.y + b.y
                    &&& final(velocity).angvel.z == old(velocity).angvel.z + b.z
                },
                None => final(velocity).angvel == old(velocity).angvel,
            }
            &&& match motor.lin.acceleration {
                Some(a) => {
                    &&& final(force).force.x == a.x * mass
                    &&& final(force).force.y == a.y * mass
                    &&& final(force).force.z == a.z * mass
                },
                None => final(force).force == old(force).force,
            }
            &&& match motor.ang.acceleration {
                Some(a) => {
                    &&& final(force).torque.x == a.x * principal_inertia.x
                    &&& final(force).torque.y == a.y * principal_inertia.y
                    &&& final(force).torque.z == a.z * principal_inertia.z
                },
                None => final(force).torque == old(force).torque,
            }
        },
{
    match toggle {
        SensingToggle::Disabled | SensingToggle::SenseOnly => {
            force.force = IVec3::zero();
            force.torque = IVec3::zero();
        },
        SensingToggle::Enabled => {
            if let Some(b) = motor.lin.boost {
                velocity.linvel = velocity.linvel.plus(b);
            }
            if let Some(a) = motor.lin.acceleration {
                force.force = a.scaled(mass);
            }
            if let Some(b) = motor.ang.boost {
                velocity.angvel = velocity.angvel.plus(b);
            }
            if let Some(a) = motor.ang.acceleration {
                force.torque = a.scaled_by_axes(principal_inertia);
            }
        },
    }
}

} // verus!
