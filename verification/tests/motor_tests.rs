use groundcast::math::IVec3;
use groundcast::motor::{apply_motor, AppliedForce, BodyVelocity, Motor, MotorAxis};
use groundcast::tracker::{refreshed_tracker, RigidBodyState, Rotation, SensingToggle};

fn v(x: i64, y: i64, z: i64) -> IVec3 {
    IVec3::new(x, y, z)
}

fn zero_velocity() -> BodyVelocity {
    BodyVelocity { linvel: v(0, 0, 0), angvel: v(0, 0, 0) }
}

fn stale_force() -> AppliedForce {
    AppliedForce { force: v(11, 12, 13), torque: v(14, 15, 16) }
}

#[test]
fn enabled_motor_applies_every_component() {
    let motor = Motor {
        lin: MotorAxis { boost: Some(v(5, 0, 0)), acceleration: Some(v(2, 0, 1)) },
        ang: MotorAxis { boost: Some(v(0, 3, 0)), acceleration: Some(v(1, 2, 3)) },
    };
    let mut velocity = BodyVelocity { linvel: v(10, 0, 0), angvel: v(0, 1, 0) };
    let mut force = stale_force();
    apply_motor(SensingToggle::Enabled, &motor, 80, v(4, 5, 6), &mut velocity, &mut force);
    assert_eq!(velocity.linvel, v(15, 0, 0));
    assert_eq!(velocity.angvel, v(0, 4, 0));
    assert_eq!(force.force, v(160, 0, 80));
    assert_eq!(force.torque, v(4, 10, 18));
}

#[test]
fn absent_components_are_skipped_not_zeroed() {
    let motor = Motor {
        lin: MotorAxis { boost: None, acceleration: None },
        ang: MotorAxis { boost: None, acceleration: None },
    };
    let mut velocity = BodyVelocity { linvel: v(10, 0, 0), angvel: v(0, 1, 0) };
    let mut force = stale_force();
    apply_motor(SensingToggle::Enabled, &motor, 80, v(4, 5, 6), &mut velocity, &mut force);
    // Nothing contributed, so the backend-driven motion and the previous
    // force writes survive.
    assert_eq!(velocity.linvel, v(10, 0, 0));
    assert_eq!(velocity.angvel, v(0, 1, 0));
    assert_eq!(force, stale_force());
}

#[test]
fn disabled_character_gets_zero_force() {
    let motor = Motor {
        lin: MotorAxis { boost: Some(v(5, 0, 0)), acceleration: Some(v(2, 0, 1)) },
        ang: MotorAxis { boost: None, acceleration: None },
    };
    for toggle in [SensingToggle::Disabled, SensingToggle::SenseOnly] {
        let mut velocity = zero_velocity();
        let mut force = stale_force();
        apply_motor(toggle, &motor, 80, v(4, 5, 6), &mut velocity, &mut force);
        assert_eq!(velocity, zero_velocity());
        assert_eq!(force.force, v(0, 0, 0));
        assert_eq!(force.torque, v(0, 0, 0));
    }
}

fn snapshot(translation: IVec3) -> RigidBodyState {
    RigidBodyState {
        translation,
        rotation: Rotation { x: 0, y: 0, z: 0, w: 1000 },
        velocity: v(1, 2, 3),
        angvel: v(0, 0, 0),
        gravity: v(0, -9810, 0),
    }
}

#[test]
fn tracker_overwrites_wholesale_when_sensing() {
    let previous = snapshot(v(0, 0, 0));
    let observed = snapshot(v(100, 200, 300));
    assert_eq!(refreshed_tracker(SensingToggle::Enabled, previous, observed), observed);
    assert_eq!(refreshed_tracker(SensingToggle::SenseOnly, previous, observed), observed);
}

#[test]
fn tracker_keeps_previous_when_disabled() {
    let previous = snapshot(v(0, 0, 0));
    let observed = snapshot(v(100, 200, 300));
    assert_eq!(refreshed_tracker(SensingToggle::Disabled, previous, observed), previous);
}

#[test]
fn vector_products_are_exact() {
    let a = v(1, 2, 3);
    let b = v(4, 5, 6);
    assert_eq!(a.dot(b), 32);
    assert_eq!(a.cross(b), v(-3, 6, -3));
    assert_eq!(a.plus(b), v(5, 7, 9));
    assert_eq!(b.minus(a), v(3, 3, 3));
    assert_eq!(a.scaled(10), v(10, 20, 30));
    assert_eq!(a.scaled_by_axes(b), v(4, 10, 18));
}
