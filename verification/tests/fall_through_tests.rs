use groundcast::fall_through::{
    decide_fall_through, first_qualifying_ghost, FallThroughHelperState,
    FallingThroughControlScheme,
};
use groundcast::math::IVec3;
use groundcast::sensor::CastResult;

// One unit of length is 1000: a proximity of 0.5 is 500, the threshold of
// 1.0 used throughout is 1000.
const MIN_PROXIMITY: i64 = 1000;

fn v(x: i64, y: i64, z: i64) -> IVec3 {
    IVec3 { x, y, z }
}

fn ghost_entry(entity: u64, proximity: i64) -> CastResult {
    CastResult {
        entity,
        proximity,
        intersection_point: v(0, -proximity, 0),
        normal: v(0, 1000, 0),
        entity_linvel: v(0, 0, 0),
        entity_angvel: v(0, 0, 0),
    }
}

fn not_falling() -> FallThroughHelperState {
    FallThroughHelperState::new()
}

#[test]
fn jump_through_only_substitutes_nearest_qualifying() {
    let ghosts = vec![ghost_entry(1, 500), ghost_entry(2, 1500)];
    // Crouch pressed or not, the first qualifying entry becomes the output
    // and the crouch decision mirrors the raw input.
    for (pressed, just) in [(false, false), (true, true), (true, false)] {
        let d = decide_fall_through(
            FallingThroughControlScheme::JumpThroughOnly,
            not_falling(),
            &ghosts,
            None,
            pressed,
            just,
            MIN_PROXIMITY,
        );
        assert_eq!(d.output.expect("qualifying ghost substituted").entity, 2);
        assert_eq!(d.crouch, pressed);
        assert_eq!(d.helper, not_falling());
    }
}

#[test]
fn jump_through_only_without_qualifying_keeps_output() {
    let ghosts = vec![ghost_entry(1, 500)];
    let d = decide_fall_through(
        FallingThroughControlScheme::JumpThroughOnly,
        not_falling(),
        &ghosts,
        None,
        false,
        false,
        MIN_PROXIMITY,
    );
    assert!(d.output.is_none());
}

#[test]
fn boundary_proximity_qualifies_inclusively() {
    let ghosts = vec![ghost_entry(3, MIN_PROXIMITY)];
    assert_eq!(
        first_qualifying_ghost(&ghosts, MIN_PROXIMITY)
            .expect("an entry exactly at the threshold qualifies")
            .entity,
        3
    );
}

#[test]
fn without_helper_falls_through_past_sub_threshold_platform() {
    // Two stacked ghost platforms at 0.5 and 2.0 with threshold 1.0: only the
    // 2.0 entry qualifies, so pressing crouch suppresses the crouch and lets
    // the character fall through it, even though a closer platform exists.
    let ghosts = vec![ghost_entry(1, 500), ghost_entry(2, 2000)];
    let d = decide_fall_through(
        FallingThroughControlScheme::WithoutHelper,
        not_falling(),
        &ghosts,
        None,
        true,
        true,
        MIN_PROXIMITY,
    );
    assert!(!d.crouch);
    assert!(d.output.is_none());
    assert_eq!(d.helper, not_falling());
}

#[test]
fn without_helper_crouches_when_nothing_qualifies() {
    let ghosts = vec![ghost_entry(1, 500)];
    let d = decide_fall_through(
        FallingThroughControlScheme::WithoutHelper,
        not_falling(),
        &ghosts,
        None,
        true,
        true,
        MIN_PROXIMITY,
    );
    assert!(d.crouch);
    assert!(d.output.is_none());
}

#[test]
fn without_helper_stands_on_qualifying_ghost_when_released() {
    let ghosts = vec![ghost_entry(2, 1500)];
    let d = decide_fall_through(
        FallingThroughControlScheme::WithoutHelper,
        not_falling(),
        &ghosts,
        None,
        false,
        false,
        MIN_PROXIMITY,
    );
    assert!(!d.crouch);
    assert_eq!(d.output.expect("stand on the ghost platform").entity, 2);
}

#[test]
fn single_fall_press_hold_release_sequence() {
    // Tick 1: first press with one qualifying platform at 1.0 commits to the
    // fall: crouch cancelled, output left empty (free fall).
    let ghosts = vec![ghost_entry(7, 1000)];
    let d1 = decide_fall_through(
        FallingThroughControlScheme::SingleFall,
        not_falling(),
        &ghosts,
        None,
        true,
        true,
        MIN_PROXIMITY,
    );
    assert!(!d1.crouch);
    assert!(d1.output.is_none());
    assert_eq!(d1.helper.falling_through, Some(7));

    // Tick 2: still holding, the same platform still detected (now nearer):
    // the fall continues, still unoverridden.
    let ghosts = vec![ghost_entry(7, 300)];
    let d2 = decide_fall_through(
        FallingThroughControlScheme::SingleFall,
        d1.helper,
        &ghosts,
        None,
        true,
        false,
        MIN_PROXIMITY,
    );
    assert!(!d2.crouch);
    assert!(d2.output.is_none());
    assert_eq!(d2.helper.falling_through, Some(7));

    // Tick 3: released, the platform has fallen out of range; grounding
    // resumes on the next qualifying surface below.
    let ghosts = vec![ghost_entry(8, 1800)];
    let d3 = decide_fall_through(
        FallingThroughControlScheme::SingleFall,
        d2.helper,
        &ghosts,
        None,
        false,
        false,
        MIN_PROXIMITY,
    );
    assert!(!d3.crouch);
    assert_eq!(d3.output.expect("next qualifying ghost grounds").entity, 8);
    assert_eq!(d3.helper, not_falling());
}

#[test]
fn single_fall_does_not_tunnel_through_a_stack() {
    // Holding the button after the first platform is cleared: without a fresh
    // press the helper refuses the next platform and the character crouches.
    let ghosts = vec![ghost_entry(9, 1200)];
    let held = FallThroughHelperState { falling_through: Some(7) };
    let d = decide_fall_through(
        FallingThroughControlScheme::SingleFall,
        held,
        &ghosts,
        None,
        true,
        false,
        MIN_PROXIMITY,
    );
    assert!(d.crouch);
    assert!(d.output.is_none());
    assert_eq!(d.helper, not_falling());
}

#[test]
fn keep_falling_commits_to_each_layer_while_held() {
    let ghosts = vec![ghost_entry(9, 1200)];
    let held = FallThroughHelperState { falling_through: Some(7) };
    let d = decide_fall_through(
        FallingThroughControlScheme::KeepFalling,
        held,
        &ghosts,
        None,
        true,
        false,
        MIN_PROXIMITY,
    );
    assert!(!d.crouch);
    assert!(d.output.is_none());
    assert_eq!(d.helper.falling_through, Some(9));
}

#[test]
fn release_keeps_falling_while_platform_detected() {
    // Crouch released right after the fall began, platform still in the
    // list: no climbing back up.
    let ghosts = vec![ghost_entry(7, 600)];
    let committed = FallThroughHelperState { falling_through: Some(7) };
    let d = decide_fall_through(
        FallingThroughControlScheme::SingleFall,
        committed,
        &ghosts,
        None,
        false,
        false,
        MIN_PROXIMITY,
    );
    assert!(!d.crouch);
    assert!(d.output.is_none());
    assert_eq!(d.helper, committed);
}

#[test]
fn without_helper_regrounds_on_early_release() {
    // The documented limitation of the helper-less scheme: releasing crouch
    // while the platform is still detected above the threshold climbs the
    // character right back onto it.
    let ghosts = vec![ghost_entry(2, 1500)];
    let fall = decide_fall_through(
        FallingThroughControlScheme::WithoutHelper,
        not_falling(),
        &ghosts,
        None,
        true,
        true,
        MIN_PROXIMITY,
    );
    assert!(!fall.crouch);
    assert!(fall.output.is_none());
    let released = decide_fall_through(
        FallingThroughControlScheme::WithoutHelper,
        fall.helper,
        &ghosts,
        None,
        false,
        false,
        MIN_PROXIMITY,
    );
    assert_eq!(released.output.expect("climbed back up").entity, 2);
}

#[test]
fn helper_defaults_to_not_falling() {
    assert_eq!(FallThroughHelperState::default(), not_falling());
}

#[test]
fn first_qualifying_skips_near_entries() {
    let ghosts = vec![ghost_entry(1, 200), ghost_entry(2, 999), ghost_entry(3, 1400)];
    assert_eq!(
        first_qualifying_ghost(&ghosts, MIN_PROXIMITY).expect("entry 3").entity,
        3
    );
    assert!(first_qualifying_ghost(&ghosts, 1500).is_none());
}
