//! The fall-through traversal state machine.
//!
//! Given the tick's ghost list (nearest first), the sensor's output and the
//! crouch input, one of four policies decides whether a ghost platform is
//! presented to the rest of the system as solid ground, whether the character
//! keeps falling through one, and whether it should crouch in place. The only
//! state that survives across ticks is the helper's marker of which ghost
//! platform the character is currently committed to falling through.

use vstd::prelude::*;

use crate::sensor::CastResult;

verus! {

/// How crouch input interacts with ghost platforms; a static per-character
/// configuration, never mutated by the engine at runtime.
#[derive(Clone, Copy, PartialEq, Eq, Structural, Debug)]
pub enum FallingThroughControlScheme {
    /// Ghost platforms are jump-through only: the nearest qualifying one is
    /// always treated as solid ground and crouch input is passed through
    /// unmodified.
    JumpThroughOnly,
    /// Crouching over a qualifying ghost platform lets the character fall
    /// through it, with no cross-tick state. Known, deliberate limitations:
    /// releasing crouch before clearing the platform re-grounds the
    /// character, and a second ghost platform stacked close above a lower one
    /// can be detected instead of the intended lower one.
    WithoutHelper,
    /// The helper commits to at most one layer of ghost platforms per crouch
    /// press: holding the button does not tunnel through a stack.
    SingleFall,
    /// Like `SingleFall`, but holding crouch keeps committing to new ghost
    /// platforms, layer after layer.
    KeepFalling,
}

/// The cross-tick state of the fall-through helper: which ghost platform, by
/// identity, the character is currently committed to falling through.
#[derive(Clone, Copy, PartialEq, Eq, Structural, Debug)]
pub struct FallThroughHelperState {
    pub falling_through: Option<u64>,
}

impl FallThroughHelperState {
    /// Not falling through anything: the initial state.
    pub fn new() -> (r: FallThroughHelperState)
        ensures
            r == (FallThroughHelperState { falling_through: None::<u64> }),
    {
        FallThroughHelperState { falling_through: None }
    }
}

impl Default for FallThroughHelperState {
    fn default() -> (r: Self)
        ensures
            r == (FallThroughHelperState { falling_through: None::<u64> }),
    {
        FallThroughHelperState { falling_through: None }
    }
}

/// What the state machine hands back for the tick: the possibly-overridden
/// sensor output, the helper state to carry into the next tick, and the
/// crouch decision for the crouch action.
#[derive(Clone, Copy, PartialEq, Eq, Structural, Debug)]
pub struct FallThroughDecision {
    pub output: Option<CastResult>,
    pub helper: FallThroughHelperState,
    pub crouch: bool,
}

/// A ghost platform at or beyond the minimum proximity qualifies; the
/// comparison is inclusive. Nearer ones stand for geometry too close to the
/// cast origin to be meaningfully below the character.
pub open spec fn spec_qualifies(g: CastResult, min_proximity: i64) -> bool {
    min_proximity <= g.proximity
}

/// The first ghost list entry at or after position `i` that is at or beyond
/// the minimum proximity.
pub open spec fn spec_first_qualifying(
    ghosts: Seq<CastResult>,
    i: int,
    min_proximity: i64,
) -> Option<CastResult>
    decreases ghosts.len() - i,
{
    if i < 0 || i >= ghosts.len() {
        None
    } else if spec_qualifies(ghosts[i], min_proximity) {
        Some(ghosts[i])
    } else {
        spec_first_qualifying(ghosts, i + 1, min_proximity)
    }
}

/// The committed platform is still relevant: it appears in the current
/// tick's ghost list, at any proximity within detection range.
pub open spec fn spec_helper_relevant(
    helper: FallThroughHelperState,
    ghosts: Seq<CastResult>,
) -> bool {
    match helper.falling_through {
        None => false,
        Some(e) => exists|i: int| 0 <= i < ghosts.len() && (#[trigger] ghosts[i]).entity == e,
    }
}

/// The shared helper rule set of `SingleFall` and `KeepFalling`.
///
/// While crouch is pressed: an already-committed fall-through whose platform
/// is still detected continues; otherwise, when `may_start_new` allows it and
/// a qualifying ghost platform exists, the helper newly commits to the
/// nearest one. Either way the sensor output is left alone (free fall) and
/// the crouch is cancelled. When no fall-through applies, the character
/// simply crouches in place and the helper clears.
///
/// While crouch is not pressed: an in-progress fall-through whose platform is
/// still detected keeps falling (no climbing back up) and the helper
/// persists; otherwise the helper clears and the nearest qualifying ghost
/// platform, if any, is substituted into the sensor output.
pub open spec fn spec_decide_with_helper(
    helper: FallThroughHelperState,
    ghosts: Seq<CastResult>,
    output: Option<CastResult>,
    crouch_pressed: bool,
    may_start_new: bool,
    min_proximity: i64,
) -> FallThroughDecision {
    if crouch_pressed {
        if spec_helper_relevant(helper, ghosts) {
            FallThroughDecision { output, helper, crouch: false }
        } else {
            match spec_first_qualifying(ghosts, 0, min_proximity) {
                Some(g) => if may_start_new {
                    FallThroughDecision {
                        output,
                        helper: FallThroughHelperState { falling_through: Some(g.entity) },
                        crouch: false,
                    }
                } else {
                    FallThroughDecision {
                        output,
                        helper: FallThroughHelperState { falling_through: None },
                        crouch: true,
                    }
                },
                None => FallThroughDecision {
                    output,
                    helper: FallThroughHelperState { falling_through: None },
                    crouch: true,
                },
            }
        }
    } else {
        if spec_helper_relevant(helper, ghosts) {
            FallThroughDecision { output, helper, crouch: false }
        } else {
            FallThroughDecision {
                output: match spec_first_qualifying(ghosts, 0, min_proximity) {
                    Some(g) => Some(g),
                    None => output,
                },
                helper: FallThroughHelperState { falling_through: None },
                crouch: false,
            }
        }
    }
}

/// The per-tick decision of the fall-through state machine, one arm per
/// policy.
pub open spec fn spec_decide_fall_through(
    scheme: FallingThroughControlScheme,
    helper: FallThroughHelperState,
    ghosts: Seq<CastResult>,
    output: Option<CastResult>,
    crouch_pressed: bool,
    crouch_just_pressed: bool,
    min_proximity: i64,
) -> FallThroughDecision {
    match scheme {
        FallingThroughControlScheme::JumpThroughOnly => FallThroughDecision {
            output: match spec_first_qualifying(ghosts, 0, min_proximity) {
                Some(g) => Some(g),
                None => output,
            },
            helper,
            crouch: crouch_pressed,
        },
        FallingThroughControlScheme::WithoutHelper => {
            let q = spec_first_qualifying(ghosts, 0, min_proximity);
            if crouch_pressed {
                FallThroughDecision { output, helper, crouch: q is None }
            } else {
                FallThroughDecision {
                    output: match q {
                        Some(g) => Some(g),
                        None => output,
                    },
                    helper,
                    crouch: false,
                }
            }
        },
        FallingThroughControlScheme::SingleFall => spec_decide_with_helper(
            helper,
            ghosts,
            output,
            crouch_pressed,
            crouch_just_pressed,
            min_proximity,
        ),
        FallingThroughControlScheme::KeepFalling => spec_decide_with_helper(
            helper,
            ghosts,
            output,
            crouch_pressed,
            true,
            min_proximity,
        ),
    }
}

/// The first entry of the ghost list at or beyond the minimum proximity.
pub fn first_qualifying_ghost(ghosts: &Vec<CastResult>, min_proximity: i64) -> (r: Option<
    CastResult,
>)
    ensures
        r == spec_first_qualifying(ghosts@, 0, min_proximity),
{
    let mut i: usize = 0;
    while i < ghosts.len()
        invariant
            i <= ghosts@.len(),
            spec_first_qualifying(ghosts@, 0, min_proximity) == spec_first_qualifying(
                ghosts@,
                i as int,
                min_proximity,
            ),
        decreases ghosts@.len() - i,
    {
        let g = ghosts[i];
        if min_proximity <= g.proximity {
            return Some(g);
        }
        i += 1;
    }
    None
}

fn helper_relevant(helper: FallThroughHelperState, ghosts: &Vec<CastResult>) -> (r: bool)
    ensures
        r == spec_helper_relevant(helper, ghosts@),
{
    match helper.falling_through {
        None => false,
        Some(e) => {
            let mut i: usize = 0;
            while i < ghosts.len()
                invariant
                    i <= ghosts@.len(),
                    helper.falling_through == Some(e),
                    forall|j: int| 0 <= j < i ==> (#[trigger] ghosts@[j]).entity != e,
                decreases ghosts@.len() - i,
            {
                if ghosts[i].entity == e {
                    proof {
                        let w: int = i as int;
                        assert(0 <= w < ghosts@.len() && ghosts@[w].entity == e);
                    }
                    return true;
                }
                i += 1;
            }
            false
        },
    }
}

/// One tick of the fall-through state machine.
///
/// Consumes the tick's ghost list and sensor output together with the crouch
/// input and the helper state carried over from the previous tick; produces
/// the possibly-overridden output, the next helper state, and the crouch
/// decision.
pub fn decide_fall_through(
    scheme: FallingThroughControlScheme,
    helper: FallThroughHelperState,
    ghosts: &Vec<CastResult>,
    output: Option<CastResult>,
    crouch_pressed: bool,
    crouch_just_pressed: bool,
    min_proximity: i64,
) -> (r: FallThroughDecision)
    ensures
        r == spec_decide_fall_through(
            scheme,
            helper,
            ghosts@,
            output,
            crouch_pressed,
            crouch_just_pressed,
            min_proximity,
        ),
{
    match scheme {
        FallingThroughControlScheme::JumpThroughOnly => {
            let q = first_qualifying_ghost(ghosts, min_proximity);
            FallThroughDecision {
                output: match q {
                    Some(g) => Some(g),
                    None => output,
                },
                helper,
                crouch: crouch_pressed,
            }
        },
        FallingThroughControlScheme::WithoutHelper => {
            let q = first_qualifying_ghost(ghosts, min_proximity);
            if crouch_pressed {
                FallThroughDecision { output, helper, crouch: q.is_none() }
            } else {
                FallThroughDecision {
                    output: match q {
                        Some(g) => Some(g),
                        None => output,
                    },
                    helper,
                    crouch: false,
                }
            }
        },
        FallingThroughControlScheme::SingleFall => decide_with_helper(
            helper,
            ghosts,
            output,
            crouch_pressed,
            crouch_just_pressed,
            min_proximity,
        ),
        FallingThroughControlScheme::KeepFalling => decide_with_helper(
            helper,
            ghosts,
            output,
            crouch_pressed,
            true,
            min_proximity,
        ),
    }
}

fn decide_with_helper(
    helper: FallThroughHelperState,
    ghosts: &Vec<CastResult>,
    output: Option<CastResult>,
    crouch_pressed: bool,
    may_start_new: bool,
    min_proximity: i64,
) -> (r: FallThroughDecision)
    ensures
        r == spec_decide_with_helper(
            helper,
            ghosts@,
            output,
            crouch_pressed,
            may_start_new,
            min_proximity,
        ),
{
    let relevant = helper_relevant(helper, ghosts);
    if crouch_pressed {
        if relevant {
            FallThroughDecision { output, helper, crouch: false }
        } else {
            match first_qualifying_ghost(ghosts, min_proximity) {
                Some(g) => if may_start_new {
                    FallThroughDecision {
                        output,
                        helper: FallThroughHelperState { falling_through: Some(g.entity) },
                        crouch: false,
                    }
                } else {
                    FallThroughDecision {
                        output,
                        helper: FallThroughHelperState { falling_through: None },
                        crouch: true,
                    }
                },
                None => FallThroughDecision {
                    output,
                    helper: FallThroughHelperState { falling_through: None },
                    crouch: true,
                },
            }
        }
    } else {
        if relevant {
            FallThroughDecision { output, helper, crouch: false }
        } else {
            FallThroughDecision {
                output: match first_qualifying_ghost(ghosts, min_proximity) {
                    Some(g) => Some(g),
                    None => output,
                },
                helper: FallThroughHelperState { falling_through: None },
                crouch: false,
            }
        }
    }
}

proof fn lemma_first_qualifying_at(ghosts: Seq<CastResult>, i: int, min_proximity: i64, k: int)
    requires
        0 <= i <= k < ghosts.len(),
        spec_qualifies(ghosts[k], min_proximity),
        forall|j: int| i <= j < k ==> !spec_qualifies(#[trigger] ghosts[j], min_proximity),
    ensures
        spec_first_qualifying(ghosts, i, min_proximity) == Some(ghosts[k]),
    decreases k - i,
{
    if i < k {
        lemma_first_qualifying_at(ghosts, i + 1, min_proximity, k);
    }
}

proof fn lemma_first_qualifying_contained(ghosts: Seq<CastResult>, i: int, min_proximity: i64)
    ensures
        match spec_first_qualifying(ghosts, i, min_proximity) {
            Some(g) => ghosts.contains(g) && spec_qualifies(g, min_proximity),
            None => true,
        },
    decreases ghosts.len() - i,
{
    if 0 <= i < ghosts.len() {
        if spec_qualifies(ghosts[i], min_proximity) {
            assert(ghosts[i] == spec_first_qualifying(ghosts, i, min_proximity)->Some_0);
        } else {
            lemma_first_qualifying_contained(ghosts, i + 1, min_proximity);
        }
    }
}

/// The tick's ghost list and overridden sensor output stay mutually
/// consistent: whatever the policy and inputs, the decision's output is
/// either the sensor's own output for this tick, or a qualifying entry
/// deliberately copied from this tick's ghost list — never anything else,
/// and in particular never a stale value from a previous tick.
pub proof fn lemma_output_consistency(
    scheme: FallingThroughControlScheme,
    helper: FallThroughHelperState,
    ghosts: Seq<CastResult>,
    output: Option<CastResult>,
    crouch_pressed: bool,
    crouch_just_pressed: bool,
    min_proximity: i64,
)
    ensures
        ({
            let d = spec_decide_fall_through(
                scheme,
                helper,
                ghosts,
                output,
                crouch_pressed,
                crouch_just_pressed,
                min_proximity,
            );
            d.output == output || match d.output {
                Some(g) => ghosts.contains(g) && spec_qualifies(g, min_proximity),
                None => false,
            }
        }),
{
    lemma_first_qualifying_contained(ghosts, 0, min_proximity);
}

/// Under `JumpThroughOnly`, and regardless of the crouch state, the nearest
/// qualifying ghost platform is always substituted into the sensor output;
/// the crouch decision mirrors the raw crouch input and the helper state is
/// untouched. `k` points at the first qualifying entry of the nearest-first
/// ghost list.
pub proof fn lemma_jump_through_only_substitutes(
    helper: FallThroughHelperState,
    ghosts: Seq<CastResult>,
    output: Option<CastResult>,
    crouch_pressed: bool,
    crouch_just_pressed: bool,
    min_proximity: i64,
    k: int,
)
    requires
        0 <= k < ghosts.len(),
        spec_qualifies(ghosts[k], min_proximity),
        forall|j: int| 0 <= j < k ==> !spec_qualifies(#[trigger] ghosts[j], min_proximity),
    ensures
        ({
            let d = spec_decide_fall_through(
                FallingThroughControlScheme::JumpThroughOnly,
                helper,
                ghosts,
                output,
                crouch_pressed,
                crouch_just_pressed,
                min_proximity,
            );
            &&& d.output == Some(ghosts[k])
            &&& d.crouch == crouch_pressed
            &&& d.helper == helper
        }),
{
    lemma_first_qualifying_at(ghosts, 0, min_proximity, k);
}

/// A ghost platform at exactly the minimum proximity threshold qualifies:
/// the comparison is inclusive.
pub proof fn lemma_min_proximity_boundary_qualifies(g: CastResult, min_proximity: i64)
    requires
        g.proximity == min_proximity,
    ensures
        spec_qualifies(g, min_proximity),
{
}

/// "Falling through platform P" is entered only by an explicit crouch press
/// under a helper scheme: starting from the initial state, the decision
/// commits to a platform only when crouch is pressed under `SingleFall`
/// (freshly pressed) or `KeepFalling`, and the platform it commits to is the
/// nearest qualifying ghost entry.
pub proof fn lemma_fall_entered_only_by_press(
    scheme: FallingThroughControlScheme,
    helper: FallThroughHelperState,
    ghosts: Seq<CastResult>,
    output: Option<CastResult>,
    crouch_pressed: bool,
    crouch_just_pressed: bool,
    min_proximity: i64,
)
    requires
        helper.falling_through is None,
    ensures
        ({
            let d = spec_decide_fall_through(
                scheme,
                helper,
                ghosts,
                output,
                crouch_pressed,
                crouch_just_pressed,
                min_proximity,
            );
            d.helper.falling_through is Some ==> {
                &&& crouch_pressed
                &&& scheme == FallingThroughControlScheme::SingleFall || scheme
                    == FallingThroughControlScheme::KeepFalling
                &&& scheme == FallingThroughControlScheme::SingleFall ==> crouch_just_pressed
                &&& match spec_first_qualifying(ghosts, 0, min_proximity) {
                    Some(g) => d.helper.falling_through == Some(g.entity),
                    None => false,
                }
            }
        }),
{
}

/// While the committed platform is still detected, the fall continues no
/// matter the crouch state: the sensor output is left unoverridden (no
/// climbing back up), the helper persists, and the crouch stays cancelled.
pub proof fn lemma_committed_fall_continues(
    scheme: FallingThroughControlScheme,
    helper: FallThroughHelperState,
    ghosts: Seq<CastResult>,
    output: Option<CastResult>,
    crouch_pressed: bool,
    crouch_just_pressed: bool,
    min_proximity: i64,
)
    requires
        spec_helper_relevant(helper, ghosts),
        scheme == FallingThroughControlScheme::SingleFall || scheme
            == FallingThroughControlScheme::KeepFalling,
    ensures
        ({
            let d = spec_decide_fall_through(
                scheme,
                helper,
                ghosts,
                output,
                crouch_pressed,
                crouch_just_pressed,
                min_proximity,
            );
            &&& d.output == output
            &&& d.helper == helper
            &&& d.crouch == false
        }),
{
}

/// Releasing crouch once the committed platform has left the ghost list
/// returns the helper to its initial "not falling through anything" state,
/// and normal grounding resumes: the nearest qualifying ghost entry, if any,
/// is substituted into the sensor output.
pub proof fn lemma_release_clears_helper(
    scheme: FallingThroughControlScheme,
    helper: FallThroughHelperState,
    ghosts: Seq<CastResult>,
    output: Option<CastResult>,
    crouch_just_pressed: bool,
    min_proximity: i64,
)
    requires
        !spec_helper_relevant(helper, ghosts),
        scheme == FallingThroughControlScheme::SingleFall || scheme
            == FallingThroughControlScheme::KeepFalling,
    ensures
        ({
            let d = spec_decide_fall_through(
                scheme,
                helper,
                ghosts,
                output,
                false,
                crouch_just_pressed,
                min_proximity,
            );
            &&& d.helper.falling_through is None
            &&& d.crouch == false
            &&& d.output == match spec_first_qualifying(ghosts, 0, min_proximity) {
                Some(g) => Some(g),
                None => output,
            }
        }),
{
}

} // verus!
