//! The proximity sensor with its ghost skip-cast loop.
//!
//! Once per tick a character casts along its gravity direction and asks what
//! it is standing on. The physics backend answers with the surfaces the cast
//! line meets, nearest first; this module holds the decision logic over that
//! snapshot: which candidate hits are rejected (incompatible collision
//! groups, sensor-only colliders, surfaces the character already rests flush
//! against), which are ghost platforms to be recorded and skipped past, and
//! which one becomes the tick's grounding output.

use vstd::prelude::*;

use crate::math::{dot_math, lemma_mul_bounds, vec_in_range, IVec3, COORD_LIMIT};
use crate::tracker::SensingToggle;

verus! {

/// Immutable per-character sensing configuration.
#[derive(Clone, Copy, PartialEq, Eq, Structural, Debug)]
pub struct SensorConfig {
    /// Where the cast starts, local to the character.
    pub cast_origin: IVec3,
    /// How far along the cast direction the sensor looks.
    pub cast_range: i64,
    /// A contact whose manifold normal, dotted with the cast direction,
    /// exceeds this value marks a surface the cast origin already rests
    /// against; such a candidate is rejected. The threshold is expressed in
    /// the product scale of the two vectors.
    pub intersection_match_prevention_cutoff: i64,
}

/// The motion of a hit body, when the backend has a velocity record for it.
#[derive(Clone, Copy, PartialEq, Eq, Structural, Debug)]
pub struct BodyMotion {
    /// The body's world translation (its center, from which the lever arm of
    /// the angular velocity is measured).
    pub translation: IVec3,
    pub linvel: IVec3,
    pub angvel: IVec3,
}

/// Everything the backend reports about one surface the cast line meets.
///
/// A candidate whose collider the backend can no longer resolve is simply not
/// reported: it is treated as absent and the cast continues past it.
#[derive(Debug)]
pub struct Surface {
    pub entity: u64,
    /// Distance along the cast direction from the cast origin, non-negative.
    pub proximity: i64,
    pub intersection_point: IVec3,
    pub normal: IVec3,
    /// The surface is tagged as a pass-through (ghost) platform.
    pub is_ghost: bool,
    /// The surface's collider is sensor-only.
    pub is_sensor: bool,
    /// The surface's solver groups are compatible with the owner's. An owner
    /// with no collider registered yet (a first-tick race) interacts with
    /// everything, so every surface it is handed carries `true` here.
    pub solver_compatible: bool,
    /// Normals of the active contact manifolds (those with at least one
    /// contact point) between the owner and this surface.
    pub contact_normals: Vec<IVec3>,
    /// The hit body's motion; `None` for static geometry.
    pub motion: Option<BodyMotion>,
}

/// What one accepted hit looks like to the rest of the system. Produced
/// fresh each cast and never retained beyond the tick that created it.
#[derive(Clone, Copy, PartialEq, Eq, Structural, Debug)]
pub struct CastResult {
    pub entity: u64,
    /// Distance along the cast direction from the cast origin.
    pub proximity: i64,
    pub intersection_point: IVec3,
    pub normal: IVec3,
    /// The velocity of the hit body sampled at the intersection point.
    pub entity_linvel: IVec3,
    pub entity_angvel: IVec3,
}

/// One tick's sensing result: every ghost platform the cast skipped past,
/// nearest first, and the final grounding output.
#[derive(Debug)]
pub struct CastOutcome {
    pub ghosts: Vec<CastResult>,
    pub output: Option<CastResult>,
}

/// The vector fields of a surface that take part in arithmetic are small
/// enough for it.
pub open spec fn surface_bounded(s: Surface) -> bool {
    &&& vec_in_range(s.intersection_point)
    &&& forall|i: int|
        0 <= i < s.contact_normals@.len() ==> vec_in_range(#[trigger] s.contact_normals@[i])
    &&& match s.motion {
        Some(m) => vec_in_range(m.translation) && vec_in_range(m.linvel) && vec_in_range(m.angvel),
        None => true,
    }
}

/// The cast direction is the gravity vector, or the fixed `down` fallback
/// when gravity is degenerate (zero).
pub fn pick_cast_direction(gravity: IVec3, down: IVec3) -> (r: IVec3)
    ensures
        r == if gravity.is_zero_vec() {
            down
        } else {
            gravity
        },
{
    if gravity.is_zero() {
        down
    } else {
        gravity
    }
}

/// No active contact manifold between the owner and this surface has a normal
/// whose dot product with the cast direction exceeds the cutoff. A dot
/// product exactly equal to the cutoff does not reject the candidate.
pub open spec fn spec_manifolds_allow(s: Surface, dir: IVec3, cutoff: i64) -> bool {
    forall|i: int|
        0 <= i < s.contact_normals@.len() ==> dot_math(#[trigger] s.contact_normals@[i], dir)
            <= cutoff
}

/// The cast's candidate filter. A candidate is kept when
/// - its solver groups are compatible with the owner's, or it is a ghost
///   platform not yet visited this cast and a ghost sensor is listening;
/// - it is not a sensor-only collider; and
/// - no active contact manifold says the owner already rests flush against it.
pub open spec fn spec_passes_filter(
    s: Surface,
    dir: IVec3,
    cutoff: i64,
    has_ghost_sensor: bool,
    visited: Seq<u64>,
) -> bool {
    &&& s.solver_compatible || (has_ghost_sensor && s.is_ghost && !visited.contains(s.entity))
    &&& !s.is_sensor
    &&& spec_manifolds_allow(s, dir, cutoff)
}

fn vec_contains_u64(v: &Vec<u64>, e: u64) -> (r: bool)
    ensures
        r == v@.contains(e),
{
    let mut i: usize = 0;
    while i < v.len()
        invariant
            i <= v@.len(),
            forall|j: int| 0 <= j < i ==> v@[j] != e,
        decreases v@.len() - i,
    {
        if v[i] == e {
            return true;
        }
        i += 1;
    }
    false
}

fn manifolds_allow(s: &Surface, dir: IVec3, cutoff: i64) -> (r: bool)
    requires
        vec_in_range(dir),
        forall|i: int|
            0 <= i < s.contact_normals@.len() ==> vec_in_range(#[trigger] s.contact_normals@[i]),
    ensures
        r == spec_manifolds_allow(*s, dir, cutoff),
{
    let mut i: usize = 0;
    while i < s.contact_normals.len()
        invariant
            i <= s.contact_normals@.len(),
            vec_in_range(dir),
            forall|j: int|
                0 <= j < s.contact_normals@.len() ==> vec_in_range(
                    #[trigger] s.contact_normals@[j],
                ),
            forall|j: int|
                0 <= j < i ==> dot_math(#[trigger] s.contact_normals@[j], dir) <= cutoff,
        decreases s.contact_normals@.len() - i,
    {
        let n = s.contact_normals[i];
        if n.dot(dir) > cutoff {
            return false;
        }
        i += 1;
    }
    true
}

/// Runs the candidate filter on one reported surface. The backend's cast
/// treats a rejected candidate as absent and continues past it.
pub fn surface_passes_filter(
    s: &Surface,
    dir: IVec3,
    cutoff: i64,
    has_ghost_sensor: bool,
    visited: &Vec<u64>,
) -> (r: bool)
    requires
        vec_in_range(dir),
        forall|i: int|
            0 <= i < s.contact_normals@.len() ==> vec_in_range(#[trigger] s.contact_normals@[i]),
    ensures
        r == spec_passes_filter(*s, dir, cutoff, has_ghost_sensor, visited@),
{
    let group_ok = if s.solver_compatible {
        true
    } else if has_ghost_sensor && s.is_ghost {
        !vec_contains_u64(visited, s.entity)
    } else {
        false
    };
    if !group_ok {
        return false;
    }
    if s.is_sensor {
        return false;
    }
    manifolds_allow(s, dir, cutoff)
}

/// The linear velocity of the hit surface at the intersection point: the
/// body's linear velocity plus its angular velocity crossed with the offset
/// from the body's center to the point; zero for a body without a velocity
/// record.
pub open spec fn spec_surface_linvel(motion: Option<BodyMotion>, point: IVec3) -> IVec3 {
    match motion {
        None => IVec3 { x: 0, y: 0, z: 0 },
        Some(m) => {
            let rx = point.x - m.translation.x;
            let ry = point.y - m.translation.y;
            let rz = point.z - m.translation.z;
            IVec3 {
                x: (m.linvel.x + (m.angvel.y * rz - m.angvel.z * ry)) as i64,
                y: (m.linvel.y + (m.angvel.z * rx - m.angvel.x * rz)) as i64,
                z: (m.linvel.z + (m.angvel.x * ry - m.angvel.y * rx)) as i64,
            }
        },
    }
}

/// The angular velocity reported for the hit surface: the body's own, or zero
/// for a body without a velocity record.
pub open spec fn spec_surface_angvel(motion: Option<BodyMotion>) -> IVec3 {
    match motion {
        None => IVec3 { x: 0, y: 0, z: 0 },
        Some(m) => m.angvel,
    }
}

/// Samples the velocity of a hit body at the intersection point.
pub fn surface_velocity(motion: &Option<BodyMotion>, point: IVec3) -> (r: (IVec3, IVec3))
    requires
        vec_in_range(point),
        match *motion {
            Some(m) => vec_in_range(m.translation) && vec_in_range(m.linvel) && vec_in_range(
                m.angvel,
            ),
            None => true,
        },
    ensures
        r.0 == spec_surface_linvel(*motion, point),
        r.1 == spec_surface_angvel(*motion),
{
    match motion {
        None => (IVec3::zero(), IVec3::zero()),
        Some(m) => {
            let angvel = m.angvel;
            if angvel.is_zero() {
                // A zero angular velocity contributes nothing at any point.
                (m.linvel, angvel)
            } else {
                let rel = point.minus(m.translation);
                proof {
                    lemma_mul_bounds(m.angvel.x as int, rel.x as int, COORD_LIMIT as int, 2 * COORD_LIMIT);
                    lemma_mul_bounds(m.angvel.x as int, rel.y as int, COORD_LIMIT as int, 2 * COORD_LIMIT);
                    lemma_mul_bounds(m.angvel.x as int, rel.z as int, COORD_LIMIT as int, 2 * COORD_LIMIT);
                    lemma_mul_bounds(m.angvel.y as int, rel.x as int, COORD_LIMIT as int, 2 * COORD_LIMIT);
                    lemma_mul_bounds(m.angvel.y as int, rel.y as int, COORD_LIMIT as int, 2 * COORD_LIMIT);
                    lemma_mul_bounds(m.angvel.y as int, rel.z as int, COORD_LIMIT as int, 2 * COORD_LIMIT);
                    lemma_mul_bounds(m.angvel.z as int, rel.x as int, COORD_LIMIT as int, 2 * COORD_LIMIT);
                    lemma_mul_bounds(m.angvel.z as int, rel.y as int, COORD_LIMIT as int, 2 * COORD_LIMIT);
                    lemma_mul_bounds(m.angvel.z as int, rel.z as int, COORD_LIMIT as int, 2 * COORD_LIMIT);
                }
                let spin = angvel.cross(rel);
                let lin = m.linvel.plus(spin);
                (lin, angvel)
            }
        },
    }
}

/// The cast result built from one accepted surface.
pub open spec fn spec_cast_result(s: Surface) -> CastResult {
    CastResult {
        entity: s.entity,
        proximity: s.proximity,
        intersection_point: s.intersection_point,
        normal: s.normal,
        entity_linvel: spec_surface_linvel(s.motion, s.intersection_point),
        entity_angvel: spec_surface_angvel(s.motion),
    }
}

/// What the skip-cast loop produces from position `i` onward, given the ghost
/// platforms already visited: the ghost platforms still to be recorded, and
/// the final grounding output.
///
/// The surfaces are examined nearest first. One beyond the cast range ends
/// the cast with no hit; one the filter rejects is treated as absent; an
/// accepted ghost platform is recorded (when a ghost sensor is listening),
/// marked visited, and skipped past; an accepted solid surface ends the cast
/// as the output. Because proximities are absolute distances from the cast
/// origin, the skip distance of the re-cast never has to appear: a surface is
/// within the remaining range exactly when its proximity is within the whole
/// range.
pub open spec fn spec_cast_from(
    world: Seq<Surface>,
    i: int,
    cast_range: i64,
    dir: IVec3,
    cutoff: i64,
    has_ghost_sensor: bool,
    visited: Seq<u64>,
) -> (Seq<CastResult>, Option<CastResult>)
    decreases world.len() - i,
{
    if i < 0 || i >= world.len() {
        (Seq::empty(), None)
    } else {
        let s = world[i];
        if s.proximity > cast_range {
            (Seq::empty(), None)
        } else if !spec_passes_filter(s, dir, cutoff, has_ghost_sensor, visited) {
            spec_cast_from(world, i + 1, cast_range, dir, cutoff, has_ghost_sensor, visited)
        } else if s.is_ghost {
            let rest = spec_cast_from(
                world,
                i + 1,
                cast_range,
                dir,
                cutoff,
                has_ghost_sensor,
                visited.push(s.entity),
            );
            if has_ghost_sensor {
                (seq![spec_cast_result(s)] + rest.0, rest.1)
            } else {
                rest
            }
        } else {
            (Seq::empty(), Some(spec_cast_result(s)))
        }
    }
}

/// The whole cast sequence over a snapshot of the surfaces along the cast
/// line, nearest first.
pub open spec fn spec_run_cast(
    world: Seq<Surface>,
    cast_range: i64,
    dir: IVec3,
    cutoff: i64,
    has_ghost_sensor: bool,
) -> (Seq<CastResult>, Option<CastResult>) {
    spec_cast_from(world, 0, cast_range, dir, cutoff, has_ghost_sensor, Seq::empty())
}

/// The ghost skip-cast loop.
///
/// `world` is the tick's read-only snapshot of the surfaces the cast line
/// meets within the backend's reach, nearest first. The loop records every
/// accepted ghost platform in order, skips past it, and stops at the first
/// accepted solid surface, at the first surface beyond the cast range, or
/// when the snapshot runs out. A range exhausted by successive ghost skips
/// therefore yields an empty output even though the ghost list is not empty.
pub fn run_cast(
    world: &Vec<Surface>,
    cast_range: i64,
    cast_direction: IVec3,
    cutoff: i64,
    has_ghost_sensor: bool,
) -> (r: CastOutcome)
    requires
        vec_in_range(cast_direction),
        forall|i: int| 0 <= i < world@.len() ==> surface_bounded(#[trigger] world@[i]),
    ensures
        (r.ghosts@, r.output) == spec_run_cast(
            world@,
            cast_range,
            cast_direction,
            cutoff,
            has_ghost_sensor,
        ),
{
    let ghost target = spec_run_cast(world@, cast_range, cast_direction, cutoff, has_ghost_sensor);
    let mut ghosts: Vec<CastResult> = Vec::new();
    let mut visited: Vec<u64> = Vec::new();
    let mut output: Option<CastResult> = None;
    let mut i: usize = 0;
    loop
        invariant_except_break
            i <= world@.len(),
            output is None,
            vec_in_range(cast_direction),
            forall|k: int| 0 <= k < world@.len() ==> surface_bounded(#[trigger] world@[k]),
            ({
                let rest = spec_cast_from(
                    world@,
                    i as int,
                    cast_range,
                    cast_direction,
                    cutoff,
                    has_ghost_sensor,
                    visited@,
                );
                target == (ghosts@ + rest.0, rest.1)
            }),
        ensures
            target == (ghosts@, output),
        decreases world@.len() - i,
    {
        if i >= world.len() {
            proof {
                assert(ghosts@ + Seq::<CastResult>::empty() =~= ghosts@);
            }
            break;
        }
        let s = &world[i];
        if s.proximity > cast_range {
            proof {
                assert(ghosts@ + Seq::<CastResult>::empty() =~= ghosts@);
            }
            break;
        }
        if surface_passes_filter(s, cast_direction, cutoff, has_ghost_sensor, &visited) {
            let (lin, ang) = surface_velocity(&s.motion, s.intersection_point);
            let res = CastResult {
                entity: s.entity,
                proximity: s.proximity,
                intersection_point: s.intersection_point,
                normal: s.normal,
                entity_linvel: lin,
                entity_angvel: ang,
            };
            if s.is_ghost {
                proof {
                    let rest = spec_cast_from(
                        world@,
                        i + 1,
                        cast_range,
                        cast_direction,
                        cutoff,
                        has_ghost_sensor,
                        visited@.push(s.entity),
                    );
                    if has_ghost_sensor {
                        assert(ghosts@ + (seq![res] + rest.0) =~= ghosts@.push(res) + rest.0);
                    }
                }
                if has_ghost_sensor {
                    ghosts.push(res);
                }
                visited.push(s.entity);
                i += 1;
            } else {
                output = Some(res);
                proof {
                    assert(ghosts@ + Seq::<CastResult>::empty() =~= ghosts@);
                }
                break;
            }
        } else {
            i += 1;
        }
    }
    CastOutcome { ghosts, output }
}

/// One character's sensing state for a tick: the direction that was cast
/// along, the ghost platforms skipped past (nearest first), and the grounding
/// output. The ghost list is rebuilt from empty every tick; the output may
/// later be overridden by the fall-through state machine within the same
/// tick, never carried over stale into the next one.
#[derive(Debug)]
pub struct SensorTick {
    pub cast_direction: IVec3,
    pub ghosts: Vec<CastResult>,
    pub output: Option<CastResult>,
}

/// One tick of the proximity sensor for one character.
///
/// A disabled character performs no query at all and keeps its previous
/// sensing state untouched; any other character casts along its gravity
/// direction (or the fixed `down` when gravity is zero) over the tick's
/// snapshot of surfaces.
pub fn update_proximity_sensor(
    config: &SensorConfig,
    toggle: SensingToggle,
    previous: SensorTick,
    gravity: IVec3,
    down: IVec3,
    world: &Vec<Surface>,
    has_ghost_sensor: bool,
) -> (r: SensorTick)
    requires
        vec_in_range(gravity),
        vec_in_range(down),
        forall|i: int| 0 <= i < world@.len() ==> surface_bounded(#[trigger] world@[i]),
    ensures
        !toggle.senses() ==> r == previous,
        toggle.senses() ==> ({
            let dir = if gravity.is_zero_vec() {
                down
            } else {
                gravity
            };
            &&& r.cast_direction == dir
            &&& (r.ghosts@, r.output) == spec_run_cast(
                world@,
                config.cast_range,
                dir,
                config.intersection_match_prevention_cutoff,
                has_ghost_sensor,
            )
        }),
{
    match toggle {
        SensingToggle::Disabled => previous,
        _ => {
            let dir = pick_cast_direction(gravity, down);
            let outcome = run_cast(
                world,
                config.cast_range,
                dir,
                config.intersection_match_prevention_cutoff,
                has_ghost_sensor,
            );
            SensorTick { cast_direction: dir, ghosts: outcome.ghosts, output: outcome.output }
        },
    }
}

/// The first surface at or after position `i` that is within range and
/// passes the filter; the scan stops at the first surface beyond the range.
pub open spec fn spec_first_hit(
    world: Seq<Surface>,
    i: int,
    cast_range: i64,
    dir: IVec3,
    cutoff: i64,
    has_ghost_sensor: bool,
    visited: Seq<u64>,
) -> Option<Surface>
    decreases world.len() - i,
{
    if i < 0 || i >= world.len() {
        None
    } else if world[i].proximity > cast_range {
        None
    } else if spec_passes_filter(world[i], dir, cutoff, has_ghost_sensor, visited) {
        Some(world[i])
    } else {
        spec_first_hit(world, i + 1, cast_range, dir, cutoff, has_ghost_sensor, visited)
    }
}

proof fn lemma_cast_from_no_ghosts(
    world: Seq<Surface>,
    i: int,
    cast_range: i64,
    dir: IVec3,
    cutoff: i64,
    has_ghost_sensor: bool,
    visited: Seq<u64>,
)
    requires
        forall|k: int| 0 <= k < world.len() ==> !(#[trigger] world[k]).is_ghost,
    ensures
        ({
            let (ghosts, output) = spec_cast_from(
                world,
                i,
                cast_range,
                dir,
                cutoff,
                has_ghost_sensor,
                visited,
            );
            &&& ghosts == Seq::<CastResult>::empty()
            &&& output == match spec_first_hit(
                world,
                i,
                cast_range,
                dir,
                cutoff,
                has_ghost_sensor,
                visited,
            ) {
                Some(s) => Some(spec_cast_result(s)),
                None => None::<CastResult>,
            }
        }),
    decreases world.len() - i,
{
    if 0 <= i < world.len() && world[i].proximity <= cast_range && !spec_passes_filter(
        world[i],
        dir,
        cutoff,
        has_ghost_sensor,
        visited,
    ) {
        lemma_cast_from_no_ghosts(world, i + 1, cast_range, dir, cutoff, has_ghost_sensor, visited);
    }
}

/// With no ghost platforms anywhere along the cast line, the ghost list is
/// empty and the output is the single nearest in-range surface that passes
/// the filter, or empty when there is none.
pub proof fn lemma_cast_without_ghost_platforms(
    world: Seq<Surface>,
    cast_range: i64,
    dir: IVec3,
    cutoff: i64,
    has_ghost_sensor: bool,
)
    requires
        forall|k: int| 0 <= k < world.len() ==> !(#[trigger] world[k]).is_ghost,
    ensures
        ({
            let (ghosts, output) = spec_run_cast(world, cast_range, dir, cutoff, has_ghost_sensor);
            &&& ghosts == Seq::<CastResult>::empty()
            &&& output == match spec_first_hit(
                world,
                0,
                cast_range,
                dir,
                cutoff,
                has_ghost_sensor,
                Seq::empty(),
            ) {
                Some(s) => Some(spec_cast_result(s)),
                None => None::<CastResult>,
            }
        }),
{
    lemma_cast_from_no_ghosts(world, 0, cast_range, dir, cutoff, has_ghost_sensor, Seq::empty());
}

/// Sensing is a pure function of the tick's snapshot and configuration: two
/// casts over identical inputs produce identical ghost lists and identical
/// outputs. There is no hidden cross-call state in the sensor.
pub proof fn lemma_cast_deterministic(
    world: Seq<Surface>,
    cast_range: i64,
    dir: IVec3,
    cutoff: i64,
    has_ghost_sensor: bool,
    a: CastOutcome,
    b: CastOutcome,
)
    requires
        (a.ghosts@, a.output) == spec_run_cast(world, cast_range, dir, cutoff, has_ghost_sensor),
        (b.ghosts@, b.output) == spec_run_cast(world, cast_range, dir, cutoff, has_ghost_sensor),
    ensures
        a.ghosts@ == b.ghosts@,
        a.output == b.output,
{
}

/// A contact manifold whose normal's dot product with the cast direction
/// exactly equals the cutoff does not reject the candidate: rejection
/// requires the dot product to strictly exceed the cutoff.
pub proof fn lemma_cutoff_boundary_accepts(
    s: Surface,
    dir: IVec3,
    cutoff: i64,
    has_ghost_sensor: bool,
    visited: Seq<u64>,
)
    requires
        s.solver_compatible || (has_ghost_sensor && s.is_ghost && !visited.contains(s.entity)),
        !s.is_sensor,
        forall|i: int|
            0 <= i < s.contact_normals@.len() ==> dot_math(#[trigger] s.contact_normals@[i], dir)
                == cutoff,
    ensures
        spec_passes_filter(s, dir, cutoff, has_ghost_sensor, visited),
{
}

proof fn lemma_cast_from_output_is_solid(
    world: Seq<Surface>,
    i: int,
    cast_range: i64,
    dir: IVec3,
    cutoff: i64,
    has_ghost_sensor: bool,
    visited: Seq<u64>,
)
    ensures
        match spec_cast_from(world, i, cast_range, dir, cutoff, has_ghost_sensor, visited).1 {
            Some(o) => exists|k: int|
                i <= k < world.len() && !(#[trigger] world[k]).is_ghost && world[k].proximity
                    <= cast_range && o == spec_cast_result(world[k]),
            None => true,
        },
    decreases world.len() - i,
{
    if 0 <= i < world.len() && world[i].proximity <= cast_range {
        let s = world[i];
        if !spec_passes_filter(s, dir, cutoff, has_ghost_sensor, visited) {
            lemma_cast_from_output_is_solid(
                world,
                i + 1,
                cast_range,
                dir,
                cutoff,
                has_ghost_sensor,
                visited,
            );
        } else if s.is_ghost {
            lemma_cast_from_output_is_solid(
                world,
                i + 1,
                cast_range,
                dir,
                cutoff,
                has_ghost_sensor,
                visited.push(s.entity),
            );
        }
    }
}

/// A ghost platform never becomes the cast's own output: whenever the cast
/// sequence ends with a hit, that hit is a surface within range that is not
/// a ghost platform. Only the fall-through state machine may later present a
/// ghost platform as ground, by copying it from the ghost list.
pub proof fn lemma_cast_output_is_never_a_ghost(
    world: Seq<Surface>,
    cast_range: i64,
    dir: IVec3,
    cutoff: i64,
    has_ghost_sensor: bool,
)
    ensures
        match spec_run_cast(world, cast_range, dir, cutoff, has_ghost_sensor).1 {
            Some(o) => exists|k: int|
                0 <= k < world.len() && !(#[trigger] world[k]).is_ghost && world[k].proximity
                    <= cast_range && o == spec_cast_result(world[k]),
            None => true,
        },
{
    lemma_cast_from_output_is_solid(world, 0, cast_range, dir, cutoff, has_ghost_sensor, Seq::empty());
}

/// The ghost platforms among `world[i..j]` that the filter accepts on first
/// sight (nothing visited yet), in order, as cast results.
pub open spec fn spec_passing_ghosts(
    world: Seq<Surface>,
    i: int,
    j: int,
    dir: IVec3,
    cutoff: i64,
) -> Seq<CastResult>
    decreases j - i,
{
    if i < 0 || i >= j {
        Seq::empty()
    } else if world[i].is_ghost && spec_passes_filter(world[i], dir, cutoff, true, Seq::empty()) {
        seq![spec_cast_result(world[i])] + spec_passing_ghosts(world, i + 1, j, dir, cutoff)
    } else {
        spec_passing_ghosts(world, i + 1, j, dir, cutoff)
    }
}

proof fn lemma_cast_from_ghosts_then_solid(
    world: Seq<Surface>,
    i: int,
    cast_range: i64,
    dir: IVec3,
    cutoff: i64,
    visited: Seq<u64>,
    j: int,
)
    requires
        0 <= i <= j < world.len(),
        forall|a: int, b: int|
            #![trigger world[a].entity, world[b].entity]
            i <= a < b < world.len() ==> world[a].entity != world[b].entity,
        forall|a: int, b: int|
            #![trigger world[a].proximity, world[b].proximity]
            i <= a < b <= j ==> world[a].proximity < world[b].proximity,
        forall|a: int| i <= a < world.len() ==> !visited.contains((#[trigger] world[a]).entity),
        !world[j].is_ghost,
        world[j].proximity <= cast_range,
        spec_passes_filter(world[j], dir, cutoff, true, Seq::empty()),
        forall|k: int|
            i <= k < j ==> spec_passes_filter(#[trigger] world[k], dir, cutoff, true, Seq::empty())
                ==> world[k].is_ghost,
    ensures
        ({
            let (ghosts, output) = spec_cast_from(world, i, cast_range, dir, cutoff, true, visited);
            &&& output == Some(spec_cast_result(world[j]))
            &&& ghosts == spec_passing_ghosts(world, i, j, dir, cutoff)
        }),
    decreases j - i,
{
    broadcast use vstd::seq_lib::lemma_seq_contains_after_push;

    let s = world[i];
    if i == j {
        // The solid surface itself; its filter result does not depend on the
        // visited set because it is not a ghost platform.
        assert(spec_passes_filter(s, dir, cutoff, true, visited));
    } else {
        assert(s.proximity < world[j].proximity);
        if spec_passes_filter(s, dir, cutoff, true, visited) {
            // Accepted before the solid surface, hence a ghost platform.
            assert(spec_passes_filter(s, dir, cutoff, true, Seq::empty()));
            assert(s.is_ghost);
            lemma_cast_from_ghosts_then_solid(
                world,
                i + 1,
                cast_range,
                dir,
                cutoff,
                visited.push(s.entity),
                j,
            );
            let rest = spec_cast_from(
                world,
                i + 1,
                cast_range,
                dir,
                cutoff,
                true,
                visited.push(s.entity),
            );
            assert(spec_cast_from(world, i, cast_range, dir, cutoff, true, visited).0 == seq![
                spec_cast_result(s),
            ] + rest.0);
        } else {
            // Rejected with the current visited set. The visited set is
            // disjoint from the remaining entities, so the rejection does not
            // come from it, and the surface is rejected on first sight too.
            assert(!spec_passes_filter(s, dir, cutoff, true, Seq::empty()));
            lemma_cast_from_ghosts_then_solid(world, i + 1, cast_range, dir, cutoff, visited, j);
        }
    }
}

/// Every entry of [`spec_passing_ghosts`] keeps the order of the snapshot:
/// over a strictly sorted snapshot the recorded proximities strictly
/// increase, and each is at least the proximity at the start of the scan.
pub proof fn lemma_passing_ghosts_sorted(
    world: Seq<Surface>,
    i: int,
    j: int,
    dir: IVec3,
    cutoff: i64,
)
    requires
        0 <= i,
        j <= world.len(),
        forall|a: int, b: int|
            #![trigger world[a].proximity, world[b].proximity]
            i <= a < b < j ==> world[a].proximity < world[b].proximity,
    ensures
        ({
            let g = spec_passing_ghosts(world, i, j, dir, cutoff);
            &&& forall|a: int, b: int|
                #![trigger g[a].proximity, g[b].proximity]
                0 <= a < b < g.len() ==> g[a].proximity < g[b].proximity
            &&& i < j ==> forall|a: int|
                0 <= a < g.len() ==> world[i].proximity <= (#[trigger] g[a]).proximity
        }),
    decreases j - i,
{
    if i < j {
        lemma_passing_ghosts_sorted(world, i + 1, j, dir, cutoff);
        let g = spec_passing_ghosts(world, i, j, dir, cutoff);
        let tail = spec_passing_ghosts(world, i + 1, j, dir, cutoff);
        if world[i].is_ghost && spec_passes_filter(world[i], dir, cutoff, true, Seq::empty()) {
            assert(g == seq![spec_cast_result(world[i])] + tail);
            assert(g[0] == spec_cast_result(world[i]));
            assert(forall|a: int| 0 <= a < tail.len() ==> g[a + 1] == tail[a]);
        }
    }
}

proof fn lemma_cast_from_only_ghosts(
    world: Seq<Surface>,
    i: int,
    cast_range: i64,
    dir: IVec3,
    cutoff: i64,
    visited: Seq<u64>,
    j: int,
)
    requires
        0 <= i <= j <= world.len(),
        forall|a: int, b: int|
            #![trigger world[a].entity, world[b].entity]
            i <= a < b < world.len() ==> world[a].entity != world[b].entity,
        forall|a: int| i <= a < world.len() ==> !visited.contains((#[trigger] world[a]).entity),
        forall|k: int| i <= k < j ==> (#[trigger] world[k]).proximity <= cast_range,
        j == world.len() || world[j].proximity > cast_range,
        forall|k: int|
            i <= k < j ==> spec_passes_filter(#[trigger] world[k], dir, cutoff, true, Seq::empty())
                ==> world[k].is_ghost,
    ensures
        ({
            let (ghosts, output) = spec_cast_from(world, i, cast_range, dir, cutoff, true, visited);
            &&& output is None
            &&& ghosts == spec_passing_ghosts(world, i, j, dir, cutoff)
        }),
    decreases j - i,
{
    if i < j {
        let s = world[i];
        if spec_passes_filter(s, dir, cutoff, true, visited) {
            assert(spec_passes_filter(s, dir, cutoff, true, Seq::empty()));
            assert(s.is_ghost);
            lemma_cast_from_only_ghosts(
                world,
                i + 1,
                cast_range,
                dir,
                cutoff,
                visited.push(s.entity),
                j,
            );
        } else {
            assert(!spec_passes_filter(s, dir, cutoff, true, Seq::empty()));
            lemma_cast_from_only_ghosts(world, i + 1, cast_range, dir, cutoff, visited, j);
        }
    }
}

/// A range exhausted by successive ghost skips yields an empty output even
/// though the ghost list is not: when every accepted surface up to the stop
/// position `j` (the first surface beyond the range, or the end of the
/// snapshot) is a ghost platform, the cast grounds on nothing — the character
/// is in free space below all detected ghost platforms — and the ghost list
/// still holds every accepted ghost in order.
pub proof fn lemma_cast_range_exhausted_by_ghosts(
    world: Seq<Surface>,
    cast_range: i64,
    dir: IVec3,
    cutoff: i64,
    j: int,
)
    requires
        0 <= j <= world.len(),
        forall|a: int, b: int|
            #![trigger world[a].entity, world[b].entity]
            0 <= a < b < world.len() ==> world[a].entity != world[b].entity,
        forall|k: int| 0 <= k < j ==> (#[trigger] world[k]).proximity <= cast_range,
        j == world.len() || world[j].proximity > cast_range,
        forall|k: int|
            0 <= k < j ==> spec_passes_filter(#[trigger] world[k], dir, cutoff, true, Seq::empty())
                ==> world[k].is_ghost,
    ensures
        ({
            let (ghosts, output) = spec_run_cast(world, cast_range, dir, cutoff, true);
            &&& output is None
            &&& ghosts == spec_passing_ghosts(world, 0, j, dir, cutoff)
        }),
{
    lemma_cast_from_only_ghosts(world, 0, cast_range, dir, cutoff, Seq::empty(), j);
}

/// A cast that meets a run of accepted ghost platforms before an accepted
/// solid surface within range records exactly those ghosts, nearest first
/// with strictly increasing proximities, and outputs the solid surface.
///
/// `world` is a genuine cast line: proximities strictly increase and each
/// entity appears once. `j` points at the first surface that the filter
/// accepts and that is not a ghost platform.
pub proof fn lemma_cast_ghosts_then_solid(
    world: Seq<Surface>,
    cast_range: i64,
    dir: IVec3,
    cutoff: i64,
    j: int,
)
    requires
        0 <= j < world.len(),
        forall|a: int, b: int|
            #![trigger world[a].entity, world[b].entity]
            0 <= a < b < world.len() ==> world[a].entity != world[b].entity,
        forall|a: int, b: int|
            #![trigger world[a].proximity, world[b].proximity]
            0 <= a < b < world.len() ==> world[a].proximity < world[b].proximity,
        !world[j].is_ghost,
        world[j].proximity <= cast_range,
        spec_passes_filter(world[j], dir, cutoff, true, Seq::empty()),
        forall|k: int|
            0 <= k < j ==> spec_passes_filter(#[trigger] world[k], dir, cutoff, true, Seq::empty())
                ==> world[k].is_ghost,
    ensures
        ({
            let (ghosts, output) = spec_run_cast(world, cast_range, dir, cutoff, true);
            &&& output == Some(spec_cast_result(world[j]))
            &&& ghosts == spec_passing_ghosts(world, 0, j, dir, cutoff)
            &&& forall|a: int, b: int|
                #![trigger ghosts[a].proximity, ghosts[b].proximity]
                0 <= a < b < ghosts.len() ==> ghosts[a].proximity < ghosts[b].proximity
        }),
{
    lemma_cast_from_ghosts_then_solid(world, 0, cast_range, dir, cutoff, Seq::empty(), j);
    lemma_passing_ghosts_sorted(world, 0, j, dir, cutoff);
}

} // verus!
