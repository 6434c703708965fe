//! Grounding and one-way-platform sensing for physics-driven characters.
//!
//! The crate decides, once per simulation tick, what a character is standing
//! on. A proximity sensor casts along the gravity direction and skips over
//! "ghost" (pass-through) platforms, collecting them in order until a solid
//! surface is found or the range runs out; a fall-through state machine then
//! consumes that ghost list together with the crouch input and decides whether
//! a ghost platform is presented as solid ground, whether the character keeps
//! falling through one, and whether it should crouch in place.
//!
//! All geometry is integer-valued: the caller maps world units to integers in
//! a fixed scale of its choice and performs the actual backend queries (ray
//! and shape casts, collider lookups); this crate holds the decision logic
//! over those plain values.

pub mod fall_through;
pub mod math;
pub mod motor;
pub mod sensor;
pub mod tracker;
