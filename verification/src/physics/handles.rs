//! Plain handles for the entries of the engine's sets.

use vstd::prelude::*;

verus! {

/// Names one rigid body of a body set: a slot and the generation of its
/// occupant.
#[derive(Debug, Clone, Copy, PartialEq, Eq, Hash, Structural)]
pub struct BodyHandle {
    pub index: u32,
    pub generation: u32,
}

/// Names one collider of a collider set.
#[derive(Debug, Clone, Copy, PartialEq, Eq, Hash, Structural)]
pub struct ColliderHandle {
    pub index: u32,
    pub generation: u32,
}

/// Names one joint of a joint set.
#[derive(Debug, Clone, Copy, PartialEq, Eq, Hash, Structural)]
pub struct JointHandle {
    pub index: u32,
    pub generation: u32,
}

/// How the engine moves a body.
#[derive(Debug, Clone, Copy, PartialEq, Eq, Hash, Structural)]
pub enum BodyKind {
    /// Moved by forces, impulses, contacts and joints.
    Dynamic,
    /// Never moves.
    Fixed,
    /// Moved only by positions set from outside.
    KinematicPositionBased,
    /// Moved only by velocities set from outside.
    KinematicVelocityBased,
}

} // verus!
