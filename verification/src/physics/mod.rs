//! The discrete side of the physics simulation: which body, collider and
//! spring joint belongs to which node and edge, and how that changes.
//!
//! The rigid-body engine computes in floating point. This module never
//! does: it owns the engine's sets, tracks handles, and decides which pairs
//! of nodes interact. Numeric quantities are formed by the caller and reach
//! the engine inside values of the engine's own types.

pub mod body_manager;
pub mod engine;
pub mod forces;
pub mod handles;
pub mod joint_manager;
pub mod world;

pub use body_manager::{BodyManager, BodyParts};
pub use joint_manager::JointManager;
pub use world::{PhysicsWorld, SimulationFlags};
pub use forces::{ForceApplicator, ForceCalculator, RepulsionPair};
pub use handles::{BodyHandle, BodyKind, ColliderHandle, JointHandle};
