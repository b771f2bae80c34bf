//! The node graph that the layout engine positions: identities, what each
//! node shows, and the registry of nodes and edges.

pub mod builder;
pub mod node;
pub mod registry;

pub use builder::NodeRegistryBuilder;
pub use node::{NodeContent, NodeId};
pub use registry::{NodeRecord, NodeRegistry};
