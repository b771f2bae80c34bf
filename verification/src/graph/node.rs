//! Node identity and node content.

use vstd::prelude::*;

verus! {

/// Stable identity of a node. An id is never reused while its node is alive.
#[derive(Debug, Clone, Copy, PartialEq, Eq, Hash, Structural)]
pub struct NodeId(pub u32);

/// What a node displays. A node that carries `Author` content may serve as
/// the anchor of the graph.
#[derive(Debug, Clone, PartialEq)]
pub enum NodeContent {
    Text(String),
    Author { name: String, image_url: String, bio: Option<String> },
}

impl NodeContent {
    /// Whether this content bears an author identity.
    pub fn is_author(&self) -> (author: bool)
        ensures
            author == (*self is Author),
    {
        match self {
            NodeContent::Text(_) => false,
            NodeContent::Author { .. } => true,
        }
    }
}

} // verus!
