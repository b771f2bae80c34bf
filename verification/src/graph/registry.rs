//! The registry of nodes and edges that the layout engine reads and updates.
//!
//! The registry is generic in the type `P` of a node's position. It stores
//! and hands back positions without ever looking inside them.

use vstd::prelude::*;
use crate::config::NodeConfig;
use crate::graph::node::{NodeContent, NodeId};
use crate::text::str_eq;

verus! {

/// Everything the registry keeps about one node.
#[derive(Debug, Clone)]
pub struct NodeRecord<P> {
    pub id: NodeId,
    pub position: P,
    pub radius: i32,
    pub content: NodeContent,
    pub importance: Option<u8>,
    pub inbound_count: usize,
    pub category: Option<String>,
}

/// The radius assumed for a node that the registry does not know.
pub const FALLBACK_RADIUS: i32 = 30;

/// Nodes in insertion order, the edges between them, and the anchor.
#[derive(Debug, Clone)]
pub struct NodeRegistry<P> {
    nodes: Vec<NodeRecord<P>>,
    edges: Vec<(NodeId, NodeId)>,
    anchor: Option<NodeId>,
    config: NodeConfig,
    connection_lines_visible: bool,
}

/// The two pairs name the same unordered edge.
pub open spec fn same_edge(a: (NodeId, NodeId), b: (NodeId, NodeId)) -> bool {
    a == b || (a.0 == b.1 && a.1 == b.0)
}

/// The record belongs to the category with these characters.
pub open spec fn in_category<P>(record: NodeRecord<P>, category: Seq<char>) -> bool {
    record.category matches Some(name) && name@ == category
}

/// The ids of the records of a category, in the order of the records.
pub open spec fn ids_in_category<P>(records: Seq<NodeRecord<P>>, category: Seq<char>) -> Seq<
    NodeId,
>
    decreases records.len(),
{
    if records.len() == 0 {
        Seq::empty()
    } else {
        let earlier = ids_in_category(records.drop_last(), category);
        if in_category(records.last(), category) {
            earlier.push(records.last().id)
        } else {
            earlier
        }
    }
}

/// The categories that occur among the records, each once, in the order in
/// which they first occur.
pub open spec fn distinct_categories<P>(records: Seq<NodeRecord<P>>) -> Seq<Seq<char>>
    decreases records.len(),
{
    if records.len() == 0 {
        Seq::empty()
    } else {
        let earlier = distinct_categories(records.drop_last());
        match records.last().category {
            Some(name) => if earlier.contains(name@) {
                earlier
            } else {
                earlier.push(name@)
            },
            None => earlier,
        }
    }
}

/// The index of the record with the given id among the records.
pub open spec fn index_of_id<P>(records: Seq<NodeRecord<P>>, id: NodeId) -> int {
    choose|i: int| 0 <= i < records.len() && #[trigger] records[i].id == id
}

/// Some record has the given id.
pub open spec fn has_id<P>(records: Seq<NodeRecord<P>>, id: NodeId) -> bool {
    exists|i: int| 0 <= i < records.len() && #[trigger] records[i].id == id
}

impl<P> NodeRegistry<P> {
    /// The node records, in insertion order.
    pub closed spec fn nodes(&self) -> Seq<NodeRecord<P>> {
        self.nodes@
    }

    /// The edges, in insertion order.
    pub closed spec fn edges(&self) -> Seq<(NodeId, NodeId)> {
        self.edges@
    }

    /// The anchor node, if the registry has one.
    pub closed spec fn anchor(&self) -> Option<NodeId> {
        self.anchor
    }

    /// The sizing policy that bounds every radius.
    pub closed spec fn config(&self) -> NodeConfig {
        self.config
    }

    /// Whether connection lines are to be drawn.
    pub closed spec fn lines_visible(&self) -> bool {
        self.connection_lines_visible
    }

    /// The node ids, in insertion order.
    pub open spec fn ids(&self) -> Seq<NodeId> {
        Seq::new(self.nodes().len(), |i: int| self.nodes()[i].id)
    }

    /// The registry holds a node with this id.
    pub open spec fn contains(&self, id: NodeId) -> bool {
        has_id(self.nodes(), id)
    }

    /// Where the node with this id stands in insertion order.
    pub open spec fn position_of(&self, id: NodeId) -> int {
        index_of_id(self.nodes(), id)
    }

    /// The record of the node with this id.
    pub open spec fn record(&self, id: NodeId) -> NodeRecord<P> {
        self.nodes()[self.position_of(id)]
    }

    /// The radius used for `id`: the node's own, or the fallback for an
    /// unknown node.
    pub open spec fn radius_or_fallback(&self, id: NodeId) -> int {
        if self.contains(id) {
            self.record(id).radius as int
        } else {
            FALLBACK_RADIUS as int
        }
    }

    /// The registry has an edge between `a` and `b`, in either direction.
    pub open spec fn has_edge(&self, a: NodeId, b: NodeId) -> bool {
        exists|k: int| 0 <= k < self.edges().len() && same_edge(#[trigger] self.edges()[k], (a, b))
    }

    /// The invariant of the registry: ids are unique, every radius lies
    /// within the configured bounds, every edge joins two different known
    /// nodes and occurs once, and the anchor is a known author node.
    pub open spec fn wf(&self) -> bool {
        &&& self.config().bounds_ordered()
        &&& forall|i: int, j: int|
            0 <= i < j < self.nodes().len() ==> (#[trigger] self.nodes()[i]).id != (
            #[trigger] self.nodes()[j]).id
        &&& forall|i: int|
            0 <= i < self.nodes().len() ==> self.config().min_node_radius <= (
            #[trigger] self.nodes()[i]).radius <= self.config().max_node_radius
        &&& forall|k: int|
            0 <= k < self.edges().len() ==> {
                let e = #[trigger] self.edges()[k];
                self.contains(e.0) && self.contains(e.1) && e.0 != e.1
            }
        &&& forall|k: int, m: int|
            0 <= k < m < self.edges().len() ==> !same_edge(
                #[trigger] self.edges()[k],
                #[trigger] self.edges()[m],
            )
        &&& match self.anchor() {
            Some(a) => self.contains(a) && self.record(a).content is Author,
            None => true,
        }
    }

    /// In a well-formed registry an id that stands at index `i` has
    /// `position_of` equal to `i`.
    pub proof fn lemma_position_unique(&self, i: int)
        requires
            self.wf(),
            0 <= i < self.nodes().len(),
        ensures
            self.contains(self.nodes()[i].id),
            self.position_of(self.nodes()[i].id) == i,
            self.record(self.nodes()[i].id) == self.nodes()[i],
    {
        let id = self.nodes()[i].id;
        let p = self.position_of(id);
        assert(0 <= p < self.nodes().len() && self.nodes()[p].id == id);
        if p < i {
            assert(self.nodes()[p].id != self.nodes()[i].id);
        } else if i < p {
            assert(self.nodes()[i].id != self.nodes()[p].id);
        }
    }

    /// Where ids are unique, the id that stands at index `i` has
    /// `position_of` equal to `i`.
    pub proof fn lemma_position_of(&self, i: int)
        requires
            forall|a: int, b: int|
                0 <= a < b < self.nodes().len() ==> (#[trigger] self.nodes()[a]).id != (
                #[trigger] self.nodes()[b]).id,
            0 <= i < self.nodes().len(),
        ensures
            self.contains(self.nodes()[i].id),
            self.position_of(self.nodes()[i].id) == i,
            self.record(self.nodes()[i].id) == self.nodes()[i],
    {
        let id = self.nodes()[i].id;
        let p = self.position_of(id);
        assert(0 <= p < self.nodes().len() && self.nodes()[p].id == id);
        if p < i {
            assert(self.nodes()[p].id != self.nodes()[i].id);
        } else if i < p {
            assert(self.nodes()[i].id != self.nodes()[p].id);
        }
    }

    /// A registry whose records carry the same ids as this one's, with
    /// radii within bounds and the same edges, anchor content and policy,
    /// is well formed if this one is.
    proof fn lemma_same_ids(&self, after: Self)
        requires
            self.wf(),
            after.nodes().len() == self.nodes().len(),
            forall|i: int|
                0 <= i < self.nodes().len() ==> (#[trigger] after.nodes()[i]).id
                    == self.nodes()[i].id,
            forall|i: int|
                0 <= i < self.nodes().len() ==> ((#[trigger] after.nodes()[i]).content is Author)
                    == (self.nodes()[i].content is Author),
            forall|i: int|
                0 <= i < self.nodes().len() ==> after.config().min_node_radius <= (
                #[trigger] after.nodes()[i]).radius <= after.config().max_node_radius,
            after.edges() == self.edges(),
            after.anchor() == self.anchor(),
            after.config() == self.config(),
        ensures
            after.wf(),
            forall|id: NodeId| self.contains(id) == after.contains(id),
            forall|id: NodeId|
                self.contains(id) ==> self.position_of(id) == after.position_of(id),
    {
        assert forall|id: NodeId| self.contains(id) == after.contains(id) by {
            if self.contains(id) {
                let i = self.position_of(id);
                assert(after.nodes()[i].id == id);
            }
            if after.contains(id) {
                let i = after.position_of(id);
                assert(self.nodes()[i].id == id);
            }
        }
        assert forall|id: NodeId| self.contains(id) implies self.position_of(id)
            == after.position_of(id) by {
            let i = self.position_of(id);
            assert(after.nodes()[i].id == id);
            after.lemma_position_of(i);
        }
        assert forall|k: int| 0 <= k < after.edges().len() implies {
            let e = #[trigger] after.edges()[k];
            after.contains(e.0) && after.contains(e.1) && e.0 != e.1
        } by {
            let e = self.edges()[k];
            assert(self.contains(e.0) && self.contains(e.1));
        }
    }

    /// An empty registry with the default sizing policy.
    pub fn new() -> (registry: Self)
        ensures
            registry.wf(),
            registry.nodes().len() == 0,
            registry.edges().len() == 0,
            registry.anchor() is None,
            registry.config() == NodeConfig::defaults(),
            !registry.lines_visible(),
    {
        NodeRegistry {
            nodes: Vec::new(),
            edges: Vec::new(),
            anchor: None,
            config: NodeConfig::new(),
            connection_lines_visible: false,
        }
    }

    /// An empty registry with the given sizing policy.
    pub fn with_config(config: NodeConfig) -> (registry: Self)
        requires
            config.bounds_ordered(),
        ensures
            registry.wf(),
            registry.nodes().len() == 0,
            registry.edges().len() == 0,
            registry.anchor() is None,
            registry.config() == config,
            !registry.lines_visible(),
    {
        NodeRegistry {
            nodes: Vec::new(),
            edges: Vec::new(),
            anchor: None,
            config,
            connection_lines_visible: false,
        }
    }

    /// The index of the node with this id.
    pub fn find(&self, id: NodeId) -> (found: Option<usize>)
        requires
            self.wf(),
        ensures
            found is Some <==> self.contains(id),
            found matches Some(i) ==> i == self.position_of(id) && i < self.nodes().len()
                && self.nodes()[i as int].id == id,
    {
        let mut i: usize = 0;
        while i < self.nodes.len()
            invariant
                i <= self.nodes.len(),
                forall|j: int| 0 <= j < i ==> (#[trigger] self.nodes()[j]).id != id,
                self.wf(),
            decreases self.nodes.len() - i,
        {
            if self.nodes[i].id == id {
                proof {
                    self.lemma_position_unique(i as int);
                }
                return Some(i);
            }
            i += 1;
        }
        None
    }

    /// Adds a node. An id that the registry already holds is left as it is
    /// and `false` is returned. The radius is limited to the configured
    /// bounds. The first author node added becomes the anchor.
    pub fn add_node(&mut self, id: NodeId, position: P, base_radius: i32, content: NodeContent) -> (added: bool)
        requires
            old(self).wf(),
        ensures
            final(self).wf(),
            added == !old(self).contains(id),
            final(self).edges() == old(self).edges(),
            final(self).config() == old(self).config(),
            final(self).lines_visible() == old(self).lines_visible(),
            !added ==> final(self).nodes() == old(self).nodes() && final(self).anchor() == old(self).anchor(),
            added ==> final(self).nodes() == old(self).nodes().push(
                (NodeRecord {
                    id,
                    position,
                    radius: old(self).config().clamped(base_radius) as i32,
                    content,
                    importance: None,
                    inbound_count: 0,
                    category: None,
                }),
            ),
            added ==> final(self).anchor() == (if old(self).anchor() is None && content is Author {
                Some(id)
            } else {
                old(self).anchor()
            }),
    {
        if self.find(id).is_some() {
            return false;
        }
        let radius = self.config.clamp_radius(base_radius);
        let author = content.is_author();
        let ghost before = *self;
        self.nodes.push(
            NodeRecord {
                id,
                position,
                radius,
                content,
                importance: None,
                inbound_count: 0,
                category: None,
            },
        );
        if author && self.anchor.is_none() {
            self.anchor = Some(id);
        }
        proof {
            let n = before.nodes().len() as int;
            assert(self.nodes()[n].id == id);
            assert forall|k: int| 0 <= k < self.edges().len() implies {
                let e = #[trigger] self.edges()[k];
                self.contains(e.0) && self.contains(e.1) && e.0 != e.1
            } by {
                assert(self.edges() == before.edges());
                let e = before.edges()[k];
                assert(before.contains(e.0) && before.contains(e.1));
                let i0 = before.position_of(e.0);
                let i1 = before.position_of(e.1);
                assert(self.nodes()[i0].id == e.0);
                assert(self.nodes()[i1].id == e.1);
            }
            match self.anchor() {
                Some(a) => {
                    if before.anchor() is None {
                        assert(a == id);
                        self.lemma_position_of(n);
                    } else {
                        let ia = before.position_of(a);
                        assert(before.contains(a));
                        assert(self.nodes()[ia].id == a);
                        self.lemma_position_of(ia);
                    }
                },
                None => {},
            }
        }
        true
    }

    /// Replaces the radius of a known node by `new_radius` limited to the
    /// configured bounds. An unknown id changes nothing.
    pub fn update_node_radius(&mut self, id: NodeId, new_radius: i32)
        requires
            old(self).wf(),
        ensures
            final(self).wf(),
            final(self).edges() == old(self).edges(),
            final(self).anchor() == old(self).anchor(),
            final(self).config() == old(self).config(),
            final(self).lines_visible() == old(self).lines_visible(),
            !old(self).contains(id) ==> final(self).nodes() == old(self).nodes(),
            old(self).contains(id) ==> final(self).nodes() == old(self).nodes().update(
                old(self).position_of(id),
                (NodeRecord {
                    radius: old(self).config().clamped(new_radius) as i32,
                    ..old(self).record(id)
                }),
            ),
    {
        if let Some(i) = self.find(id) {
            let radius = self.config.clamp_radius(new_radius);
            let ghost before = *self;
            self.nodes[i].radius = radius;
            proof {
                before.lemma_same_ids(*self);
            }
        }
    }

    /// Moves a known node to `position`. An unknown id changes nothing.
    pub fn set_position(&mut self, id: NodeId, position: P)
        requires
            old(self).wf(),
        ensures
            final(self).wf(),
            final(self).edges() == old(self).edges(),
            final(self).anchor() == old(self).anchor(),
            final(self).config() == old(self).config(),
            final(self).lines_visible() == old(self).lines_visible(),
            !old(self).contains(id) ==> final(self).nodes() == old(self).nodes(),
            old(self).contains(id) ==> final(self).nodes() == old(self).nodes().update(
                old(self).position_of(id),
                (NodeRecord { position, ..old(self).record(id) }),
            ),
    {
        if let Some(i) = self.find(id) {
            let ghost before = *self;
            self.nodes[i].position = position;
            proof {
                before.lemma_same_ids(*self);
            }
        }
    }

    /// Records the importance of a known node. An unknown id changes nothing.
    pub fn set_node_importance(&mut self, id: NodeId, importance: u8)
        requires
            old(self).wf(),
        ensures
            final(self).wf(),
            final(self).edges() == old(self).edges(),
            final(self).anchor() == old(self).anchor(),
            final(self).config() == old(self).config(),
            final(self).lines_visible() == old(self).lines_visible(),
            !old(self).contains(id) ==> final(self).nodes() == old(self).nodes(),
            old(self).contains(id) ==> final(self).nodes() == old(self).nodes().update(
                old(self).position_of(id),
                (NodeRecord { importance: Some(importance), ..old(self).record(id) }),
            ),
    {
        if let Some(i) = self.find(id) {
            let ghost before = *self;
            self.nodes[i].importance = Some(importance);
            proof {
                before.lemma_same_ids(*self);
            }
        }
    }

    /// Records the inbound link count of a known node. An unknown id changes
    /// nothing.
    pub fn set_node_inbound_count(&mut self, id: NodeId, inbound_count: usize)
        requires
            old(self).wf(),
        ensures
            final(self).wf(),
            final(self).edges() == old(self).edges(),
            final(self).anchor() == old(self).anchor(),
            final(self).config() == old(self).config(),
            final(self).lines_visible() == old(self).lines_visible(),
            !old(self).contains(id) ==> final(self).nodes() == old(self).nodes(),
            old(self).contains(id) ==> final(self).nodes() == old(self).nodes().update(
                old(self).position_of(id),
                (NodeRecord { inbound_count, ..old(self).record(id) }),
            ),
    {
        if let Some(i) = self.find(id) {
            let ghost before = *self;
            self.nodes[i].inbound_count = inbound_count;
            proof {
                before.lemma_same_ids(*self);
            }
        }
    }

    /// Records the category of a known node. An unknown id changes nothing.
    pub fn set_node_category(&mut self, id: NodeId, category: Option<String>)
        requires
            old(self).wf(),
        ensures
            final(self).wf(),
            final(self).edges() == old(self).edges(),
            final(self).anchor() == old(self).anchor(),
            final(self).config() == old(self).config(),
            final(self).lines_visible() == old(self).lines_visible(),
            !old(self).contains(id) ==> final(self).nodes() == old(self).nodes(),
            old(self).contains(id) ==> final(self).nodes() == old(self).nodes().update(
                old(self).position_of(id),
                (NodeRecord { category, ..old(self).record(id) }),
            ),
    {
        if let Some(i) = self.find(id) {
            let ghost before = *self;
            self.nodes[i].category = category;
            proof {
                before.lemma_same_ids(*self);
            }
        }
    }

    /// Sets whether connection lines are to be drawn.
    pub fn set_connection_line_visibility(&mut self, visible: bool)
        requires
            old(self).wf(),
        ensures
            final(self).wf(),
            final(self).lines_visible() == visible,
            final(self).nodes() == old(self).nodes(),
            final(self).edges() == old(self).edges(),
            final(self).anchor() == old(self).anchor(),
            final(self).config() == old(self).config(),
    {
        let ghost before = *self;
        self.connection_lines_visible = visible;
        proof {
            before.lemma_same_ids(*self);
        }
    }

    /// Whether connection lines are to be drawn.
    pub fn connection_lines_visible(&self) -> (visible: bool)
        ensures
            visible == self.lines_visible(),
    {
        self.connection_lines_visible
    }

    /// The sizing policy of this registry.
    pub fn node_config(&self) -> (config: NodeConfig)
        ensures
            config == self.config(),
    {
        self.config
    }

    /// The number of nodes.
    pub fn node_count(&self) -> (count: usize)
        ensures
            count == self.nodes().len(),
    {
        self.nodes.len()
    }

    /// The number of edges.
    pub fn edge_count(&self) -> (count: usize)
        ensures
            count == self.edges().len(),
    {
        self.edges.len()
    }

    /// The record at index `i` of the insertion order.
    pub fn node_at(&self, i: usize) -> (record: &NodeRecord<P>)
        requires
            i < self.nodes().len(),
        ensures
            *record == self.nodes()[i as int],
    {
        &self.nodes[i]
    }

    /// The edge at index `k` of the insertion order.
    pub fn edge_at(&self, k: usize) -> (edge: (NodeId, NodeId))
        requires
            k < self.edges().len(),
        ensures
            edge == self.edges()[k as int],
    {
        self.edges[k]
    }

    /// The record of the node with this id.
    pub fn get(&self, id: NodeId) -> (found: Option<&NodeRecord<P>>)
        requires
            self.wf(),
        ensures
            found is Some <==> self.contains(id),
            found matches Some(record) ==> *record == self.record(id),
    {
        match self.find(id) {
            Some(i) => Some(&self.nodes[i]),
            None => None,
        }
    }

    /// The radius of the node with this id.
    pub fn get_radius(&self, id: NodeId) -> (radius: Option<i32>)
        requires
            self.wf(),
        ensures
            radius == (if self.contains(id) {
                Some(self.record(id).radius)
            } else {
                None
            }),
    {
        match self.find(id) {
            Some(i) => Some(self.nodes[i].radius),
            None => None,
        }
    }

    /// The importance recorded for the node with this id.
    pub fn get_node_importance(&self, id: NodeId) -> (importance: Option<u8>)
        requires
            self.wf(),
        ensures
            importance == (if self.contains(id) {
                self.record(id).importance
            } else {
                None
            }),
    {
        match self.find(id) {
            Some(i) => self.nodes[i].importance,
            None => None,
        }
    }

    /// The inbound link count recorded for the node with this id, and zero
    /// for an unknown id.
    pub fn get_node_inbound_count(&self, id: NodeId) -> (count: usize)
        requires
            self.wf(),
        ensures
            count == (if self.contains(id) {
                self.record(id).inbound_count
            } else {
                0
            }),
    {
        match self.find(id) {
            Some(i) => self.nodes[i].inbound_count,
            None => 0,
        }
    }

    /// Whether `id` is the anchor.
    pub fn is_author_node(&self, id: NodeId) -> (anchor: bool)
        ensures
            anchor == (self.anchor() == Some(id)),
    {
        match self.anchor {
            Some(a) => a == id,
            None => false,
        }
    }

    /// The anchor, if there is one.
    pub fn get_author_node_id(&self) -> (anchor: Option<NodeId>)
        ensures
            anchor == self.anchor(),
    {
        self.anchor
    }

    /// The radius by which the node collides: its own radius, or the
    /// fallback for an unknown node.
    pub fn calculate_physics_radius(&self, id: NodeId) -> (radius: i32)
        requires
            self.wf(),
        ensures
            radius == self.radius_or_fallback(id),
    {
        match self.find(id) {
            Some(i) => self.nodes[i].radius,
            None => FALLBACK_RADIUS,
        }
    }

    /// The radius that the sizing policy gives a node of this importance
    /// and inbound link count. A missing importance counts as the policy's
    /// default importance.
    pub fn calculate_dynamic_radius(&self, importance: Option<u8>, inbound_count: usize) -> (radius: i32)
        requires
            self.wf(),
        ensures
            radius == self.config().node_radius(
                match importance {
                    Some(value) => value,
                    None => self.config().default_importance,
                },
                inbound_count,
            ),
            self.config().min_node_radius <= radius <= self.config().max_node_radius,
    {
        let value = match importance {
            Some(value) => value,
            None => self.config.default_importance,
        };
        self.config.calculate_node_radius(value, inbound_count)
    }

    /// Whether the registry has an edge between `a` and `b`, in either
    /// direction.
    pub fn contains_edge(&self, a: NodeId, b: NodeId) -> (found: bool)
        ensures
            found == self.has_edge(a, b),
    {
        let mut k: usize = 0;
        while k < self.edges.len()
            invariant
                k <= self.edges.len(),
                forall|m: int| 0 <= m < k ==> !same_edge(#[trigger] self.edges()[m], (a, b)),
            decreases self.edges.len() - k,
        {
            let e = self.edges[k];
            if (e.0 == a && e.1 == b) || (e.0 == b && e.1 == a) {
                assert(same_edge(self.edges()[k as int], (a, b)));
                return true;
            }
            k += 1;
        }
        false
    }

    /// Adds an edge between two different known nodes, unless the registry
    /// already has one between them. Returns whether the edge was added.
    pub fn add_edge(&mut self, from: NodeId, to: NodeId) -> (added: bool)
        requires
            old(self).wf(),
        ensures
            final(self).wf(),
            added == (old(self).contains(from) && old(self).contains(to) && from != to && !old(self).has_edge(from, to)),
            added ==> final(self).edges() == old(self).edges().push((from, to)),
            !added ==> final(self).edges() == old(self).edges(),
            final(self).nodes() == old(self).nodes(),
            final(self).anchor() == old(self).anchor(),
            final(self).config() == old(self).config(),
            final(self).lines_visible() == old(self).lines_visible(),
    {
        if from == to || self.find(from).is_none() || self.find(to).is_none() {
            return false;
        }
        if self.contains_edge(from, to) {
            return false;
        }
        let ghost before = *self;
        self.edges.push((from, to));
        proof {
            let n = before.edges().len() as int;
            assert forall|i: int| 0 <= i < self.nodes().len() implies (
            #[trigger] self.nodes()[i]) == before.nodes()[i] by {}
            assert(forall|id: NodeId| before.contains(id) == self.contains(id));
            assert forall|k: int| 0 <= k < self.edges().len() implies {
                let e = #[trigger] self.edges()[k];
                self.contains(e.0) && self.contains(e.1) && e.0 != e.1
            } by {
                if k < n {
                    let e = before.edges()[k];
                    assert(before.contains(e.0) && before.contains(e.1));
                }
            }
            assert forall|k: int, m: int| 0 <= k < m < self.edges().len() implies !same_edge(
                #[trigger] self.edges()[k],
                #[trigger] self.edges()[m],
            ) by {
                if m < n {
                    assert(!same_edge(before.edges()[k], before.edges()[m]));
                } else {
                    assert(!same_edge(before.edges()[k], (from, to)));
                }
            }
            assert(self.anchor() == before.anchor());
            match self.anchor() {
                Some(a) => {
                    assert(before.contains(a));
                    assert(self.position_of(a) == before.position_of(a));
                },
                None => {},
            }
        }
        true
    }

    /// The node ids, in insertion order.
    pub fn node_ids(&self) -> (ids: Vec<NodeId>)
        ensures
            ids@ == self.ids(),
    {
        let mut ids: Vec<NodeId> = Vec::new();
        let mut i: usize = 0;
        while i < self.nodes.len()
            invariant
                i <= self.nodes.len(),
                ids@.len() == i,
                forall|j: int| 0 <= j < i ==> ids@[j] == self.nodes()[j].id,
            decreases self.nodes.len() - i,
        {
            ids.push(self.nodes[i].id);
            i += 1;
        }
        assert(ids@ =~= self.ids());
        ids
    }

    /// The edges, in insertion order.
    pub fn iter_edges(&self) -> (edges: Vec<(NodeId, NodeId)>)
        ensures
            edges@ == self.edges(),
    {
        let mut edges: Vec<(NodeId, NodeId)> = Vec::new();
        let mut k: usize = 0;
        while k < self.edges.len()
            invariant
                k <= self.edges.len(),
                edges@.len() == k,
                forall|m: int| 0 <= m < k ==> edges@[m] == self.edges()[m],
            decreases self.edges.len() - k,
        {
            edges.push(self.edges[k]);
            k += 1;
        }
        assert(edges@ =~= self.edges());
        edges
    }

    /// The categories that occur in the registry, each once, in the order
    /// in which they first occur.
    pub fn get_all_categories(&self) -> (categories: Vec<String>)
        ensures
            crate::text::views(categories@) == distinct_categories(self.nodes()),
    {
        let mut categories: Vec<String> = Vec::new();
        let mut i: usize = 0;
        while i < self.nodes.len()
            invariant
                i <= self.nodes.len(),
                crate::text::views(categories@) == distinct_categories(self.nodes().take(i as int)),
            decreases self.nodes.len() - i,
        {
            proof {
                assert(self.nodes().take(i + 1).drop_last() =~= self.nodes().take(i as int));
            }
            match &self.nodes[i].category {
                Some(name) => {
                    let mut known = false;
                    let mut k: usize = 0;
                    while k < categories.len()
                        invariant
                            k <= categories.len(),
                            known == exists|m: int| 0 <= m < k && categories@[m]@ == name@,
                        decreases categories.len() - k,
                    {
                        if str_eq(categories[k].as_str(), name.as_str()) {
                            known = true;
                        }
                        k += 1;
                    }
                    proof {
                        let earlier = crate::text::views(categories@);
                        if known {
                            let m = choose|m: int| 0 <= m < k && categories@[m]@ == name@;
                            assert(earlier[m] == name@);
                        } else {
                            assert forall|m: int| 0 <= m < earlier.len() implies earlier[m]
                                != name@ by {
                                assert(categories@[m]@ == earlier[m]);
                            }
                        }
                        assert(known == earlier.contains(name@));
                    }
                    if !known {
                        let ghost before = categories@;
                        categories.push(name.clone());
                        assert(crate::text::views(categories@) =~= crate::text::views(before).push(
                            name@,
                        ));
                    }
                },
                None => {},
            }
            i += 1;
        }
        assert(self.nodes().take(i as int) =~= self.nodes());
        categories
    }

    /// The ids of the nodes of a category, in insertion order.
    pub fn get_nodes_by_category(&self, category: &str) -> (ids: Vec<NodeId>)
        ensures
            ids@ == ids_in_category(self.nodes(), category@),
    {
        let mut ids: Vec<NodeId> = Vec::new();
        let mut i: usize = 0;
        while i < self.nodes.len()
            invariant
                i <= self.nodes.len(),
                ids@ == ids_in_category(self.nodes().take(i as int), category@),
            decreases self.nodes.len() - i,
        {
            proof {
                assert(self.nodes().take(i + 1).drop_last() =~= self.nodes().take(i as int));
            }
            let member = match &self.nodes[i].category {
                Some(name) => str_eq(name.as_str(), category),
                None => false,
            };
            if member {
                ids.push(self.nodes[i].id);
            }
            i += 1;
        }
        assert(self.nodes().take(i as int) =~= self.nodes());
        ids
    }
}

} // verus!
