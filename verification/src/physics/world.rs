//! The orchestrator of the discrete simulation state: the registry, the
//! bodies and colliders of its nodes, and the spring joints of its edges.

use vstd::prelude::*;
use std::collections::HashMap;
use rapier2d::dynamics::{GenericJoint, IslandManager};
use rapier2d::geometry::Collider;
use crate::graph::node::NodeId;
use crate::graph::registry::{has_id, index_of_id, NodeRecord, NodeRegistry};
use crate::physics::body_manager::{BodyManager, BodyParts};
use crate::physics::engine::new_island_manager;
use crate::physics::forces::{ForceCalculator, RepulsionPair};
use crate::physics::handles::{BodyHandle, BodyKind, ColliderHandle};
use crate::physics::joint_manager::{
    lemma_all_edges_materialized, materialized_edges, JointManager,
};

verus! {

/// The switches among the force settings.
#[derive(Debug, Clone, Copy, PartialEq, Eq, Structural)]
pub struct SimulationFlags {
    pub enable_category_clustering: bool,
    pub debug_mode: bool,
    pub show_connection_lines: bool,
}

/// The simulation state that is not numeric.
///
/// The fields are public because the integration step works on the
/// engine's sets directly, and because the positions that a step computes
/// are written into the registry. Code that holds a world must keep it
/// well formed: it moves bodies and sets positions, and leaves nodes,
/// edges, bodies, colliders and joints to the methods of the world.
pub struct PhysicsWorld<P> {
    pub island_manager: IslandManager,
    pub body_manager: BodyManager,
    pub joint_manager: JointManager,
    pub registry: NodeRegistry<P>,
    pub flags: SimulationFlags,
}

/// The resizes that article data ask for: for every record, in order, whose
/// id number has an entry in `article_data`, the id with the radius that
/// `config` gives the entry's importance and inbound link count. A missing
/// importance counts as the default importance.
pub open spec fn planned_sizes<P>(
    records: Seq<NodeRecord<P>>,
    config: crate::config::NodeConfig,
    article_data: Map<u32, (Option<u8>, usize)>,
) -> Seq<(NodeId, i32)>
    decreases records.len(),
{
    if records.len() == 0 {
        Seq::empty()
    } else {
        let earlier = planned_sizes(records.drop_last(), config, article_data);
        let id = records.last().id;
        if article_data.contains_key(id.0) {
            let entry = article_data[id.0];
            let importance = match entry.0 {
                Some(value) => value,
                None => config.default_importance,
            };
            earlier.push((id, config.node_radius(importance, entry.1) as i32))
        } else {
            earlier
        }
    }
}

/// The records after a series of resizes, applied in order: each resize of
/// a known node replaces its radius by the new one, limited to the bounds
/// of `config`; a resize of an unknown node changes nothing.
pub open spec fn resized<P>(
    records: Seq<NodeRecord<P>>,
    config: crate::config::NodeConfig,
    updates: Seq<(NodeId, i32)>,
) -> Seq<NodeRecord<P>>
    decreases updates.len(),
{
    if updates.len() == 0 {
        records
    } else {
        let earlier = resized(records, config, updates.drop_last());
        let update = updates.last();
        if has_id(earlier, update.0) {
            let at = index_of_id(earlier, update.0);
            earlier.update(
                at,
                NodeRecord { radius: config.clamped(update.1) as i32, ..earlier[at] },
            )
        } else {
            earlier
        }
    }
}

/// The records after a series of moves, applied in order: each move of a
/// known node replaces its position; a move of an unknown node changes
/// nothing.
pub open spec fn repositioned<P>(records: Seq<NodeRecord<P>>, moves: Seq<(NodeId, P)>) -> Seq<
    NodeRecord<P>,
>
    decreases moves.len(),
{
    if moves.len() == 0 {
        records
    } else {
        let earlier = repositioned(records, moves.drop_last());
        let step = moves.last();
        if has_id(earlier, step.0) {
            let at = index_of_id(earlier, step.0);
            earlier.update(at, NodeRecord { position: step.1, ..earlier[at] })
        } else {
            earlier
        }
    }
}

/// The nodes among the records that have a live body, each with its body,
/// in the order of the records.
pub open spec fn bodies_of_records<P>(records: Seq<NodeRecord<P>>, manager: BodyManager) -> Seq<
    (NodeId, BodyHandle),
>
    decreases records.len(),
{
    if records.len() == 0 {
        Seq::empty()
    } else {
        let earlier = bodies_of_records(records.drop_last(), manager);
        let id = records.last().id;
        if manager.materialized(id) && manager.kinds().contains_key(manager.body_map@[id.0]) {
            earlier.push((id, manager.body_map@[id.0]))
        } else {
            earlier
        }
    }
}

/// How many of the resizes name a node that has a body.
pub open spec fn resize_count(updates: Seq<(NodeId, i32)>, body_map: Map<u32, BodyHandle>) -> nat
    decreases updates.len(),
{
    if updates.len() == 0 {
        0
    } else {
        resize_count(updates.drop_last(), body_map) + if body_map.contains_key(
            updates.last().0.0,
        ) {
            1nat
        } else {
            0nat
        }
    }
}

/// Some resize names the node whose body this is.
pub open spec fn resizes_body(
    updates: Seq<(NodeId, i32)>,
    body_map: Map<u32, BodyHandle>,
    body: BodyHandle,
) -> bool {
    exists|m: int|
        0 <= m < updates.len() && body_map.contains_key((#[trigger] updates[m]).0.0)
            && body_map[updates[m].0.0] == body
}

/// A count of removals as the engine's 32-bit counter holds it: the count
/// itself, and the last value of the counter where the count is beyond it.
pub open spec fn capped(count: int) -> int {
    if count > u32::MAX {
        u32::MAX as int
    } else {
        count
    }
}

/// One more resize names a body if an earlier one did or it does itself.
pub proof fn lemma_resizes_body_step(
    updates: Seq<(NodeId, i32)>,
    k: int,
    body_map: Map<u32, BodyHandle>,
    body: BodyHandle,
)
    requires
        0 <= k < updates.len(),
    ensures
        resizes_body(updates.take(k + 1), body_map, body) == (resizes_body(
            updates.take(k),
            body_map,
            body,
        ) || (body_map.contains_key(updates[k].0.0) && body_map[updates[k].0.0] == body)),
{
    let taken = updates.take(k);
    let next = updates.take(k + 1);
    assert(next.drop_last() =~= taken);
    assert(next.last() == updates[k]);
    if resizes_body(taken, body_map, body) {
        let m = choose|m: int|
            0 <= m < taken.len() && body_map.contains_key((#[trigger] taken[m]).0.0)
                && body_map[taken[m].0.0] == body;
        assert(next[m] == taken[m]);
    }
    if body_map.contains_key(updates[k].0.0) && body_map[updates[k].0.0] == body {
        assert(next[k] == updates[k]);
    }
    if resizes_body(next, body_map, body) {
        let m = choose|m: int|
            0 <= m < next.len() && body_map.contains_key((#[trigger] next[m]).0.0)
                && body_map[next[m].0.0] == body;
        if m < k {
            assert(taken[m] == next[m]);
        }
    }
}

impl<P> PhysicsWorld<P> {
    /// The invariant of the world: its parts are well formed, the nodes of
    /// the registry are exactly the nodes that have a body, and the tracked
    /// joints are the spring joints of the registry's edges, in the order
    /// of the edges.
    pub open spec fn wf(&self) -> bool {
        &&& self.registry.wf()
        &&& self.body_manager.wf()
        &&& self.joint_manager.wf()
        &&& forall|key: u32| #[trigger]
            self.body_manager.body_map@.contains_key(key) ==> self.registry.contains(NodeId(key))
        &&& forall|i: int|
            0 <= i < self.registry.nodes().len() ==> self.body_manager.materialized(
                (#[trigger] self.registry.nodes()[i]).id,
            )
        &&& self.joint_manager.connections() == materialized_edges(
            self.registry.edges(),
            self.body_manager.body_map@,
        )
    }

    /// In a well-formed world every edge of the registry has its joint:
    /// there are as many tracked joints as edges, and the joint at an index
    /// connects the bodies of the two nodes of the edge at that index.
    pub proof fn lemma_one_joint_per_edge(&self)
        requires
            self.wf(),
        ensures
            self.joint_manager.edge_joint_handles@.len() == self.registry.edges().len(),
            forall|k: int|
                0 <= k < self.registry.edges().len() ==> (
                #[trigger] self.joint_manager.connections()[k]) == (
                    self.body_manager.body_map@[self.registry.edges()[k].0.0],
                    self.body_manager.body_map@[self.registry.edges()[k].1.0],
                ),
    {
        self.lemma_edges_have_bodies();
        lemma_all_edges_materialized(self.registry.edges(), self.body_manager.body_map@);
    }

    /// In a well-formed world every tracked joint connects two live bodies,
    /// and every collider hangs on a live body: an integration step meets
    /// no handle of a body that is gone.
    pub proof fn lemma_no_dangling_handles(&self)
        requires
            self.wf(),
        ensures
            forall|k: int|
                0 <= k < self.joint_manager.edge_joint_handles@.len()
                    ==> self.body_manager.kinds().contains_key(
                    (#[trigger] self.joint_manager.connections()[k]).0,
                ) && self.body_manager.kinds().contains_key(self.joint_manager.connections()[k].1),
            forall|collider: crate::physics::handles::ColliderHandle, body: BodyHandle| #[trigger]
                self.body_manager.attached(collider, body)
                    ==> self.body_manager.kinds().contains_key(body),
    {
        self.lemma_one_joint_per_edge();
        self.lemma_edges_have_bodies();
        assert forall|k: int|
            0 <= k < self.joint_manager.edge_joint_handles@.len() implies self.body_manager.kinds().contains_key(
            (#[trigger] self.joint_manager.connections()[k]).0,
        ) && self.body_manager.kinds().contains_key(self.joint_manager.connections()[k].1) by {
            let edge = self.registry.edges()[k];
            assert(self.body_manager.body_map@.contains_key(edge.0.0));
            assert(self.body_manager.body_map@.contains_key(edge.1.0));
        }
    }

    /// In a well-formed world both nodes of every edge have a body.
    pub proof fn lemma_edges_have_bodies(&self)
        requires
            self.wf(),
        ensures
            forall|k: int|
                0 <= k < self.registry.edges().len() ==> self.body_manager.body_map@.contains_key(
                    (#[trigger] self.registry.edges()[k]).0.0,
                ) && self.body_manager.body_map@.contains_key(self.registry.edges()[k].1.0),
    {
        assert forall|k: int| 0 <= k < self.registry.edges().len() implies self.body_manager.body_map@.contains_key(
            (#[trigger] self.registry.edges()[k]).0.0,
        ) && self.body_manager.body_map@.contains_key(self.registry.edges()[k].1.0) by {
            let edge = self.registry.edges()[k];
            assert(self.registry.contains(edge.0) && self.registry.contains(edge.1));
            let i = self.registry.position_of(edge.0);
            let j = self.registry.position_of(edge.1);
            assert(self.body_manager.materialized(self.registry.nodes()[i].id));
            assert(self.body_manager.materialized(self.registry.nodes()[j].id));
        }
    }

    /// The number of spring joints.
    pub fn joint_count(&self) -> (count: usize)
        ensures
            count == self.joint_manager.edge_joint_handles@.len(),
            count == self.joint_manager.connections().len(),
    {
        self.joint_manager.joint_count()
    }

    /// Builds the world of a registry: one dynamic body with one collider
    /// for every node, made from the part at the node's index, and one
    /// spring joint, with the parameters that `spring` carries, for every
    /// edge.
    pub fn new(registry: NodeRegistry<P>, parts: Vec<BodyParts>, flags: SimulationFlags, spring: &GenericJoint) -> (world: Self)
        requires
            registry.wf(),
            parts@.len() == registry.nodes().len(),
        ensures
            world.wf(),
            world.registry == registry,
            world.flags == flags,
            world.joint_manager.edge_joint_handles@.len() == registry.edges().len(),
            forall|key: u32| #[trigger]
                world.body_manager.body_map@.contains_key(key) ==> world.body_manager.kinds()[world.body_manager.body_map@[key]]
                    == BodyKind::Dynamic,
    {
        let mut body_manager = BodyManager::new();
        body_manager.create_bodies_from_registry(&registry, parts);
        let mut joint_manager = JointManager::new();
        assert(joint_manager.connections() =~= Seq::<(BodyHandle, BodyHandle)>::empty());
        joint_manager.create_joints_from_registry(&registry, &body_manager, spring);
        let world = PhysicsWorld {
            island_manager: new_island_manager(),
            body_manager,
            joint_manager,
            registry,
            flags,
        };
        proof {
            world.lemma_one_joint_per_edge();
        }
        world
    }

    /// Takes new force settings: stores the switches and rebuilds every
    /// spring joint with the parameters that `spring` carries. Afterwards
    /// the tracked joints are the spring joints of the edges both of whose
    /// nodes have bodies, and no others, and each of them is a new joint:
    /// none of the joints from before is left. Bodies and colliders stay.
    /// Where the engine's counter of removed joints has no room for the
    /// rebuild, the switches are stored and the joints stay as they are.
    pub fn update_force_settings(&mut self, flags: SimulationFlags, spring: &GenericJoint)
        requires
            old(self).wf(),
        ensures
            final(self).wf(),
            final(self).flags == flags,
            final(self).registry == old(self).registry,
            final(self).body_manager == old(self).body_manager,
            final(self).joint_manager.connections() == materialized_edges(
                final(self).registry.edges(),
                final(self).body_manager.body_map@,
            ),
            final(self).joint_manager.edge_joint_handles@.len() == final(self).registry.edges().len(),
            old(self).joint_manager.can_rebuild() ==> {
                &&& forall|k: int|
                    0 <= k < final(self).joint_manager.edge_joint_handles@.len() ==> !old(self).joint_manager.spans().contains_key(
                        #[trigger] final(self).joint_manager.edge_joint_handles@[k],
                    )
                &&& forall|handle: crate::physics::handles::JointHandle| #[trigger]
                    old(self).joint_manager.spans().contains_key(handle) ==> !final(self).joint_manager.spans().contains_key(handle)
                &&& final(self).joint_manager.removals == old(self).joint_manager.removals + old(self).joint_manager.edge_joint_handles@.len()
            },
            !old(self).joint_manager.can_rebuild() ==> final(self).joint_manager.edge_joint_handles@ == old(self).joint_manager.edge_joint_handles@
                && final(self).joint_manager.spans() == old(self).joint_manager.spans() && final(self).joint_manager.removals == old(self).joint_manager.removals,
    {
        self.flags = flags;
        self.joint_manager.update_joint_strengths(&self.registry, &self.body_manager, spring);
        proof {
            if !old(self).joint_manager.can_rebuild() {
                assert(self.joint_manager.connections() =~= old(self).joint_manager.connections());
            }
            self.lemma_one_joint_per_edge();
        }
    }

    /// Starts a drag: the body of the node becomes kinematic, so that only
    /// positions set from outside move it. An unknown node changes nothing.
    pub fn set_node_kinematic(&mut self, id: NodeId)
        requires
            old(self).wf(),
        ensures
            final(self).wf(),
            final(self).registry == old(self).registry,
            final(self).flags == old(self).flags,
            final(self).joint_manager == old(self).joint_manager,
            final(self).body_manager.body_map@ == old(self).body_manager.body_map@,
            final(self).body_manager.parents() == old(self).body_manager.parents(),
            final(self).body_manager.kinds() == (match old(self).body_manager.handle_of(id) {
                Some(handle) => old(self).body_manager.kinds().insert(
                    handle,
                    BodyKind::KinematicPositionBased,
                ),
                None => old(self).body_manager.kinds(),
            }),
    {
        self.body_manager.set_node_kinematic(id);
    }

    /// Ends a drag: the body of the node becomes dynamic again. An unknown
    /// node changes nothing.
    pub fn set_node_dynamic(&mut self, id: NodeId)
        requires
            old(self).wf(),
        ensures
            final(self).wf(),
            final(self).registry == old(self).registry,
            final(self).flags == old(self).flags,
            final(self).joint_manager == old(self).joint_manager,
            final(self).body_manager.body_map@ == old(self).body_manager.body_map@,
            final(self).body_manager.parents() == old(self).body_manager.parents(),
            final(self).body_manager.kinds() == (match old(self).body_manager.handle_of(id) {
                Some(handle) => old(self).body_manager.kinds().insert(handle, BodyKind::Dynamic),
                None => old(self).body_manager.kinds(),
            }),
    {
        self.body_manager.set_node_dynamic(id);
    }

    /// Enables or disables the attraction between nodes of one category.
    pub fn set_category_clustering_enabled(&mut self, enabled: bool)
        ensures
            final(self).flags == (SimulationFlags {
                enable_category_clustering: enabled,
                ..old(self).flags
            }),
            final(self).registry == old(self).registry,
            final(self).body_manager == old(self).body_manager,
            final(self).joint_manager == old(self).joint_manager,
            old(self).wf() ==> final(self).wf(),
    {
        self.flags.enable_category_clustering = enabled;
    }

    /// Sets the debug mode. Connection lines are drawn when the debug mode
    /// is on and connection lines are wanted.
    pub fn set_debug_mode(&mut self, debug_mode: bool)
        requires
            old(self).wf(),
        ensures
            final(self).wf(),
            final(self).flags == (SimulationFlags { debug_mode, ..old(self).flags }),
            final(self).registry.lines_visible() == (debug_mode && old(self).flags.show_connection_lines),
            final(self).registry.nodes() == old(self).registry.nodes(),
            final(self).registry.edges() == old(self).registry.edges(),
            final(self).registry.anchor() == old(self).registry.anchor(),
            final(self).registry.config() == old(self).registry.config(),
            final(self).body_manager == old(self).body_manager,
            final(self).joint_manager == old(self).joint_manager,
    {
        self.flags.debug_mode = debug_mode;
        let visible = debug_mode && self.flags.show_connection_lines;
        self.registry.set_connection_line_visibility(visible);
    }

    /// Sets whether connection lines are wanted. They are drawn when they
    /// are wanted and the debug mode is on.
    pub fn set_connection_lines_visible(&mut self, visible: bool)
        requires
            old(self).wf(),
        ensures
            final(self).wf(),
            final(self).flags == (SimulationFlags { show_connection_lines: visible, ..old(self).flags }),
            final(self).registry.lines_visible() == (visible && old(self).flags.debug_mode),
            final(self).registry.nodes() == old(self).registry.nodes(),
            final(self).registry.edges() == old(self).registry.edges(),
            final(self).registry.anchor() == old(self).registry.anchor(),
            final(self).registry.config() == old(self).registry.config(),
            final(self).body_manager == old(self).body_manager,
            final(self).joint_manager == old(self).joint_manager,
    {
        self.flags.show_connection_lines = visible;
        let shown = visible && self.flags.debug_mode;
        self.registry.set_connection_line_visibility(shown);
    }

    /// Resizes a node: the registry takes `new_radius`, limited to its
    /// bounds, and `collider` replaces the collider of the node's body: the
    /// old collider leaves the collider set and the new one is attached
    /// under a handle that was not live. The body keeps exactly one
    /// collider. An unknown node changes nothing. Once the engine's counter
    /// of removed colliders is at its last value, the registry takes the
    /// radius and the collider stays.
    pub fn update_node_size(&mut self, node_id: NodeId, new_radius: i32, collider: Collider)
        requires
            old(self).wf(),
        ensures
            final(self).wf(),
            final(self).flags == old(self).flags,
            final(self).joint_manager == old(self).joint_manager,
            final(self).registry.edges() == old(self).registry.edges(),
            final(self).registry.anchor() == old(self).registry.anchor(),
            final(self).registry.config() == old(self).registry.config(),
            final(self).registry.lines_visible() == old(self).registry.lines_visible(),
            !old(self).registry.contains(node_id) ==> final(self).registry.nodes() == old(self).registry.nodes() && final(self).body_manager.parents() == old(self).body_manager.parents(),
            old(self).registry.contains(node_id) ==> final(self).registry.nodes() == old(self).registry.nodes().update(
                old(self).registry.position_of(node_id),
                (NodeRecord {
                    radius: old(self).registry.config().clamped(new_radius) as i32,
                    ..old(self).registry.record(node_id)
                }),
            ),
            final(self).body_manager.body_map@ == old(self).body_manager.body_map@,
            final(self).body_manager.kinds() == old(self).body_manager.kinds(),
            old(self).body_manager.handle_of(node_id) matches Some(body) ==> {
                let removed = old(self).body_manager.collider_of(body);
                let attached = final(self).body_manager.collider_of(body);
                &&& final(self).body_manager.has_single_collider(body)
                &&& !old(self).body_manager.parents().remove(removed).contains_key(attached)
                &&& final(self).body_manager.parents() == old(self).body_manager.parents().remove(
                    removed,
                ).insert(attached, Some(body))
                &&& old(self).body_manager.removals < u32::MAX ==> !final(self).body_manager.parents().contains_key(removed) && !old(self).body_manager.parents().contains_key(attached) && final(self).body_manager.removals == old(self).body_manager.removals + 1
                    && attached.generation == old(self).body_manager.removals + 1
                &&& old(self).body_manager.removals == u32::MAX ==> final(self).body_manager.parents() == old(self).body_manager.parents() && final(self).body_manager.removals == old(self).body_manager.removals
            },
            old(self).body_manager.handle_of(node_id) is None ==> final(self).body_manager.parents() == old(self).body_manager.parents() && final(self).body_manager.removals == old(self).body_manager.removals,
    {
        let ghost before = *self;
        self.registry.update_node_radius(node_id, new_radius);
        self.body_manager.update_node_size(node_id, collider, &mut self.island_manager);
        proof {
            if before.registry.contains(node_id) {
                let at = before.registry.position_of(node_id);
                assert forall|i: int| 0 <= i < self.registry.nodes().len() implies (
                #[trigger] self.registry.nodes()[i]).id == before.registry.nodes()[i].id by {}
                assert forall|i: int|
                    0 <= i < self.registry.nodes().len() implies self.body_manager.materialized(
                    (#[trigger] self.registry.nodes()[i]).id,
                ) by {
                    assert(before.body_manager.materialized(before.registry.nodes()[i].id));
                }
                assert forall|key: u32| #[trigger]
                    self.body_manager.body_map@.contains_key(key) implies self.registry.contains(
                    NodeId(key),
                ) by {
                    assert(before.registry.contains(NodeId(key)));
                    let i = before.registry.position_of(NodeId(key));
                    assert(self.registry.nodes()[i].id == NodeId(key));
                }
            }
        }
    }

    /// The resizes that article data ask for, in the order of the nodes:
    /// for every node that has an entry, the node with its new radius
    /// under the sizing policy.
    pub fn node_size_updates(&self, article_data: &HashMap<u32, (Option<u8>, usize)>) -> (updates: Vec<(NodeId, i32)>)
        requires
            self.registry.wf(),
        ensures
            updates@ == planned_sizes(
                self.registry.nodes(),
                self.registry.config(),
                article_data@,
            ),
    {
        let mut updates: Vec<(NodeId, i32)> = Vec::new();
        let count = self.registry.node_count();
        let mut i: usize = 0;
        while i < count
            invariant
                i <= count,
                count == self.registry.nodes().len(),
                self.registry.wf(),
                updates@ == planned_sizes(
                    self.registry.nodes().take(i as int),
                    self.registry.config(),
                    article_data@,
                ),
            decreases count - i,
        {
            proof {
                assert(self.registry.nodes().take(i + 1).drop_last() =~= self.registry.nodes().take(
                    i as int,
                ));
            }
            let id = self.registry.node_at(i).id;
            match article_data.get(&id.0) {
                Some(entry) => {
                    let radius = self.registry.calculate_dynamic_radius(entry.0, entry.1);
                    updates.push((id, radius));
                },
                None => {},
            }
            i += 1;
        }
        assert(self.registry.nodes().take(i as int) =~= self.registry.nodes());
        updates
    }

    /// The pairs of nodes that may repel each other, each pair once.
    pub fn repulsion_pairs(&self) -> (pairs: Vec<RepulsionPair>)
        requires
            self.registry.wf(),
        ensures
            forall|k: int|
                0 <= k < pairs@.len() ==> self.registry.contains((#[trigger] pairs@[k]).first)
                    && self.registry.contains(pairs@[k].second) && self.registry.position_of(
                    pairs@[k].first,
                ) < self.registry.position_of(pairs@[k].second) && pairs@[k]
                    == ForceCalculator::repulsion_pair_at(
                    &self.registry,
                    self.registry.position_of(pairs@[k].first),
                    self.registry.position_of(pairs@[k].second),
                ),
            forall|i: int, j: int|
                0 <= i < j < self.registry.nodes().len() ==> pairs@.contains(
                    #[trigger] ForceCalculator::repulsion_pair_at(&self.registry, i, j),
                ),
            forall|k: int, m: int|
                0 <= k < m < pairs@.len() ==> ForceCalculator::pair_before(
                    &self.registry,
                    ((#[trigger] pairs@[k]).first, pairs@[k].second),
                    ((#[trigger] pairs@[m]).first, pairs@[m].second),
                ),
            forall|k: int, m: int|
                0 <= k < pairs@.len() && 0 <= m < pairs@.len() ==> !((
                #[trigger] pairs@[k]).first == (#[trigger] pairs@[m]).second && pairs@[k].second
                    == pairs@[m].first),
    {
        ForceCalculator::repulsion_pairs(&self.registry)
    }

    /// The pairs of nodes that attract each other because they share a
    /// category; none while category clustering is disabled.
    pub fn category_pairs(&self) -> (pairs: Vec<(NodeId, NodeId)>)
        requires
            self.registry.wf(),
        ensures
            !self.flags.enable_category_clustering ==> pairs@.len() == 0,
            forall|k: int|
                0 <= k < pairs@.len() ==> self.registry.contains((#[trigger] pairs@[k]).0)
                    && self.registry.contains(pairs@[k].1) && ForceCalculator::attracts_at(
                    &self.registry,
                    self.registry.position_of(pairs@[k].0),
                    self.registry.position_of(pairs@[k].1),
                ),
            self.flags.enable_category_clustering ==> forall|i: int, j: int| #[trigger]
                ForceCalculator::attracts_at(&self.registry, i, j) ==> pairs@.contains(
                    (self.registry.nodes()[i].id, self.registry.nodes()[j].id),
                ),
            forall|k: int, m: int|
                0 <= k < m < pairs@.len() ==> ForceCalculator::pair_before(
                    &self.registry,
                    #[trigger] pairs@[k],
                    #[trigger] pairs@[m],
                ),
    {
        ForceCalculator::category_pairs(&self.registry, self.flags.enable_category_clustering)
    }

    /// The anchor and its body, to which the centre force is applied: the
    /// anchor of the registry where it has a live body, and nothing else.
    pub fn center_force_target(&self) -> (target: Option<(NodeId, BodyHandle)>)
        ensures
            target == (match self.registry.anchor() {
                Some(anchor) => if self.body_manager.materialized(anchor)
                    && self.body_manager.kinds().contains_key(
                    self.body_manager.body_map@[anchor.0],
                ) {
                    Some((anchor, self.body_manager.body_map@[anchor.0]))
                } else {
                    None
                },
                None => None,
            }),
            self.wf() ==> (target is Some <==> self.registry.anchor() is Some),
    {
        proof {
            if self.wf() {
                match self.registry.anchor() {
                    Some(anchor) => {
                        let i = self.registry.position_of(anchor);
                        assert(self.registry.contains(anchor));
                        assert(self.registry.nodes()[i].id == anchor);
                        assert(self.body_manager.materialized(self.registry.nodes()[i].id));
                    },
                    None => {},
                }
            }
        }
        match self.registry.get_author_node_id() {
            Some(anchor) => match self.body_manager.get_body_handle(anchor) {
                Some(handle) => if crate::physics::engine::contains_body(
                    &self.body_manager.bodies,
                    handle,
                ) {
                    Some((anchor, handle))
                } else {
                    None
                },
                None => None,
            },
            None => None,
        }
    }

    /// Resizes nodes in the order of `updates`, each with the collider at
    /// its index. The body of every node that a resize names gets a new
    /// collider in place of its old one; the body of every other node keeps
    /// its collider. Every body keeps exactly one collider, and bodies,
    /// joints and edges stay as they are. Once the engine's counter of
    /// removed colliders is at its last value, radii are still taken and
    /// colliders stay.
    pub fn update_all_node_sizes(&mut self, updates: &Vec<(NodeId, i32)>, colliders: Vec<Collider>)
        requires
            old(self).wf(),
            colliders@.len() == updates@.len(),
        ensures
            final(self).wf(),
            final(self).flags == old(self).flags,
            final(self).joint_manager == old(self).joint_manager,
            final(self).registry.edges() == old(self).registry.edges(),
            final(self).registry.anchor() == old(self).registry.anchor(),
            final(self).registry.config() == old(self).registry.config(),
            final(self).registry.lines_visible() == old(self).registry.lines_visible(),
            final(self).registry.nodes() == resized(
                old(self).registry.nodes(),
                old(self).registry.config(),
                updates@,
            ),
            final(self).body_manager.body_map@ == old(self).body_manager.body_map@,
            final(self).body_manager.kinds() == old(self).body_manager.kinds(),
            forall|key: u32| #[trigger]
                final(self).body_manager.body_map@.contains_key(key) ==> final(self).body_manager.has_single_collider(final(self).body_manager.body_map@[key]),
            final(self).body_manager.removals == capped(
                old(self).body_manager.removals + resize_count(
                    updates@,
                    old(self).body_manager.body_map@,
                ),
            ),
            forall|collider: ColliderHandle, body: BodyHandle|
                !resizes_body(updates@, old(self).body_manager.body_map@, body) ==> (
                #[trigger] final(self).body_manager.attached(collider, body)) == old(self).body_manager.attached(collider, body),
            old(self).body_manager.removals + resize_count(
                updates@,
                old(self).body_manager.body_map@,
            ) <= u32::MAX ==> forall|body: BodyHandle| #[trigger]
                resizes_body(updates@, old(self).body_manager.body_map@, body) ==> !final(self).body_manager.parents().contains_key(old(self).body_manager.collider_of(body))
                    && !old(self).body_manager.parents().contains_key(
                    final(self).body_manager.collider_of(body),
                ),
    {
        let count = updates.len();
        let ghost start = old(self).body_manager;
        let ghost map = old(self).body_manager.body_map@;
        // Turn the colliders round, so that they can be taken from the end in order.
        let mut rest = colliders;
        let mut stack: Vec<Collider> = Vec::new();
        while rest.len() > 0
            invariant
                rest@.len() + stack@.len() == count,
                count == colliders@.len(),
            decreases rest.len(),
        {
            let collider = rest.pop().unwrap();
            stack.push(collider);
        }
        let mut k: usize = 0;
        proof {
            assert(updates@.take(0) =~= Seq::<(NodeId, i32)>::empty());
        }
        while k < count
            invariant
                k <= count,
                count == updates@.len(),
                stack@.len() == count - k,
                start == old(self).body_manager,
                map == start.body_map@,
                start.wf(),
                self.wf(),
                self.flags == old(self).flags,
                self.joint_manager == old(self).joint_manager,
                self.registry.edges() == old(self).registry.edges(),
                self.registry.anchor() == old(self).registry.anchor(),
                self.registry.config() == old(self).registry.config(),
                self.registry.lines_visible() == old(self).registry.lines_visible(),
                self.registry.nodes() == resized(
                    old(self).registry.nodes(),
                    old(self).registry.config(),
                    updates@.take(k as int),
                ),
                self.body_manager.body_map@ == map,
                self.body_manager.kinds() == start.kinds(),
                self.body_manager.removals == capped(
                    start.removals + resize_count(updates@.take(k as int), map),
                ),
                forall|collider: ColliderHandle, body: BodyHandle|
                    !resizes_body(updates@.take(k as int), map, body) ==> (
                    #[trigger] self.body_manager.attached(collider, body)) == start.attached(
                        collider,
                        body,
                    ),
                forall|collider: ColliderHandle| #[trigger]
                    self.body_manager.parents().contains_key(collider)
                        && !start.parents().contains_key(collider) ==> collider.generation
                        > start.removals,
                start.removals + resize_count(updates@.take(k as int), map) <= u32::MAX
                    ==> forall|body: BodyHandle| #[trigger]
                    resizes_body(updates@.take(k as int), map, body)
                        ==> !self.body_manager.parents().contains_key(start.collider_of(body))
                        && !start.parents().contains_key(self.body_manager.collider_of(body)),
            decreases count - k,
        {
            proof {
                assert(updates@.take(k + 1).drop_last() =~= updates@.take(k as int));
                assert(updates@.take(k + 1).last() == updates@[k as int]);
            }
            let update = updates[k];
            let collider = stack.pop().unwrap();
            let ghost before = self.body_manager;
            self.update_node_size(update.0, update.1, collider);
            proof {
                let taken = updates@.take(k as int);
                let next = updates@.take(k + 1);
                let now = self.body_manager;
                let named = before.handle_of(update.0);
                assert(next.drop_last() =~= taken);
                assert(resize_count(next, map) == resize_count(taken, map) + if map.contains_key(
                    update.0.0,
                ) {
                    1nat
                } else {
                    0nat
                });
                // Which colliders the step leaves alone.
                assert forall|collider: ColliderHandle, body: BodyHandle|
                    named != Some(body) implies (#[trigger] now.attached(collider, body))
                    == before.attached(collider, body) by {
                    match named {
                        Some(resized_body) => {
                            assert(before.body_map@.contains_key(update.0.0));
                            assert(before.has_single_collider(resized_body));
                            assert(before.attached(before.collider_of(resized_body), resized_body));
                        },
                        None => {},
                    }
                }
                assert forall|collider: ColliderHandle, body: BodyHandle|
                    !resizes_body(next, map, body) implies (#[trigger] now.attached(
                    collider,
                    body,
                )) == start.attached(collider, body) by {
                    lemma_resizes_body_step(updates@, k as int, map, body);
                    assert(named != Some(body));
                    assert(now.attached(collider, body) == before.attached(collider, body));
                }
                assert forall|collider: ColliderHandle| #[trigger]
                    now.parents().contains_key(collider) && !start.parents().contains_key(
                        collider,
                    ) implies collider.generation > start.removals by {
                    if !before.parents().contains_key(collider) {
                        assert(named is Some);
                        assert(before.removals < u32::MAX);
                    }
                }
                if start.removals + resize_count(next, map) <= u32::MAX {
                    assert forall|body: BodyHandle| #[trigger]
                        resizes_body(next, map, body) implies !now.parents().contains_key(
                        start.collider_of(body),
                    ) && !start.parents().contains_key(now.collider_of(body)) by {
                        lemma_resizes_body_step(updates@, k as int, map, body);
                        // The body is that of a node, so it had one collider at the start
                        // and has one now.
                        let m = choose|m: int|
                            0 <= m < next.len() && map.contains_key((#[trigger] next[m]).0.0)
                                && map[next[m].0.0] == body;
                        let key = next[m].0.0;
                        assert(start.body_map@.contains_key(key));
                        assert(before.body_map@.contains_key(key));
                        assert(now.body_map@.contains_key(key));
                        assert(start.has_single_collider(body));
                        assert(before.has_single_collider(body));
                        assert(now.has_single_collider(body));
                        let first = start.collider_of(body);
                        assert(start.attached(first, body));
                        assert(start.parents().contains_key(first));
                        assert(first.generation <= start.removals);
                        if named == Some(body) {
                            assert(before.removals < u32::MAX);
                            let attached = now.collider_of(body);
                            assert(attached.generation > start.removals);
                            if resizes_body(taken, map, body) {
                                assert(!before.parents().contains_key(first));
                            } else {
                                assert(before.attached(first, body) == start.attached(
                                    first,
                                    body,
                                ));
                                assert(first == before.collider_of(body));
                            }
                            if start.parents().contains_key(attached) {
                                assert(attached.generation <= start.removals);
                            }
                        } else {
                            assert(resizes_body(taken, map, body));
                            let kept = before.collider_of(body);
                            assert(before.attached(kept, body));
                            assert(now.attached(kept, body) == before.attached(kept, body));
                            assert(now.attached(kept, body));
                            assert(kept == now.collider_of(body));
                            if now.parents().contains_key(first) {
                                assert(!before.parents().contains_key(first));
                                assert(first.generation > start.removals);
                            }
                        }
                    }
                }
            }
            k += 1;
        }
        assert(updates@.take(k as int) =~= updates@);
    }

    /// The nodes whose positions a step brings up to date: every node of
    /// the registry that has a live body, with its body, in the order of
    /// the nodes.
    pub fn simulated_bodies(&self) -> (listed: Vec<(NodeId, BodyHandle)>)
        ensures
            listed@ == bodies_of_records(self.registry.nodes(), self.body_manager),
    {
        let mut listed: Vec<(NodeId, BodyHandle)> = Vec::new();
        let count = self.registry.node_count();
        let mut i: usize = 0;
        assert(self.registry.nodes().take(0) =~= Seq::<NodeRecord<P>>::empty());
        while i < count
            invariant
                i <= count,
                count == self.registry.nodes().len(),
                listed@ == bodies_of_records(
                    self.registry.nodes().take(i as int),
                    self.body_manager,
                ),
            decreases count - i,
        {
            proof {
                assert(self.registry.nodes().take(i + 1).drop_last() =~= self.registry.nodes().take(
                    i as int,
                ));
            }
            let id = self.registry.node_at(i).id;
            match self.body_manager.get_body_handle(id) {
                Some(handle) => {
                    if crate::physics::engine::contains_body(&self.body_manager.bodies, handle) {
                        listed.push((id, handle));
                    }
                },
                None => {},
            }
            i += 1;
        }
        assert(self.registry.nodes().take(i as int) =~= self.registry.nodes());
        listed
    }

    /// Writes positions into the registry, in the order of `positions`.
    /// This is how simulated motion reaches what is drawn. Nodes, edges,
    /// bodies and joints stay as they are.
    pub fn update_node_positions(&mut self, positions: Vec<(NodeId, P)>)
        requires
            old(self).wf(),
        ensures
            final(self).wf(),
            final(self).flags == old(self).flags,
            final(self).joint_manager == old(self).joint_manager,
            final(self).body_manager == old(self).body_manager,
            final(self).registry.edges() == old(self).registry.edges(),
            final(self).registry.anchor() == old(self).registry.anchor(),
            final(self).registry.config() == old(self).registry.config(),
            final(self).registry.lines_visible() == old(self).registry.lines_visible(),
            final(self).registry.nodes() == repositioned(old(self).registry.nodes(), positions@),
    {
        // Turn the positions round, so that they can be taken from the end in order.
        let ghost total = positions@.len();
        let mut rest = positions;
        let mut stack: Vec<(NodeId, P)> = Vec::new();
        while rest.len() > 0
            invariant
                rest@.len() + stack@.len() == total,
                total == positions@.len(),
                rest@ == positions@.subrange(0, rest@.len() as int),
                forall|k: int|
                    0 <= k < stack@.len() ==> stack@[k] == positions@[total - 1 - k],
            decreases rest.len(),
        {
            let entry = rest.pop().unwrap();
            stack.push(entry);
            assert(rest@ =~= positions@.subrange(0, rest@.len() as int));
        }
        let ghost mut done: int = 0;
        assert(positions@.take(0) =~= Seq::<(NodeId, P)>::empty());
        while stack.len() > 0
            invariant
                0 <= done <= total,
                total == positions@.len(),
                stack@.len() == total - done,
                forall|k: int|
                    0 <= k < stack@.len() ==> stack@[k] == positions@[total - 1 - k],
                self.wf(),
                self.flags == old(self).flags,
                self.joint_manager == old(self).joint_manager,
                self.body_manager == old(self).body_manager,
                self.registry.edges() == old(self).registry.edges(),
                self.registry.anchor() == old(self).registry.anchor(),
                self.registry.config() == old(self).registry.config(),
                self.registry.lines_visible() == old(self).registry.lines_visible(),
                self.registry.nodes() == repositioned(
                    old(self).registry.nodes(),
                    positions@.take(done),
                ),
            decreases stack.len(),
        {
            proof {
                assert(positions@.take(done + 1).drop_last() =~= positions@.take(done));
                assert(positions@.take(done + 1).last() == positions@[done]);
            }
            let entry = stack.pop().unwrap();
            let ghost before = *self;
            self.registry.set_position(entry.0, entry.1);
            proof {
                if before.registry.contains(entry.0) {
                    assert forall|i: int| 0 <= i < self.registry.nodes().len() implies (
                    #[trigger] self.registry.nodes()[i]).id == before.registry.nodes()[i].id by {}
                    assert forall|i: int|
                        0 <= i < self.registry.nodes().len() implies self.body_manager.materialized(
                        (#[trigger] self.registry.nodes()[i]).id,
                    ) by {
                        assert(before.body_manager.materialized(before.registry.nodes()[i].id));
                    }
                    assert forall|key: u32| #[trigger]
                        self.body_manager.body_map@.contains_key(key) implies self.registry.contains(
                        NodeId(key),
                    ) by {
                        assert(before.registry.contains(NodeId(key)));
                        let i = before.registry.position_of(NodeId(key));
                        assert(self.registry.nodes()[i].id == NodeId(key));
                    }
                }
                done = done + 1;
            }
        }
        assert(positions@.take(done) =~= positions@);
    }
}

} // verus!
