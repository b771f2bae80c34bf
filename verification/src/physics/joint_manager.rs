//! Ownership of the spring joints, one per graph edge whose two nodes have
//! bodies.

use vstd::prelude::*;
use rapier2d::dynamics::{GenericJoint, ImpulseJointSet};
use crate::graph::node::NodeId;
use crate::graph::registry::NodeRegistry;
use crate::physics::body_manager::BodyManager;
use crate::physics::engine::{
    insert_joint, joint_removals, joints_of, new_joint_set, remove_joint,
};
use crate::physics::handles::{BodyHandle, JointHandle};

verus! {

/// The spring joints of the simulation and the handles by which they are
/// tracked, in the order in which the joints were made.
///
/// The fields are public because the integration step works on the joint
/// set directly. A step must not add or remove a joint.
pub struct JointManager {
    pub impulse_joints: ImpulseJointSet,
    pub edge_joint_handles: Vec<JointHandle>,
    /// How many joints have been removed from `impulse_joints`. The engine
    /// counts them in 32 bits and tells joints apart by that count, so the
    /// joints are not rebuilt once the count could pass its last value.
    pub removals: u32,
}

/// The pairs of bodies that the edges connect, for the edges both of whose
/// nodes have a body, in the order of the edges.
pub open spec fn materialized_edges(
    edges: Seq<(NodeId, NodeId)>,
    body_map: Map<u32, BodyHandle>,
) -> Seq<(BodyHandle, BodyHandle)>
    decreases edges.len(),
{
    if edges.len() == 0 {
        Seq::empty()
    } else {
        let earlier = materialized_edges(edges.drop_last(), body_map);
        let edge = edges.last();
        if body_map.contains_key(edge.0.0) && body_map.contains_key(edge.1.0) {
            earlier.push((body_map[edge.0.0], body_map[edge.1.0]))
        } else {
            earlier
        }
    }
}

/// There are never more materialized edges than edges.
pub proof fn lemma_materialized_at_most_edges(
    edges: Seq<(NodeId, NodeId)>,
    body_map: Map<u32, BodyHandle>,
)
    ensures
        materialized_edges(edges, body_map).len() <= edges.len(),
    decreases edges.len(),
{
    if edges.len() > 0 {
        lemma_materialized_at_most_edges(edges.drop_last(), body_map);
    }
}

/// Where both nodes of every edge have a body, every edge is materialized:
/// there are as many materialized edges as edges, and the materialized edge
/// at an index connects the bodies of the edge at that index.
pub proof fn lemma_all_edges_materialized(
    edges: Seq<(NodeId, NodeId)>,
    body_map: Map<u32, BodyHandle>,
)
    requires
        forall|k: int|
            0 <= k < edges.len() ==> body_map.contains_key((#[trigger] edges[k]).0.0)
                && body_map.contains_key(edges[k].1.0),
    ensures
        materialized_edges(edges, body_map).len() == edges.len(),
        forall|k: int|
            0 <= k < edges.len() ==> (#[trigger] materialized_edges(edges, body_map)[k]) == (
                body_map[edges[k].0.0],
                body_map[edges[k].1.0],
            ),
    decreases edges.len(),
{
    if edges.len() > 0 {
        let earlier = edges.drop_last();
        assert forall|k: int| 0 <= k < earlier.len() implies body_map.contains_key(
            (#[trigger] earlier[k]).0.0,
        ) && body_map.contains_key(earlier[k].1.0) by {
            assert(earlier[k] == edges[k]);
        }
        lemma_all_edges_materialized(earlier, body_map);
        assert(body_map.contains_key(edges[edges.len() - 1].0.0));
        assert forall|k: int| 0 <= k < edges.len() implies (#[trigger] materialized_edges(
            edges,
            body_map,
        )[k]) == (body_map[edges[k].0.0], body_map[edges[k].1.0]) by {
            if k < earlier.len() {
                assert(earlier[k] == edges[k]);
                assert(materialized_edges(edges, body_map)[k] == materialized_edges(
                    earlier,
                    body_map,
                )[k]);
            }
        }
    }
}

impl JointManager {
    /// The two bodies of each live joint.
    pub open spec fn spans(&self) -> Map<JointHandle, (BodyHandle, BodyHandle)> {
        joints_of(self.impulse_joints)
    }

    /// The pairs of bodies that the tracked joints connect, in the order of
    /// the tracked handles.
    pub open spec fn connections(&self) -> Seq<(BodyHandle, BodyHandle)> {
        Seq::new(
            self.edge_joint_handles@.len(),
            |i: int| self.spans()[self.edge_joint_handles@[i]],
        )
    }

    /// The invariant of the manager: the tracked handles are distinct, they
    /// are exactly the live joints of the set, and the count of removed
    /// joints is the engine's, which no live joint is ahead of.
    pub open spec fn wf(&self) -> bool {
        &&& forall|i: int, j: int|
            0 <= i < j < self.edge_joint_handles@.len() ==> self.edge_joint_handles@[i]
                != self.edge_joint_handles@[j]
        &&& forall|i: int|
            0 <= i < self.edge_joint_handles@.len() ==> self.spans().contains_key(
                #[trigger] self.edge_joint_handles@[i],
            )
        &&& forall|handle: JointHandle| #[trigger]
            self.spans().contains_key(handle) ==> self.edge_joint_handles@.contains(handle)
        &&& self.removals == joint_removals(self.impulse_joints)
        &&& forall|handle: JointHandle| #[trigger]
            self.spans().contains_key(handle) ==> handle.generation <= self.removals
    }

    /// The engine's counter has room for the removal of every tracked
    /// joint.
    pub open spec fn can_rebuild(&self) -> bool {
        self.removals + self.edge_joint_handles@.len() <= u32::MAX
    }

    /// A manager without joints.
    pub fn new() -> (manager: Self)
        ensures
            manager.wf(),
            manager.edge_joint_handles@.len() == 0,
            manager.spans().dom() == Set::<JointHandle>::empty(),
            manager.removals == 0,
    {
        JointManager {
            impulse_joints: new_joint_set(),
            edge_joint_handles: Vec::new(),
            removals: 0,
        }
    }

    /// Makes one spring joint between two live bodies and tracks it last.
    pub fn create_spring_joint(
        &mut self,
        bodies: &BodyManager,
        handle_a: BodyHandle,
        handle_b: BodyHandle,
        spring: &GenericJoint,
    )
        requires
            old(self).wf(),
            bodies.kinds().contains_key(handle_a),
            bodies.kinds().contains_key(handle_b),
        ensures
            final(self).wf(),
            final(self).edge_joint_handles@.len() == old(self).edge_joint_handles@.len() + 1,
            final(self).edge_joint_handles@.drop_last() == old(self).edge_joint_handles@,
            !old(self).spans().contains_key(final(self).edge_joint_handles@.last()),
            final(self).spans() == old(self).spans().insert(
                final(self).edge_joint_handles@.last(),
                (handle_a, handle_b),
            ),
            final(self).connections() == old(self).connections().push((handle_a, handle_b)),
            final(self).removals == old(self).removals,
            final(self).edge_joint_handles@.last().generation == old(self).removals,
    {
        let ghost before = *self;
        let handle = insert_joint(&mut self.impulse_joints, &bodies.bodies, handle_a, handle_b, spring);
        self.edge_joint_handles.push(handle);
        proof {
            let n = before.edge_joint_handles@.len() as int;
            assert(self.edge_joint_handles@.drop_last() =~= before.edge_joint_handles@);
            assert forall|i: int, j: int|
                0 <= i < j < self.edge_joint_handles@.len() implies self.edge_joint_handles@[i]
                != self.edge_joint_handles@[j] by {
                if j == n {
                    assert(before.spans().contains_key(before.edge_joint_handles@[i]));
                }
            }
            assert forall|other: JointHandle| #[trigger]
                self.spans().contains_key(other) implies self.edge_joint_handles@.contains(
                other,
            ) by {
                if other == handle {
                    assert(self.edge_joint_handles@[n] == handle);
                } else {
                    assert(before.spans().contains_key(other));
                    let i = choose|i: int|
                        0 <= i < before.edge_joint_handles@.len() && before.edge_joint_handles@[i]
                            == other;
                    assert(self.edge_joint_handles@[i] == other);
                }
            }
            assert(self.connections() =~= before.connections().push((handle_a, handle_b)));
            assert forall|other: JointHandle| #[trigger]
                self.spans().contains_key(other) implies other.generation <= self.removals by {
                if other != handle {
                    assert(before.spans().contains_key(other));
                }
            }
        }
    }

    /// The number of tracked joints.
    pub fn joint_count(&self) -> (count: usize)
        ensures
            count == self.edge_joint_handles@.len(),
            count == self.connections().len(),
    {
        self.edge_joint_handles.len()
    }

    /// Makes one spring joint for every registry edge both of whose nodes
    /// have a body, in the order of the edges, and tracks them after the
    /// joints tracked before. Every joint made is a new one: its handle
    /// carries the count of removals as its generation.
    pub fn create_joints_from_registry<P>(
        &mut self,
        registry: &NodeRegistry<P>,
        bodies: &BodyManager,
        spring: &GenericJoint,
    )
        requires
            old(self).wf(),
            bodies.wf(),
        ensures
            final(self).wf(),
            final(self).connections() == old(self).connections() + materialized_edges(
                registry.edges(),
                bodies.body_map@,
            ),
            final(self).removals == old(self).removals,
            final(self).edge_joint_handles@.len() >= old(self).edge_joint_handles@.len(),
            final(self).edge_joint_handles@.take(old(self).edge_joint_handles@.len() as int)
                == old(self).edge_joint_handles@,
            forall|i: int|
                old(self).edge_joint_handles@.len() <= i < final(self).edge_joint_handles@.len()
                    ==> (#[trigger] final(self).edge_joint_handles@[i]).generation == old(self).removals && !old(self).spans().contains_key(final(self).edge_joint_handles@[i]),
    {
        let count = registry.edge_count();
        let mut k: usize = 0;
        proof {
            assert(registry.edges().take(0) =~= Seq::<(NodeId, NodeId)>::empty());
            assert(self.connections() =~= old(self).connections() + materialized_edges(
                registry.edges().take(0),
                bodies.body_map@,
            ));
            assert(self.edge_joint_handles@.take(old(self).edge_joint_handles@.len() as int)
                =~= old(self).edge_joint_handles@);
        }
        while k < count
            invariant
                k <= count,
                count == registry.edges().len(),
                self.wf(),
                bodies.wf(),
                self.connections() == old(self).connections() + materialized_edges(
                    registry.edges().take(k as int),
                    bodies.body_map@,
                ),
                self.removals == old(self).removals,
                self.edge_joint_handles@.len() >= old(self).edge_joint_handles@.len(),
                self.edge_joint_handles@.take(old(self).edge_joint_handles@.len() as int) == old(self).edge_joint_handles@,
                forall|i: int|
                    old(self).edge_joint_handles@.len() <= i < self.edge_joint_handles@.len() ==> (
                    #[trigger] self.edge_joint_handles@[i]).generation == old(self).removals
                        && !old(self).spans().contains_key(self.edge_joint_handles@[i]),
                forall|handle: JointHandle| #[trigger]
                    old(self).spans().contains_key(handle) ==> self.spans().contains_key(handle),
            decreases count - k,
        {
            let edge = registry.edge_at(k);
            proof {
                assert(registry.edges().take(k + 1).drop_last() =~= registry.edges().take(k as int));
                assert(registry.edges().take(k + 1).last() == edge);
            }
            let first = bodies.get_body_handle(edge.0);
            let second = bodies.get_body_handle(edge.1);
            match (first, second) {
                (Some(handle_a), Some(handle_b)) => {
                    let ghost before = *self;
                    assert(bodies.body_map@.contains_key(edge.0.0));
                    assert(bodies.body_map@.contains_key(edge.1.0));
                    self.create_spring_joint(bodies, handle_a, handle_b, spring);
                    proof {
                        let n = before.edge_joint_handles@.len() as int;
                        let start = old(self).edge_joint_handles@.len() as int;
                        assert(self.connections() =~= old(self).connections() + materialized_edges(
                            registry.edges().take(k + 1),
                            bodies.body_map@,
                        ));
                        assert forall|i: int| 0 <= i < n implies self.edge_joint_handles@[i]
                            == before.edge_joint_handles@[i] by {
                            assert(self.edge_joint_handles@.drop_last()[i]
                                == before.edge_joint_handles@[i]);
                        }
                        assert(self.edge_joint_handles@.take(start) =~= old(self).edge_joint_handles@) by {
                            assert forall|i: int| 0 <= i < start implies self.edge_joint_handles@[i]
                                == old(self).edge_joint_handles@[i] by {
                                assert(before.edge_joint_handles@.take(start)[i] == old(self).edge_joint_handles@[i]);
                            }
                        }
                        assert forall|i: int|
                            start <= i < self.edge_joint_handles@.len() implies (
                        #[trigger] self.edge_joint_handles@[i]).generation == old(self).removals
                            && !old(self).spans().contains_key(self.edge_joint_handles@[i]) by {
                            if i == n {
                                let made = self.edge_joint_handles@[n];
                                assert(made == self.edge_joint_handles@.last());
                                if old(self).spans().contains_key(made) {
                                    assert(before.spans().contains_key(made));
                                }
                            }
                        }
                    }
                },
                _ => {},
            }
            k += 1;
        }
        assert(registry.edges().take(k as int) =~= registry.edges());
    }

    /// Removes every tracked joint from the set and forgets the handles.
    /// Where the engine's counter has no room for that many removals,
    /// nothing is changed.
    pub fn clear_joints(&mut self)
        requires
            old(self).wf(),
        ensures
            final(self).wf(),
            old(self).can_rebuild() ==> final(self).edge_joint_handles@.len() == 0 && final(self).spans().dom() == Set::<JointHandle>::empty() && final(self).removals == old(self).removals + old(self).edge_joint_handles@.len(),
            !old(self).can_rebuild() ==> final(self).edge_joint_handles@ == old(self).edge_joint_handles@ && final(self).spans() == old(self).spans() && final(self).removals == old(self).removals,
    {
        let count = self.edge_joint_handles.len();
        if count > (u32::MAX - self.removals) as usize {
            return ;
        }
        let mut k: usize = 0;
        while k < count
            invariant
                k <= count,
                count == self.edge_joint_handles@.len(),
                self.edge_joint_handles@ == old(self).edge_joint_handles@,
                old(self).wf(),
                old(self).can_rebuild(),
                self.removals == old(self).removals + k,
                self.removals == joint_removals(self.impulse_joints),
                forall|handle: JointHandle| #[trigger]
                    self.spans().contains_key(handle) ==> exists|i: int|
                        k <= i < count && self.edge_joint_handles@[i] == handle,
                forall|i: int|
                    k <= i < count ==> self.spans().contains_key(
                        #[trigger] self.edge_joint_handles@[i],
                    ),
            decreases count - k,
        {
            let handle = self.edge_joint_handles[k];
            let ghost before = self.spans();
            remove_joint(&mut self.impulse_joints, handle);
            self.removals = self.removals + 1;
            proof {
                assert(before.contains_key(handle));
                assert forall|other: JointHandle| #[trigger]
                    self.spans().contains_key(other) implies exists|i: int|
                    k + 1 <= i < count && self.edge_joint_handles@[i] == other by {
                    assert(before.contains_key(other));
                    let i = choose|i: int| k <= i < count && self.edge_joint_handles@[i] == other;
                    assert(i != k);
                }
                assert forall|i: int| k + 1 <= i < count implies self.spans().contains_key(
                    #[trigger] self.edge_joint_handles@[i],
                ) by {
                    assert(old(self).edge_joint_handles@[k as int] != old(self).edge_joint_handles@[i]);
                    assert(before.contains_key(self.edge_joint_handles@[i]));
                }
            }
            k += 1;
        }
        proof {
            assert forall|handle: JointHandle| !self.spans().contains_key(handle) by {
                if self.spans().contains_key(handle) {
                    let i = choose|i: int| k <= i < count && self.edge_joint_handles@[i] == handle;
                }
            }
            assert(self.spans().dom() =~= Set::<JointHandle>::empty());
        }
        self.edge_joint_handles.clear();
    }

    /// Rebuilds the joints: removes every tracked joint, then makes one
    /// spring joint, with the parameters that `spring` carries, for every
    /// registry edge both of whose nodes have a body. Afterwards the tracked
    /// joints are those, and no others, and each of them is a new joint:
    /// none of the joints from before is left. Where the engine's counter
    /// has no room for the removals, nothing is changed.
    pub fn update_joint_strengths<P>(
        &mut self,
        registry: &NodeRegistry<P>,
        bodies: &BodyManager,
        spring: &GenericJoint,
    )
        requires
            old(self).wf(),
            bodies.wf(),
        ensures
            final(self).wf(),
            old(self).can_rebuild() ==> {
                &&& final(self).connections() == materialized_edges(
                    registry.edges(),
                    bodies.body_map@,
                )
                &&& final(self).removals == old(self).removals + old(self).edge_joint_handles@.len()
                &&& forall|k: int|
                    0 <= k < final(self).edge_joint_handles@.len() ==> !old(self).spans().contains_key(#[trigger] final(self).edge_joint_handles@[k])
                &&& forall|handle: JointHandle| #[trigger]
                    old(self).spans().contains_key(handle) ==> !final(self).spans().contains_key(
                        handle,
                    )
            },
            !old(self).can_rebuild() ==> final(self).edge_joint_handles@ == old(self).edge_joint_handles@ && final(self).spans() == old(self).spans() && final(self).removals == old(self).removals,
    {
        if self.edge_joint_handles.len() > (u32::MAX - self.removals) as usize {
            return ;
        }
        self.clear_joints();
        let ghost cleared = *self;
        assert(self.connections() =~= Seq::<(BodyHandle, BodyHandle)>::empty());
        self.create_joints_from_registry(registry, bodies, spring);
        proof {
            assert forall|k: int| 0 <= k < self.edge_joint_handles@.len() implies !old(self).spans().contains_key(#[trigger] self.edge_joint_handles@[k]) by {
                let made = self.edge_joint_handles@[k];
                assert(made.generation == cleared.removals);
                if old(self).spans().contains_key(made) {
                    assert(made.generation <= old(self).removals);
                    assert(old(self).edge_joint_handles@.contains(made));
                    assert(old(self).edge_joint_handles@.len() > 0);
                }
            }
            assert forall|handle: JointHandle| #[trigger]
                old(self).spans().contains_key(handle) implies !self.spans().contains_key(
                handle,
            ) by {
                if self.spans().contains_key(handle) {
                    assert(self.edge_joint_handles@.contains(handle));
                    let k = choose|k: int|
                        0 <= k < self.edge_joint_handles@.len() && self.edge_joint_handles@[k]
                            == handle;
                    assert(!old(self).spans().contains_key(self.edge_joint_handles@[k]));
                }
            }
        }
    }
}

} // verus!
