//! Ownership of the engine's bodies and colliders, and the map from node
//! identity to body handle.

use vstd::prelude::*;
use std::collections::HashMap;
use rapier2d::dynamics::{IslandManager, RigidBody, RigidBodySet};
use rapier2d::geometry::{Collider, ColliderSet};
use crate::graph::node::NodeId;
use crate::graph::registry::NodeRegistry;
use crate::physics::engine::{
    bodies_of, body_mut, body_ref, collider_parents, collider_removals, colliders_of,
    contains_body, insert_body, insert_collider_with_parent, new_body_set, new_collider_set,
    remove_collider, set_body_kind,
};
use crate::physics::handles::{BodyHandle, BodyKind, ColliderHandle};

verus! {

/// The rigid bodies and colliders of the simulation, one of each per node.
///
/// The fields are public because the integration step works on the two
/// sets directly. A step moves bodies; it must not add or remove a body or
/// a collider, nor change a body's kind or a collider's parent.
pub struct BodyManager {
    pub bodies: RigidBodySet,
    pub colliders: ColliderSet,
    /// The body of each node, keyed by the number of the node's id.
    pub body_map: HashMap<u32, BodyHandle>,
    /// How many colliders have been removed from `colliders`. The engine
    /// counts them in 32 bits and tells colliders apart by that count, so
    /// no collider is replaced once the count is at its last value.
    pub removals: u32,
}

/// The engine values from which the body of one node is made.
pub struct BodyParts {
    pub body: RigidBody,
    pub collider: Collider,
}

/// Under `parents`, the collider is live and attached to the body.
pub open spec fn is_attached(
    parents: Map<ColliderHandle, Option<BodyHandle>>,
    collider: ColliderHandle,
    body: BodyHandle,
) -> bool {
    parents.contains_key(collider) && parents[collider] == Some(body)
}

/// Under `parents`, a collider attached to the body, if there is one.
pub open spec fn some_collider_of(
    parents: Map<ColliderHandle, Option<BodyHandle>>,
    body: BodyHandle,
) -> ColliderHandle {
    choose|collider: ColliderHandle| is_attached(parents, collider, body)
}

/// A drag that begins and ends leaves the kinds as they were: making a
/// dynamic body kinematic and then dynamic again changes the kind of no
/// body.
pub proof fn lemma_drag_round_trip(kinds: Map<BodyHandle, BodyKind>, body: BodyHandle)
    requires
        kinds.contains_key(body),
        kinds[body] == BodyKind::Dynamic,
    ensures
        kinds.insert(body, BodyKind::KinematicPositionBased).insert(body, BodyKind::Dynamic)
            == kinds,
{
    assert(kinds.insert(body, BodyKind::KinematicPositionBased).insert(body, BodyKind::Dynamic)
        =~= kinds);
}

impl BodyManager {
    /// The body of a node, if the node has one.
    pub open spec fn handle_of(&self, id: NodeId) -> Option<BodyHandle> {
        if self.body_map@.contains_key(id.0) {
            Some(self.body_map@[id.0])
        } else {
            None
        }
    }

    /// The node has a body.
    pub open spec fn materialized(&self, id: NodeId) -> bool {
        self.body_map@.contains_key(id.0)
    }

    /// The kind of each live body.
    pub open spec fn kinds(&self) -> Map<BodyHandle, BodyKind> {
        bodies_of(self.bodies)
    }

    /// The parent of each live collider.
    pub open spec fn parents(&self) -> Map<ColliderHandle, Option<BodyHandle>> {
        colliders_of(self.colliders)
    }

    /// The collider is live and attached to the body.
    pub open spec fn attached(&self, collider: ColliderHandle, body: BodyHandle) -> bool {
        is_attached(self.parents(), collider, body)
    }

    /// A collider attached to the body, if there is one.
    pub open spec fn collider_of(&self, body: BodyHandle) -> ColliderHandle {
        some_collider_of(self.parents(), body)
    }

    /// Exactly one collider is attached to the body.
    pub open spec fn has_single_collider(&self, body: BodyHandle) -> bool {
        &&& self.attached(self.collider_of(body), body)
        &&& forall|other: ColliderHandle| #[trigger]
            self.attached(other, body) ==> other == self.collider_of(body)
    }

    /// The invariant of the manager: every mapped body is live and carries
    /// exactly one collider, no two nodes share a body, no collider is
    /// attached to a body that is gone, and the count of removed colliders
    /// is the engine's, which no live collider is ahead of.
    pub open spec fn wf(&self) -> bool {
        &&& forall|key: u32| #[trigger]
            self.body_map@.contains_key(key) ==> self.kinds().contains_key(self.body_map@[key])
                && self.has_single_collider(self.body_map@[key])
        &&& forall|first: u32, second: u32|
            #![trigger self.body_map@[first], self.body_map@[second]]
            self.body_map@.contains_key(first) && self.body_map@.contains_key(second) && first
                != second ==> self.body_map@[first] != self.body_map@[second]
        &&& forall|collider: ColliderHandle, body: BodyHandle| #[trigger]
            self.attached(collider, body) ==> self.kinds().contains_key(body)
        &&& self.removals == collider_removals(self.colliders)
        &&& forall|collider: ColliderHandle| #[trigger]
            self.parents().contains_key(collider) ==> collider.generation <= self.removals
    }

    /// A manager with the same map, the same live bodies and the same
    /// colliders as this one is well formed if this one is.
    pub proof fn lemma_same_structure(&self, after: Self)
        requires
            self.wf(),
            after.body_map@ == self.body_map@,
            after.kinds().dom() == self.kinds().dom(),
            after.colliders == self.colliders,
            after.removals == self.removals,
        ensures
            after.wf(),
            forall|body: BodyHandle| after.collider_of(body) == self.collider_of(body),
    {
        assert(after.parents() == self.parents());
        assert forall|collider: ColliderHandle| #[trigger]
            after.parents().contains_key(collider) implies collider.generation
            <= after.removals by {
            assert(self.parents().contains_key(collider));
        }
        assert forall|key: u32| #[trigger] after.body_map@.contains_key(key) implies after.kinds().contains_key(
            after.body_map@[key],
        ) && after.has_single_collider(after.body_map@[key]) by {
            let mapped = self.body_map@[key];
            assert(self.has_single_collider(mapped));
            assert(self.kinds().dom().contains(mapped));
            assert forall|other: ColliderHandle| #[trigger]
                after.attached(other, mapped) implies other == after.collider_of(mapped) by {
                assert(self.attached(other, mapped));
            }
        }
        assert forall|collider: ColliderHandle, body: BodyHandle| #[trigger]
            after.attached(collider, body) implies after.kinds().contains_key(body) by {
            assert(self.attached(collider, body));
            assert(self.kinds().dom().contains(body));
        }
    }

    /// A manager without bodies.
    pub fn new() -> (manager: Self)
        ensures
            manager.wf(),
            manager.body_map@.len() == 0,
            manager.kinds().dom() == Set::<BodyHandle>::empty(),
            manager.parents().dom() == Set::<ColliderHandle>::empty(),
            manager.removals == 0,
    {
        BodyManager {
            bodies: new_body_set(),
            colliders: new_collider_set(),
            body_map: HashMap::new(),
            removals: 0,
        }
    }

    /// The body of a node, if the node has one.
    pub fn get_body_handle(&self, node_id: NodeId) -> (handle: Option<BodyHandle>)
        ensures
            handle == self.handle_of(node_id),
    {
        match self.body_map.get(&node_id.0) {
            Some(handle) => Some(*handle),
            None => None,
        }
    }

    /// The body of a node, if the node has a live one.
    pub fn get_body(&self, node_id: NodeId) -> (found: Option<&RigidBody>)
        ensures
            found is Some <==> self.materialized(node_id) && self.kinds().contains_key(
                self.body_map@[node_id.0],
            ),
            self.wf() ==> (found is Some <==> self.materialized(node_id)),
    {
        match self.get_body_handle(node_id) {
            Some(handle) => body_ref(&self.bodies, handle),
            None => None,
        }
    }

    /// The body of a node, if the node has a live one, to be changed in
    /// place. Whatever is done to it, the map, the colliders and the live
    /// bodies stay, and no other body changes its kind.
    pub fn get_body_mut(&mut self, node_id: NodeId) -> (found: Option<&mut RigidBody>)
        requires
            old(self).wf(),
        ensures
            found is Some <==> old(self).materialized(node_id),
            final(self).wf(),
            final(self).body_map@ == old(self).body_map@,
            final(self).parents() == old(self).parents(),
            final(self).removals == old(self).removals,
            final(self).kinds().dom() == old(self).kinds().dom(),
            forall|other: BodyHandle|
                old(self).handle_of(node_id) != Some(other) && old(self).kinds().contains_key(
                    other,
                ) ==> final(self).kinds()[other] == old(self).kinds()[other],
    {
        let ghost before = *self;
        proof {
            assert forall|after: BodyManager|
                after.body_map@ == before.body_map@ && after.kinds().dom() == before.kinds().dom()
                    && after.colliders == before.colliders && after.removals
                    == before.removals implies #[trigger] after.wf() by {
                before.lemma_same_structure(after);
            }
        }
        match self.get_body_handle(node_id) {
            Some(handle) => {
                body_mut(&mut self.bodies, handle)
            },
            None => None,
        }
    }

    /// Gives a node its body: inserts `body`, makes it dynamic, attaches
    /// `collider` to it, and maps the node to the new handle. A node that
    /// had a body before is mapped to the new one.
    pub fn create_body_for_node(&mut self, node_id: NodeId, body: RigidBody, collider: Collider) -> (handle: BodyHandle)
        requires
            old(self).wf(),
        ensures
            final(self).wf(),
            !old(self).kinds().contains_key(handle),
            final(self).kinds() == old(self).kinds().insert(handle, BodyKind::Dynamic),
            final(self).body_map@ == old(self).body_map@.insert(node_id.0, handle),
            !old(self).parents().contains_key(final(self).collider_of(handle)),
            final(self).parents() == old(self).parents().insert(
                final(self).collider_of(handle),
                Some(handle),
            ),
            final(self).removals == old(self).removals,
    {
        let ghost before = *self;
        let handle = insert_body(&mut self.bodies, body);
        set_body_kind(&mut self.bodies, handle, BodyKind::Dynamic);
        assert(self.kinds() =~= before.kinds().insert(handle, BodyKind::Dynamic));
        let collider_handle = insert_collider_with_parent(
            &mut self.colliders,
            collider,
            handle,
            &mut self.bodies,
        );
        self.body_map.insert(node_id.0, handle);
        proof {
            assert forall|other: ColliderHandle| #[trigger]
                self.attached(other, handle) implies other == collider_handle by {
                if other != collider_handle {
                    assert(before.attached(other, handle));
                }
            }
            assert(self.attached(collider_handle, handle));
            assert(self.attached(self.collider_of(handle), handle));
            assert(self.collider_of(handle) == collider_handle);
            assert forall|key: u32| #[trigger] self.body_map@.contains_key(key) implies self.kinds().contains_key(
                self.body_map@[key],
            ) && self.has_single_collider(self.body_map@[key]) by {
                if key != node_id.0 {
                    let mapped = before.body_map@[key];
                    assert(before.body_map@.contains_key(key));
                    assert(before.has_single_collider(mapped));
                    assert(mapped != handle);
                    let single = before.collider_of(mapped);
                    assert(self.attached(single, mapped));
                    assert forall|other: ColliderHandle| #[trigger]
                        self.attached(other, mapped) implies other == single by {
                        assert(before.attached(other, mapped));
                    }
                    assert(self.attached(self.collider_of(mapped), mapped));
                    assert(self.collider_of(mapped) == single);
                }
            }
            assert forall|first: u32, second: u32|
                #![trigger self.body_map@[first], self.body_map@[second]]
                self.body_map@.contains_key(first) && self.body_map@.contains_key(second) && first
                    != second implies self.body_map@[first] != self.body_map@[second] by {
                if first != node_id.0 {
                    assert(before.body_map@.contains_key(first));
                }
                if second != node_id.0 {
                    assert(before.body_map@.contains_key(second));
                }
            }
            assert forall|other: ColliderHandle, body: BodyHandle| #[trigger]
                self.attached(other, body) implies self.kinds().contains_key(body) by {
                if other != collider_handle {
                    assert(before.attached(other, body));
                }
            }
        }
        handle
    }

    /// Gives the body of a node the kind `kind`. A node without a live body
    /// changes nothing.
    fn set_node_kind(&mut self, node_id: NodeId, kind: BodyKind)
        requires
            old(self).wf(),
        ensures
            final(self).wf(),
            final(self).body_map@ == old(self).body_map@,
            final(self).parents() == old(self).parents(),
            final(self).removals == old(self).removals,
            final(self).kinds() == (match old(self).handle_of(node_id) {
                Some(handle) => old(self).kinds().insert(handle, kind),
                None => old(self).kinds(),
            }),
    {
        let ghost before = *self;
        if let Some(handle) = self.get_body_handle(node_id) {
            if contains_body(&self.bodies, handle) {
                set_body_kind(&mut self.bodies, handle, kind);
                proof {
                    assert(self.kinds().dom() =~= before.kinds().dom());
                    before.lemma_same_structure(*self);
                }
            }
        }
    }

    /// Suspends the physics of a node for a drag: its body becomes
    /// kinematic, under the same handle. An unknown node changes nothing.
    pub fn set_node_kinematic(&mut self, node_id: NodeId)
        requires
            old(self).wf(),
        ensures
            final(self).wf(),
            final(self).body_map@ == old(self).body_map@,
            final(self).parents() == old(self).parents(),
            final(self).kinds() == (match old(self).handle_of(node_id) {
                Some(handle) => old(self).kinds().insert(handle, BodyKind::KinematicPositionBased),
                None => old(self).kinds(),
            }),
    {
        self.set_node_kind(node_id, BodyKind::KinematicPositionBased);
    }

    /// Resumes the physics of a node after a drag: its body becomes
    /// dynamic, under the same handle. An unknown node changes nothing.
    pub fn set_node_dynamic(&mut self, node_id: NodeId)
        requires
            old(self).wf(),
        ensures
            final(self).wf(),
            final(self).body_map@ == old(self).body_map@,
            final(self).parents() == old(self).parents(),
            final(self).kinds() == (match old(self).handle_of(node_id) {
                Some(handle) => old(self).kinds().insert(handle, BodyKind::Dynamic),
                None => old(self).kinds(),
            }),
    {
        self.set_node_kind(node_id, BodyKind::Dynamic);
    }

    /// The collider attached to a body: the first one of the engine's
    /// listing whose parent is the body.
    fn find_collider(&self, body: BodyHandle) -> (found: Option<ColliderHandle>)
        ensures
            found matches Some(collider) ==> self.attached(collider, body),
            found is None ==> forall|collider: ColliderHandle| !self.attached(collider, body),
    {
        let listing = collider_parents(&self.colliders);
        let mut i: usize = 0;
        while i < listing.len()
            invariant
                i <= listing.len(),
                forall|j: int| 0 <= j < i ==> (#[trigger] listing@[j]).1 != Some(body),
                forall|j: int|
                    0 <= j < listing@.len() ==> self.parents().contains_key(
                        (#[trigger] listing@[j]).0,
                    ) && self.parents()[listing@[j].0] == listing@[j].1,
            decreases listing.len() - i,
        {
            let entry = listing[i];
            let hit = match entry.1 {
                Some(parent) => parent == body,
                None => false,
            };
            if hit {
                return Some(entry.0);
            }
            i += 1;
        }
        proof {
            assert forall|collider: ColliderHandle| !self.attached(collider, body) by {
                if self.attached(collider, body) {
                    assert(colliders_of(self.colliders).contains_key(collider));
                    let j = choose|j: int|
                        0 <= j < listing@.len() && (#[trigger] listing@[j]).0 == collider;
                    assert(listing@[j].1 == Some(body));
                }
            }
        }
        None
    }

    /// Resizes a node: removes the collider of the node's body from the
    /// collider set and attaches `collider`, under a handle that was not
    /// live, in its place. The body keeps exactly one collider, and the
    /// count of removed colliders goes up by one. A node without a body
    /// changes nothing. Nor does a resize once the count of removed
    /// colliders is at its last value: the engine could not tell a further
    /// collider from an earlier one.
    pub fn update_node_size(&mut self, node_id: NodeId, collider: Collider, island_manager: &mut IslandManager)
        requires
            old(self).wf(),
        ensures
            final(self).wf(),
            final(self).body_map@ == old(self).body_map@,
            final(self).kinds() == old(self).kinds(),
            old(self).handle_of(node_id) is None ==> final(self).parents() == old(self).parents()
                && final(self).removals == old(self).removals,
            old(self).handle_of(node_id) matches Some(body) ==> {
                let removed = old(self).collider_of(body);
                let attached = final(self).collider_of(body);
                &&& final(self).has_single_collider(body)
                &&& !old(self).parents().remove(removed).contains_key(attached)
                &&& final(self).parents() == old(self).parents().remove(removed).insert(
                    attached,
                    Some(body),
                )
                &&& old(self).removals < u32::MAX ==> !final(self).parents().contains_key(removed)
                    && !old(self).parents().contains_key(attached) && final(self).removals
                    == old(self).removals + 1 && attached.generation == old(self).removals + 1
                &&& old(self).removals == u32::MAX ==> final(self).parents() == old(self).parents() && final(self).removals == old(self).removals
            },
    {
        let ghost before = *self;
        if let Some(body) = self.get_body_handle(node_id) {
            assert(before.body_map@.contains_key(node_id.0));
            assert(before.has_single_collider(body));
            if let Some(previous) = self.find_collider(body) {
                assert(previous == before.collider_of(body));
                if self.removals < u32::MAX {
                    remove_collider(
                        &mut self.colliders,
                        previous,
                        island_manager,
                        &mut self.bodies,
                    );
                    self.removals = self.removals + 1;
                    let ghost between = *self;
                    let attached = insert_collider_with_parent(
                        &mut self.colliders,
                        collider,
                        body,
                        &mut self.bodies,
                    );
                    proof {
                        assert(previous.generation <= before.removals);
                        assert(attached.generation == before.removals + 1);
                        assert(attached != previous);
                        assert forall|other: ColliderHandle| #[trigger]
                            self.attached(other, body) implies other == attached by {
                            if other != attached {
                                assert(between.attached(other, body));
                                assert(before.attached(other, body));
                            }
                        }
                        assert(self.attached(attached, body));
                        assert(self.attached(self.collider_of(body), body));
                        assert(self.collider_of(body) == attached);
                        assert forall|key: u32| #[trigger] self.body_map@.contains_key(key) implies self.kinds().contains_key(
                            self.body_map@[key],
                        ) && self.has_single_collider(self.body_map@[key]) by {
                            let mapped = before.body_map@[key];
                            if mapped != body {
                                assert(before.has_single_collider(mapped));
                                let single = before.collider_of(mapped);
                                assert(before.attached(single, mapped));
                                assert(single != previous);
                                assert(self.attached(single, mapped));
                                assert forall|other: ColliderHandle| #[trigger]
                                    self.attached(other, mapped) implies other == single by {
                                    assert(between.attached(other, mapped));
                                    assert(before.attached(other, mapped));
                                }
                                assert(self.attached(self.collider_of(mapped), mapped));
                                assert(self.collider_of(mapped) == single);
                            }
                        }
                        assert forall|other: ColliderHandle, parent: BodyHandle| #[trigger]
                            self.attached(other, parent) implies self.kinds().contains_key(
                            parent,
                        ) by {
                            if other != attached {
                                assert(between.attached(other, parent));
                                assert(before.attached(other, parent));
                            }
                        }
                        assert forall|other: ColliderHandle| #[trigger]
                            self.parents().contains_key(other) implies other.generation
                            <= self.removals by {
                            if other != attached {
                                assert(before.parents().contains_key(other));
                            }
                        }
                    }
                } else {
                    proof {
                        let removed = before.collider_of(body);
                        assert(before.parents().remove(removed).insert(removed, Some(body))
                            =~= before.parents());
                    }
                }
            }
        }
    }

    /// Gives every node of the registry its body, made from the part at
    /// the node's index. Afterwards every node of the registry has a
    /// dynamic body, and no node outside the registry has gained one.
    pub fn create_bodies_from_registry<P>(&mut self, registry: &NodeRegistry<P>, parts: Vec<BodyParts>)
        requires
            old(self).wf(),
            registry.wf(),
            parts@.len() == registry.nodes().len(),
        ensures
            final(self).wf(),
            forall|i: int|
                0 <= i < registry.nodes().len() ==> final(self).materialized(
                    (#[trigger] registry.nodes()[i]).id,
                ) && final(self).kinds()[final(self).body_map@[registry.nodes()[i].id.0]]
                    == BodyKind::Dynamic,
            forall|key: u32| #[trigger]
                final(self).body_map@.contains_key(key) ==> old(self).body_map@.contains_key(key)
                    || registry.contains(NodeId(key)),
            forall|key: u32|
                old(self).body_map@.contains_key(key) && !registry.contains(NodeId(key))
                    ==> #[trigger] final(self).body_map@.contains_key(key) && final(self).body_map@[key] == old(self).body_map@[key],
            forall|handle: BodyHandle| #[trigger]
                old(self).kinds().contains_key(handle) ==> final(self).kinds().contains_key(
                    handle,
                ) && final(self).kinds()[handle] == old(self).kinds()[handle],
    {
        let mut parts = parts;
        let count = registry.node_count();
        let mut i: usize = count;
        while i > 0
            invariant
                i <= count,
                count == registry.nodes().len(),
                parts@.len() == i,
                registry.wf(),
                self.wf(),
                forall|t: int|
                    i <= t < count ==> self.materialized((#[trigger] registry.nodes()[t]).id)
                        && self.kinds().contains_key(self.body_map@[registry.nodes()[t].id.0])
                        && self.kinds()[self.body_map@[registry.nodes()[t].id.0]]
                        == BodyKind::Dynamic,
                forall|key: u32| #[trigger]
                    self.body_map@.contains_key(key) ==> old(self).body_map@.contains_key(key)
                        || registry.contains(NodeId(key)),
                forall|key: u32|
                    old(self).body_map@.contains_key(key) && !registry.contains(NodeId(key))
                        ==> #[trigger] self.body_map@.contains_key(key) && self.body_map@[key]
                        == old(self).body_map@[key],
                forall|handle: BodyHandle| #[trigger]
                    old(self).kinds().contains_key(handle) ==> self.kinds().contains_key(handle)
                        && self.kinds()[handle] == old(self).kinds()[handle],
            decreases i,
        {
            i -= 1;
            let part = parts.pop().unwrap();
            let id = registry.node_at(i).id;
            let ghost before = *self;
            let handle = self.create_body_for_node(id, part.body, part.collider);
            proof {
                assert(registry.nodes()[i as int].id == id);
                registry.lemma_position_unique(i as int);
                assert forall|t: int| i <= t < count implies self.materialized(
                    (#[trigger] registry.nodes()[t]).id,
                ) && self.kinds().contains_key(self.body_map@[registry.nodes()[t].id.0])
                    && self.kinds()[self.body_map@[registry.nodes()[t].id.0]]
                    == BodyKind::Dynamic by {
                    if t > i {
                        registry.lemma_position_unique(t);
                        let other = registry.nodes()[t].id;
                        assert(other != id);
                        assert(before.materialized(other));
                        assert(self.body_map@[other.0] == before.body_map@[other.0]);
                        assert(before.kinds().contains_key(before.body_map@[other.0]));
                        assert(before.body_map@[other.0] != handle);
                    }
                }
                assert forall|key: u32| #[trigger]
                    self.body_map@.contains_key(key) implies old(self).body_map@.contains_key(key)
                    || registry.contains(NodeId(key)) by {
                    if key == id.0 {
                        assert(NodeId(key) == id);
                    } else {
                        assert(before.body_map@.contains_key(key));
                    }
                }
                assert forall|key: u32|
                    old(self).body_map@.contains_key(key) && !registry.contains(
                        NodeId(key),
                    ) implies #[trigger] self.body_map@.contains_key(key) && self.body_map@[key]
                    == old(self).body_map@[key] by {
                    assert(NodeId(id.0) == id);
                    assert(key != id.0);
                    assert(before.body_map@.contains_key(key));
                }
                assert forall|known: BodyHandle| #[trigger]
                    old(self).kinds().contains_key(known) implies self.kinds().contains_key(
                    known,
                ) && self.kinds()[known] == old(self).kinds()[known] by {
                    assert(before.kinds().contains_key(known));
                    assert(known != handle);
                }
            }
        }
    }
}

} // verus!
