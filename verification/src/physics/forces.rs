//! Which pairs of nodes the custom force laws act on.
//!
//! The force laws themselves are numeric and are evaluated by the caller.
//! What is decided here is discrete: the pairs that repel each other with
//! the inputs of their separation threshold, and the pairs that attract
//! each other because they share a category. Each pair is listed once; the
//! caller gives its two nodes impulses that are equal and opposite.

use vstd::prelude::*;
use crate::graph::node::NodeId;
use crate::physics::body_manager::BodyManager;
use crate::physics::engine::contains_body;
use crate::physics::handles::BodyHandle;
use crate::graph::registry::{NodeRecord, NodeRegistry};
use crate::text::str_eq;

verus! {

/// One pair of nodes that may repel each other, with what their minimum
/// separation is computed from.
#[derive(Debug, Clone, Copy, PartialEq, Eq, Structural)]
pub struct RepulsionPair {
    pub first: NodeId,
    pub second: NodeId,
    pub radius_first: i32,
    pub radius_second: i32,
    /// Whether one of the two is the anchor, so that the larger base
    /// distance kept around the anchor applies.
    pub near_anchor: bool,
}

/// Enumerates the node pairs of the custom force laws.
pub struct ForceCalculator;

/// The two records name the same category.
pub open spec fn shares_category<P>(a: NodeRecord<P>, b: NodeRecord<P>) -> bool {
    a.category matches Some(left) && b.category matches Some(right) && left@ == right@
}

impl ForceCalculator {
    /// The repulsion pair of the nodes at `i` and `j` of the registry.
    pub open spec fn repulsion_pair_at<P>(registry: &NodeRegistry<P>, i: int, j: int) -> RepulsionPair {
        RepulsionPair {
            first: registry.nodes()[i].id,
            second: registry.nodes()[j].id,
            radius_first: registry.nodes()[i].radius,
            radius_second: registry.nodes()[j].radius,
            near_anchor: registry.anchor() == Some(registry.nodes()[i].id) || registry.anchor()
                == Some(registry.nodes()[j].id),
        }
    }

    /// The nodes at `i` and `j` of the registry attract each other: `i`
    /// stands before `j`, they share a category, and neither is the anchor.
    pub open spec fn attracts_at<P>(registry: &NodeRegistry<P>, i: int, j: int) -> bool {
        &&& 0 <= i < j < registry.nodes().len()
        &&& shares_category(registry.nodes()[i], registry.nodes()[j])
        &&& registry.anchor() != Some(registry.nodes()[i].id)
        &&& registry.anchor() != Some(registry.nodes()[j].id)
    }

    /// Lists every pair of two different nodes once, the earlier node
    /// first, ordered by the first node and then by the second, both in
    /// insertion order. No pair is listed the other way round as well.
    pub fn repulsion_pairs<P>(registry: &NodeRegistry<P>) -> (pairs: Vec<RepulsionPair>)
        requires
            registry.wf(),
        ensures
            forall|k: int|
                0 <= k < pairs@.len() ==> registry.contains((#[trigger] pairs@[k]).first)
                    && registry.contains(pairs@[k].second) && registry.position_of(pairs@[k].first)
                    < registry.position_of(pairs@[k].second) && pairs@[k]
                    == Self::repulsion_pair_at(
                    registry,
                    registry.position_of(pairs@[k].first),
                    registry.position_of(pairs@[k].second),
                ),
            forall|i: int, j: int|
                0 <= i < j < registry.nodes().len() ==> pairs@.contains(
                    #[trigger] Self::repulsion_pair_at(registry, i, j),
                ),
            forall|k: int, m: int|
                0 <= k < m < pairs@.len() ==> Self::pair_before(
                    registry,
                    ((#[trigger] pairs@[k]).first, pairs@[k].second),
                    ((#[trigger] pairs@[m]).first, pairs@[m].second),
                ),
            forall|k: int, m: int|
                0 <= k < pairs@.len() && 0 <= m < pairs@.len() ==> !((
                #[trigger] pairs@[k]).first == (#[trigger] pairs@[m]).second && pairs@[k].second
                    == pairs@[m].first),
    {
        let count = registry.node_count();
        let mut pairs: Vec<RepulsionPair> = Vec::new();
        let ghost mut slots: Seq<(int, int)> = Seq::empty();
        let mut i: usize = 0;
        while i < count
            invariant
                i <= count,
                count == registry.nodes().len(),
                registry.wf(),
                slots.len() == pairs@.len(),
                forall|k: int|
                    0 <= k < slots.len() ==> 0 <= (#[trigger] slots[k]).0 < slots[k].1 < count
                        && slots[k].0 < i && pairs@[k] == Self::repulsion_pair_at(
                        registry,
                        slots[k].0,
                        slots[k].1,
                    ),
                forall|k: int, m: int|
                    0 <= k < m < slots.len() ==> (#[trigger] slots[k]).0 < (#[trigger] slots[m]).0
                        || (slots[k].0 == slots[m].0 && slots[k].1 < slots[m].1),
                forall|a: int, b: int| 0 <= a < b < count && a < i ==> slots.contains((a, b)),
            decreases count - i,
        {
            let first = registry.node_at(i);
            let first_anchor = registry.is_author_node(first.id);
            let mut j: usize = i + 1;
            while j < count
                invariant
                    i < count,
                    i < j <= count,
                    count == registry.nodes().len(),
                    registry.wf(),
                    *first == registry.nodes()[i as int],
                    first_anchor == (registry.anchor() == Some(first.id)),
                    slots.len() == pairs@.len(),
                    forall|k: int|
                        0 <= k < slots.len() ==> 0 <= (#[trigger] slots[k]).0 < slots[k].1 < count
                            && (slots[k].0 < i || (slots[k].0 == i && slots[k].1 < j)) && pairs@[k]
                            == Self::repulsion_pair_at(registry, slots[k].0, slots[k].1),
                    forall|k: int, m: int|
                        0 <= k < m < slots.len() ==> (#[trigger] slots[k]).0 < (
                        #[trigger] slots[m]).0 || (slots[k].0 == slots[m].0 && slots[k].1
                            < slots[m].1),
                    forall|a: int, b: int|
                        0 <= a < b < count && (a < i || (a == i && b < j)) ==> slots.contains(
                            (a, b),
                        ),
                decreases count - j,
            {
                let second = registry.node_at(j);
                let near_anchor = first_anchor || registry.is_author_node(second.id);
                let ghost before = slots;
                pairs.push(
                    RepulsionPair {
                        first: first.id,
                        second: second.id,
                        radius_first: first.radius,
                        radius_second: second.radius,
                        near_anchor,
                    },
                );
                proof {
                    slots = slots.push((i as int, j as int));
                    assert(slots[slots.len() - 1] == (i as int, j as int));
                    assert forall|a: int, b: int|
                        0 <= a < b < count && (a < i || (a == i && b < j + 1))
                        implies slots.contains((a, b)) by {
                        if a == i && b == j {
                            assert(slots[slots.len() - 1] == (a, b));
                        } else {
                            assert(before.contains((a, b)));
                            let k = choose|k: int| 0 <= k < before.len() && before[k] == (a, b);
                            assert(slots[k] == (a, b));
                        }
                    }
                }
                j += 1;
            }
            i += 1;
        }
        proof {
            assert forall|k: int| 0 <= k < pairs@.len() implies registry.contains(
                (#[trigger] pairs@[k]).first,
            ) && registry.contains(pairs@[k].second) && registry.position_of(pairs@[k].first)
                < registry.position_of(pairs@[k].second) && pairs@[k] == Self::repulsion_pair_at(
                registry,
                registry.position_of(pairs@[k].first),
                registry.position_of(pairs@[k].second),
            ) by {
                let slot = slots[k];
                registry.lemma_position_unique(slot.0);
                registry.lemma_position_unique(slot.1);
            }
            assert forall|a: int, b: int| 0 <= a < b < registry.nodes().len() implies pairs@.contains(
                #[trigger] Self::repulsion_pair_at(registry, a, b),
            ) by {
                assert(slots.contains((a, b)));
                let k = choose|k: int| 0 <= k < slots.len() && slots[k] == (a, b);
                assert(pairs@[k] == Self::repulsion_pair_at(registry, a, b));
            }
            assert forall|k: int, m: int| 0 <= k < m < pairs@.len() implies Self::pair_before(
                registry,
                ((#[trigger] pairs@[k]).first, pairs@[k].second),
                ((#[trigger] pairs@[m]).first, pairs@[m].second),
            ) by {
                registry.lemma_position_unique(slots[k].0);
                registry.lemma_position_unique(slots[k].1);
                registry.lemma_position_unique(slots[m].0);
                registry.lemma_position_unique(slots[m].1);
            }
            assert forall|k: int, m: int|
                0 <= k < pairs@.len() && 0 <= m < pairs@.len() implies !((
            #[trigger] pairs@[k]).first == (#[trigger] pairs@[m]).second && pairs@[k].second
                == pairs@[m].first) by {
                registry.lemma_position_unique(slots[k].0);
                registry.lemma_position_unique(slots[k].1);
                registry.lemma_position_unique(slots[m].0);
                registry.lemma_position_unique(slots[m].1);
            }
        }
        pairs
    }

    /// The pair `earlier` stands before the pair `later` when pairs are
    /// ordered by their first node and then by their second node, both in
    /// insertion order.
    pub open spec fn pair_before<P>(
        registry: &NodeRegistry<P>,
        earlier: (NodeId, NodeId),
        later: (NodeId, NodeId),
    ) -> bool {
        registry.position_of(earlier.0) < registry.position_of(later.0) || (registry.position_of(
            earlier.0,
        ) == registry.position_of(later.0) && registry.position_of(earlier.1)
            < registry.position_of(later.1))
    }

    /// Lists the pairs of nodes that attract each other because they share
    /// a category: every pair of two non-anchor nodes of one category, the
    /// earlier node first, each pair once, ordered by the first node and
    /// then by the second. With clustering disabled the list is empty.
    pub fn category_pairs<P>(registry: &NodeRegistry<P>, enabled: bool) -> (pairs: Vec<(NodeId, NodeId)>)
        requires
            registry.wf(),
        ensures
            !enabled ==> pairs@.len() == 0,
            forall|k: int|
                0 <= k < pairs@.len() ==> registry.contains((#[trigger] pairs@[k]).0)
                    && registry.contains(pairs@[k].1) && Self::attracts_at(
                    registry,
                    registry.position_of(pairs@[k].0),
                    registry.position_of(pairs@[k].1),
                ),
            enabled ==> forall|i: int, j: int| #[trigger]
                Self::attracts_at(registry, i, j) ==> pairs@.contains(
                    (registry.nodes()[i].id, registry.nodes()[j].id),
                ),
            forall|k: int, m: int|
                0 <= k < m < pairs@.len() ==> Self::pair_before(
                    registry,
                    #[trigger] pairs@[k],
                    #[trigger] pairs@[m],
                ),
    {
        let mut pairs: Vec<(NodeId, NodeId)> = Vec::new();
        if !enabled {
            return pairs;
        }
        let count = registry.node_count();
        let ghost mut slots: Seq<(int, int)> = Seq::empty();
        let mut i: usize = 0;
        while i < count
            invariant
                i <= count,
                count == registry.nodes().len(),
                registry.wf(),
                slots.len() == pairs@.len(),
                forall|k: int|
                    0 <= k < slots.len() ==> Self::attracts_at(
                        registry,
                        (#[trigger] slots[k]).0,
                        slots[k].1,
                    ) && slots[k].0 < i && pairs@[k] == (
                        registry.nodes()[slots[k].0].id,
                        registry.nodes()[slots[k].1].id,
                    ),
                forall|k: int, m: int|
                    0 <= k < m < slots.len() ==> (#[trigger] slots[k]).0 < (#[trigger] slots[m]).0
                        || (slots[k].0 == slots[m].0 && slots[k].1 < slots[m].1),
                forall|a: int, b: int| #[trigger]
                    Self::attracts_at(registry, a, b) && a < i ==> slots.contains((a, b)),
            decreases count - i,
        {
            let first = registry.node_at(i);
            let first_anchor = registry.is_author_node(first.id);
            let mut j: usize = i + 1;
            while j < count
                invariant
                    i < count,
                    i < j <= count,
                    count == registry.nodes().len(),
                    registry.wf(),
                    *first == registry.nodes()[i as int],
                    first_anchor == (registry.anchor() == Some(first.id)),
                    slots.len() == pairs@.len(),
                    forall|k: int|
                        0 <= k < slots.len() ==> Self::attracts_at(
                            registry,
                            (#[trigger] slots[k]).0,
                            slots[k].1,
                        ) && (slots[k].0 < i || (slots[k].0 == i && slots[k].1 < j)) && pairs@[k]
                            == (registry.nodes()[slots[k].0].id, registry.nodes()[slots[k].1].id),
                    forall|k: int, m: int|
                        0 <= k < m < slots.len() ==> (#[trigger] slots[k]).0 < (
                        #[trigger] slots[m]).0 || (slots[k].0 == slots[m].0 && slots[k].1
                            < slots[m].1),
                    forall|a: int, b: int| #[trigger]
                        Self::attracts_at(registry, a, b) && (a < i || (a == i && b < j))
                            ==> slots.contains((a, b)),
                decreases count - j,
            {
                let second = registry.node_at(j);
                let shared = match (&first.category, &second.category) {
                    (Some(left), Some(right)) => str_eq(left.as_str(), right.as_str()),
                    _ => false,
                };
                let ghost before = slots;
                if shared && !first_anchor && !registry.is_author_node(second.id) {
                    pairs.push((first.id, second.id));
                    proof {
                        slots = slots.push((i as int, j as int));
                        assert(slots[slots.len() - 1] == (i as int, j as int));
                    }
                }
                proof {
                    assert forall|a: int, b: int| #[trigger]
                        Self::attracts_at(registry, a, b) && (a < i || (a == i && b < j + 1))
                        implies slots.contains((a, b)) by {
                        if a == i && b == j {
                            assert(slots[slots.len() - 1] == (a, b));
                        } else {
                            assert(before.contains((a, b)));
                            let k = choose|k: int| 0 <= k < before.len() && before[k] == (a, b);
                            assert(slots[k] == (a, b));
                        }
                    }
                }
                j += 1;
            }
            i += 1;
        }
        proof {
            assert forall|k: int| 0 <= k < pairs@.len() implies registry.contains(
                (#[trigger] pairs@[k]).0,
            ) && registry.contains(pairs@[k].1) && Self::attracts_at(
                registry,
                registry.position_of(pairs@[k].0),
                registry.position_of(pairs@[k].1),
            ) by {
                let slot = slots[k];
                registry.lemma_position_unique(slot.0);
                registry.lemma_position_unique(slot.1);
            }
            assert forall|a: int, b: int| #[trigger]
                Self::attracts_at(registry, a, b) implies pairs@.contains(
                (registry.nodes()[a].id, registry.nodes()[b].id),
            ) by {
                assert(slots.contains((a, b)));
                let k = choose|k: int| 0 <= k < slots.len() && slots[k] == (a, b);
                assert(pairs@[k] == (registry.nodes()[a].id, registry.nodes()[b].id));
            }
            assert forall|k: int, m: int| 0 <= k < m < pairs@.len() implies Self::pair_before(
                registry,
                #[trigger] pairs@[k],
                #[trigger] pairs@[m],
            ) by {
                registry.lemma_position_unique(slots[k].0);
                registry.lemma_position_unique(slots[k].1);
                registry.lemma_position_unique(slots[m].0);
                registry.lemma_position_unique(slots[m].1);
            }
        }
        pairs
    }
}

/// Decides which bodies computed forces are applied to.
pub struct ForceApplicator;

/// The forces that reach a body: each force whose node has a live body,
/// with that body in place of the node, in the order of the forces. A
/// force for a node without a live body is dropped.
pub open spec fn applied_forces<F>(manager: BodyManager, forces: Seq<(NodeId, F)>) -> Seq<(BodyHandle, F)>
    decreases forces.len(),
{
    if forces.len() == 0 {
        Seq::empty()
    } else {
        let earlier = applied_forces(manager, forces.drop_last());
        let force = forces.last();
        if manager.materialized(force.0) && manager.kinds().contains_key(
            manager.body_map@[force.0.0],
        ) {
            earlier.push((manager.body_map@[force.0.0], force.1))
        } else {
            earlier
        }
    }
}

impl ForceApplicator {
    /// The bodies to which computed forces are applied. The type `F` of a
    /// force is not looked into.
    pub fn resolve_targets<F>(manager: &BodyManager, forces: Vec<(NodeId, F)>) -> (targets: Vec<(BodyHandle, F)>)
        ensures
            targets@ == applied_forces(*manager, forces@),
    {
        let mut rest = forces;
        let mut reversed: Vec<(BodyHandle, F)> = Vec::new();
        let ghost total = forces@.len();
        // Walk the forces from the last to the first, then turn the result round.
        while rest.len() > 0
            invariant
                rest@.len() <= total,
                total == forces@.len(),
                rest@ == forces@.subrange(0, rest@.len() as int),
                applied_forces(*manager, forces@) == applied_forces(*manager, rest@)
                    + Seq::new(reversed@.len(), |k: int| reversed@[reversed@.len() - 1 - k]),
            decreases rest.len(),
        {
            let ghost before = rest@;
            let ghost done = Seq::new(reversed@.len(), |k: int| reversed@[reversed@.len() - 1 - k]);
            let force = rest.pop().unwrap();
            proof {
                assert(rest@ =~= forces@.subrange(0, rest@.len() as int));
                assert(before.drop_last() =~= rest@);
                assert(before.last() == force);
            }
            match manager.get_body_handle(force.0) {
                Some(handle) => {
                    if contains_body(&manager.bodies, handle) {
                        reversed.push((handle, force.1));
                        proof {
                            let now = Seq::new(
                                reversed@.len(),
                                |k: int| reversed@[reversed@.len() - 1 - k],
                            );
                            assert(now =~= seq![(handle, force.1)] + done);
                            assert(applied_forces(*manager, before) + done =~= applied_forces(
                                *manager,
                                rest@,
                            ) + now);
                        }
                    }
                },
                None => {},
            }
        }
        let mut targets: Vec<(BodyHandle, F)> = Vec::new();
        let ghost wanted = Seq::new(reversed@.len(), |k: int| reversed@[reversed@.len() - 1 - k]);
        proof {
            assert(rest@ =~= Seq::<(NodeId, F)>::empty());
            assert(applied_forces(*manager, forces@) =~= wanted);
        }
        while reversed.len() > 0
            invariant
                reversed@.len() + targets@.len() == wanted.len(),
                forall|k: int| 0 <= k < targets@.len() ==> targets@[k] == wanted[k],
                forall|k: int|
                    0 <= k < reversed@.len() ==> reversed@[k] == wanted[wanted.len() - 1 - k],
            decreases reversed.len(),
        {
            let entry = reversed.pop().unwrap();
            targets.push(entry);
        }
        assert(targets@ =~= wanted);
        targets
    }
}

} // verus!
