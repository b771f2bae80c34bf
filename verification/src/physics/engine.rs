//! The calls into the rigid-body engine, each behind a contract that is
//! taken on trust from the engine's source.
//!
//! What a set holds is named by a spec function over the set; the
//! contracts of the calls speak of these names.

use vstd::prelude::*;
use rapier2d::dynamics::{
    GenericJoint, ImpulseJointHandle, ImpulseJointSet, IslandManager, RigidBody, RigidBodyHandle,
    RigidBodySet, RigidBodyType,
};
use rapier2d::geometry::{Collider, ColliderSet};
use crate::physics::handles::{BodyHandle, BodyKind, ColliderHandle, JointHandle};

verus! {

#[verifier::external_type_specification]
#[verifier::external_body]
pub struct ExRigidBodySet(RigidBodySet);

#[verifier::external_type_specification]
#[verifier::external_body]
pub struct ExColliderSet(ColliderSet);

#[verifier::external_type_specification]
#[verifier::external_body]
pub struct ExImpulseJointSet(ImpulseJointSet);

#[verifier::external_type_specification]
#[verifier::external_body]
pub struct ExIslandManager(IslandManager);

#[verifier::external_type_specification]
#[verifier::external_body]
pub struct ExRigidBody(RigidBody);

#[verifier::external_type_specification]
#[verifier::external_body]
pub struct ExCollider(Collider);

#[verifier::external_type_specification]
#[verifier::external_body]
pub struct ExGenericJoint(GenericJoint);

/// The bodies that a body set holds: each live handle with the kind of its
/// body.
pub uninterp spec fn bodies_of(bodies: RigidBodySet) -> Map<BodyHandle, BodyKind>;

/// The colliders that a collider set holds: each live handle with the body
/// that the collider is attached to, if any.
pub uninterp spec fn colliders_of(colliders: ColliderSet) -> Map<ColliderHandle, Option<BodyHandle>>;

/// How many colliders have been removed from a collider set since it was
/// made. The set gives every new collider this count, as far as it fits
/// 32 bits, as the generation of its handle.
pub uninterp spec fn collider_removals(colliders: ColliderSet) -> nat;

/// The joints that a joint set holds: each live handle with the two bodies
/// that the joint connects.
pub uninterp spec fn joints_of(joints: ImpulseJointSet) -> Map<JointHandle, (BodyHandle, BodyHandle)>;

/// How many joints have been removed from a joint set since it was made.
/// The set gives every new joint this count, as far as it fits 32 bits, as
/// the generation of its handle.
pub uninterp spec fn joint_removals(joints: ImpulseJointSet) -> nat;

/// `RigidBodySet::new`: the new set holds no body.
#[verifier::external_body]
pub(crate) fn new_body_set() -> (created: RigidBodySet)
    ensures
        bodies_of(created).dom() == Set::<BodyHandle>::empty(),
{
    RigidBodySet::new()
}

/// `ColliderSet::new`: the new set holds no collider, and none has been
/// removed from it.
#[verifier::external_body]
pub(crate) fn new_collider_set() -> (created: ColliderSet)
    ensures
        colliders_of(created).dom() == Set::<ColliderHandle>::empty(),
        collider_removals(created) == 0,
{
    ColliderSet::new()
}

/// `ImpulseJointSet::new`: the new set holds no joint, and none has been
/// removed from it.
#[verifier::external_body]
pub(crate) fn new_joint_set() -> (created: ImpulseJointSet)
    ensures
        joints_of(created).dom() == Set::<JointHandle>::empty(),
        joint_removals(created) == 0,
{
    ImpulseJointSet::new()
}

/// `IslandManager::new`. Nothing is stated of the result.
#[verifier::external_body]
pub(crate) fn new_island_manager() -> IslandManager {
    IslandManager::new()
}

/// `RigidBodySet::insert`: the set gains one body under a handle that was
/// not live before, and every other body keeps its handle and kind.
/// Nothing is claimed of the kind of the new body.
#[verifier::external_body]
pub(crate) fn insert_body(bodies: &mut RigidBodySet, body: RigidBody) -> (handle: BodyHandle)
    ensures
        !bodies_of(*old(bodies)).contains_key(handle),
        bodies_of(*final(bodies)).dom() == bodies_of(*old(bodies)).dom().insert(handle),
        forall|other: BodyHandle|
            bodies_of(*old(bodies)).contains_key(other) ==> bodies_of(*final(bodies))[other]
                == bodies_of(*old(bodies))[other],
{
    let (index, generation) = bodies.insert(body).into_raw_parts();
    BodyHandle { index, generation }
}

/// `RigidBodySet::contains`: whether the handle names a body of the set.
#[verifier::external_body]
pub(crate) fn contains_body(bodies: &RigidBodySet, handle: BodyHandle) -> (live: bool)
    ensures
        live == bodies_of(*bodies).contains_key(handle),
{
    bodies.contains(RigidBodyHandle::from_raw_parts(handle.index, handle.generation))
}

/// `RigidBodySet::get`: the body that the handle names, if it names one of
/// the set.
#[verifier::external_body]
pub(crate) fn body_ref<'a>(bodies: &'a RigidBodySet, handle: BodyHandle) -> (found: Option<&'a RigidBody>)
    ensures
        found is Some <==> bodies_of(*bodies).contains_key(handle),
{
    bodies.get(RigidBodyHandle::from_raw_parts(handle.index, handle.generation))
}

/// `RigidBodySet::get_mut`: the body that the handle names, if it names one
/// of the set, to be changed in place. Whatever is done to that body, no
/// body enters or leaves the set and no other body changes its kind.
#[verifier::external_body]
pub(crate) fn body_mut<'a>(bodies: &'a mut RigidBodySet, handle: BodyHandle) -> (found: Option<&'a mut RigidBody>)
    ensures
        found is Some <==> bodies_of(*old(bodies)).contains_key(handle),
        bodies_of(*final(bodies)).dom() == bodies_of(*old(bodies)).dom(),
        forall|other: BodyHandle|
            other != handle && bodies_of(*old(bodies)).contains_key(other) ==> bodies_of(
                *final(bodies),
            )[other] == bodies_of(*old(bodies))[other],
{
    bodies.get_mut(RigidBodyHandle::from_raw_parts(handle.index, handle.generation))
}

/// `RigidBody::set_body_type` on the body that `handle` names, reached by
/// indexing the set, which panics on a handle that is not live. The body
/// gets the given kind; no body enters or leaves the set and no other body
/// changes its kind.
#[verifier::external_body]
pub(crate) fn set_body_kind(bodies: &mut RigidBodySet, handle: BodyHandle, kind: BodyKind)
    requires
        bodies_of(*old(bodies)).contains_key(handle),
    ensures
        bodies_of(*final(bodies)) == bodies_of(*old(bodies)).insert(handle, kind),
{
    let status = match kind {
        BodyKind::Dynamic => RigidBodyType::Dynamic,
        BodyKind::Fixed => RigidBodyType::Fixed,
        BodyKind::KinematicPositionBased => RigidBodyType::KinematicPositionBased,
        BodyKind::KinematicVelocityBased => RigidBodyType::KinematicVelocityBased,
    };
    bodies[RigidBodyHandle::from_raw_parts(handle.index, handle.generation)].set_body_type(status, true);
}

/// `ColliderSet::insert_with_parent`, which panics unless the parent is a
/// body of `bodies`. The collider set gains one collider, attached to the
/// parent, under a handle that was not live before; the body set keeps its
/// bodies and their kinds. The generation of the new handle is the set's
/// count of removals, which an insertion leaves as it is.
#[verifier::external_body]
pub(crate) fn insert_collider_with_parent(
    colliders: &mut ColliderSet,
    collider: Collider,
    parent: BodyHandle,
    bodies: &mut RigidBodySet,
) -> (handle: ColliderHandle)
    requires
        bodies_of(*old(bodies)).contains_key(parent),
    ensures
        !colliders_of(*old(colliders)).contains_key(handle),
        colliders_of(*final(colliders)) == colliders_of(*old(colliders)).insert(handle, Some(parent)),
        bodies_of(*final(bodies)) == bodies_of(*old(bodies)),
        collider_removals(*final(colliders)) == collider_removals(*old(colliders)),
        collider_removals(*old(colliders)) <= u32::MAX ==> handle.generation
            == collider_removals(*old(colliders)),
{
    let parent = RigidBodyHandle::from_raw_parts(parent.index, parent.generation);
    let (index, generation) = colliders.insert_with_parent(collider, parent, bodies).into_raw_parts();
    ColliderHandle { index, generation }
}

/// `ColliderSet::remove`, waking the parent body. The collider under
/// `handle` leaves the set, if it was there, which the result tells; the
/// other colliders stay as they are, and the body set keeps its bodies and
/// their kinds. A removal is counted in a 32-bit counter of the set, which
/// must not be at its last value.
#[verifier::external_body]
pub(crate) fn remove_collider(
    colliders: &mut ColliderSet,
    handle: ColliderHandle,
    islands: &mut IslandManager,
    bodies: &mut RigidBodySet,
) -> (removed: bool)
    requires
        collider_removals(*old(colliders)) < u32::MAX,
    ensures
        removed == colliders_of(*old(colliders)).contains_key(handle),
        colliders_of(*final(colliders)) == colliders_of(*old(colliders)).remove(handle),
        bodies_of(*final(bodies)) == bodies_of(*old(bodies)),
        collider_removals(*final(colliders)) == collider_removals(*old(colliders)) + (if removed {
            1nat
        } else {
            0nat
        }),
{
    let handle = rapier2d::geometry::ColliderHandle::from_raw_parts(handle.index, handle.generation);
    colliders.remove(handle, islands, bodies, true).is_some()
}

/// `ColliderSet::iter` with `Collider::parent`: every collider of the set,
/// once, with the body it is attached to. The order is the engine's.
#[verifier::external_body]
pub(crate) fn collider_parents(colliders: &ColliderSet) -> (listing: Vec<(ColliderHandle, Option<BodyHandle>)>)
    ensures
        forall|i: int|
            0 <= i < listing@.len() ==> colliders_of(*colliders).contains_key(
                (#[trigger] listing@[i]).0,
            ) && colliders_of(*colliders)[listing@[i].0] == listing@[i].1,
        forall|handle: ColliderHandle| #[trigger]
            colliders_of(*colliders).contains_key(handle) ==> exists|i: int|
                0 <= i < listing@.len() && (#[trigger] listing@[i]).0 == handle,
        forall|i: int, j: int|
            0 <= i < j < listing@.len() ==> (#[trigger] listing@[i]).0 != (#[trigger] listing@[j]).0,
{
    colliders.iter().map(|(handle, collider)| {
        let (index, generation) = handle.into_raw_parts();
        let parent = collider.parent().map(|body| {
            let (index, generation) = body.into_raw_parts();
            BodyHandle { index, generation }
        });
        (ColliderHandle { index, generation }, parent)
    }).collect()
}

/// `ImpulseJointSet::insert`, waking both bodies. The set gains one joint
/// between `first` and `second` under a handle that was not live before.
/// The joint set keeps a table indexed by body slot, so the two handles
/// are required to name bodies of `bodies`, which bounds that table. The
/// generation of the new handle is the set's count of removals, which an
/// insertion leaves as it is.
#[verifier::external_body]
pub(crate) fn insert_joint(
    joints: &mut ImpulseJointSet,
    bodies: &RigidBodySet,
    first: BodyHandle,
    second: BodyHandle,
    joint: &GenericJoint,
) -> (handle: JointHandle)
    requires
        bodies_of(*bodies).contains_key(first),
        bodies_of(*bodies).contains_key(second),
    ensures
        !joints_of(*old(joints)).contains_key(handle),
        joints_of(*final(joints)) == joints_of(*old(joints)).insert(handle, (first, second)),
        joint_removals(*final(joints)) == joint_removals(*old(joints)),
        joint_removals(*old(joints)) <= u32::MAX ==> handle.generation == joint_removals(
            *old(joints),
        ),
{
    let first = RigidBodyHandle::from_raw_parts(first.index, first.generation);
    let second = RigidBodyHandle::from_raw_parts(second.index, second.generation);
    let (index, generation) = joints.insert(first, second, *joint, true).into_raw_parts();
    JointHandle { index, generation }
}

/// `ImpulseJointSet::remove`, waking the joint's bodies. The joint under
/// `handle` leaves the set, if it was there, which the result tells; the
/// other joints stay as they are. A removal is counted in a 32-bit counter
/// of the set, which must not be at its last value.
#[verifier::external_body]
pub(crate) fn remove_joint(joints: &mut ImpulseJointSet, handle: JointHandle) -> (removed: bool)
    requires
        joint_removals(*old(joints)) < u32::MAX,
    ensures
        removed == joints_of(*old(joints)).contains_key(handle),
        joints_of(*final(joints)) == joints_of(*old(joints)).remove(handle),
        joint_removals(*final(joints)) == joint_removals(*old(joints)) + (if removed {
            1nat
        } else {
            0nat
        }),
{
    joints.remove(ImpulseJointHandle::from_raw_parts(handle.index, handle.generation), true).is_some()
}

} // verus!
