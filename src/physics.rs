use vstd::prelude::*;

verus! {

/// A 3-vector as the rigid-body solver hands it over: each coordinate is the
/// IEEE-754 single-precision bit pattern of the solver's value. The core
/// copies these values and never computes on them.
#[derive(Debug, Clone, Copy, PartialEq, Eq, Structural)]
pub struct Vec3Bits {
    pub x: u32,
    pub y: u32,
    pub z: u32,
}

/// A unit quaternion as bit patterns of its single-precision components.
#[derive(Debug, Clone, Copy, PartialEq, Eq, Structural)]
pub struct QuatBits {
    pub i: u32,
    pub j: u32,
    pub k: u32,
    pub w: u32,
}

/// Bit pattern of the single-precision value 1.0.
pub const F32_ONE_BITS: u32 = 0x3f80_0000;

/// The zero vector (all coordinates +0.0).
pub open spec fn zero_vec_spec() -> Vec3Bits {
    Vec3Bits { x: 0, y: 0, z: 0 }
}

/// The identity rotation.
pub open spec fn identity_quat_spec() -> QuatBits {
    QuatBits { i: 0, j: 0, k: 0, w: F32_ONE_BITS }
}

impl Vec3Bits {
    pub fn zero() -> (r: Self)
        ensures
            r == zero_vec_spec(),
    {
        Vec3Bits { x: 0, y: 0, z: 0 }
    }

    /// The vector (1, 1, 1).
    pub fn one() -> (r: Self)
        ensures
            r == (Vec3Bits { x: F32_ONE_BITS, y: F32_ONE_BITS, z: F32_ONE_BITS }),
    {
        Vec3Bits { x: F32_ONE_BITS, y: F32_ONE_BITS, z: F32_ONE_BITS }
    }
}

impl QuatBits {
    pub fn identity() -> (r: Self)
        ensures
            r == identity_quat_spec(),
    {
        QuatBits { i: 0, j: 0, k: 0, w: F32_ONE_BITS }
    }
}

/// Where a rigid body is: translation and orientation.
#[derive(Debug, Clone, Copy, PartialEq, Eq, Structural)]
pub struct Pose {
    pub translation: Vec3Bits,
    pub rotation: QuatBits,
}

/// Position, orientation and scale of an entity.
#[derive(Debug, Clone, Copy, PartialEq, Eq, Structural)]
pub struct TransformComponent {
    pub position: Vec3Bits,
    pub rotation: QuatBits,
    pub scale: Vec3Bits,
}

impl TransformComponent {
    /// At the origin, unrotated, unit scale.
    pub fn default() -> (r: Self)
        ensures
            r.position == zero_vec_spec(),
            r.rotation == identity_quat_spec(),
            r.scale == (Vec3Bits { x: F32_ONE_BITS, y: F32_ONE_BITS, z: F32_ONE_BITS }),
    {
        TransformComponent {
            position: Vec3Bits::zero(),
            rotation: QuatBits::identity(),
            scale: Vec3Bits::one(),
        }
    }

    /// Unrotated, unit scale, at `position`.
    pub fn at(position: Vec3Bits) -> (r: Self)
        ensures
            r.position == position,
            r.rotation == identity_quat_spec(),
            r.scale == (Vec3Bits { x: F32_ONE_BITS, y: F32_ONE_BITS, z: F32_ONE_BITS }),
    {
        TransformComponent { position, rotation: QuatBits::identity(), scale: Vec3Bits::one() }
    }
}

/// Raw parts (index, generation) of a handle into the solver's body or
/// collider set.
#[derive(Debug, Clone, Copy, PartialEq, Eq, Structural)]
pub struct Handle {
    pub index: u32,
    pub generation: u32,
}

/// The handle that refers to nothing: a component holding it has not been
/// attached to the solver yet.
pub open spec fn uninitialized_spec() -> Handle {
    Handle { index: u32::MAX, generation: u32::MAX }
}

impl Handle {
    pub fn uninitialized() -> (r: Self)
        ensures
            r == uninitialized_spec(),
    {
        Handle { index: u32::MAX, generation: u32::MAX }
    }

    pub fn is_uninitialized(&self) -> (r: bool)
        ensures
            r == (*self == uninitialized_spec()),
    {
        self.index == u32::MAX && self.generation == u32::MAX
    }
}

/// How the solver moves a body.
#[derive(Debug, Clone, Copy, PartialEq, Eq, Structural)]
pub enum RigidBodyType {
    Dynamic,
    Static,
    Kinematic,
}

/// Kinds of collision shapes.
#[derive(Debug, Clone, Copy, PartialEq, Eq, Structural)]
pub enum ColliderShapeType {
    Box,
    Ball,
    Capsule,
    Convex,
    Heightfield,
    Trimesh,
    Compound,
    Custom,
}

/// Links an entity to its body in the solver's body set.
#[derive(Debug, Clone, Copy, PartialEq, Eq, Structural)]
pub struct RigidBodyComponent {
    pub handle: Handle,
    pub body_type: RigidBodyType,
}

/// Links an entity to its collider in the solver's collider set.
#[derive(Debug, Clone, Copy, PartialEq, Eq, Structural)]
pub struct ColliderComponent {
    pub handle: Handle,
    pub shape_type: ColliderShapeType,
}

#[verifier::external_type_specification]
#[verifier::external_body]
pub struct ExRigidBodySet(rapier3d::dynamics::RigidBodySet);

#[verifier::external_type_specification]
#[verifier::external_body]
pub struct ExColliderSet(rapier3d::geometry::ColliderSet);

/// The pose of every body of a rapier body set, by handle.
pub uninterp spec fn poses_of(s: rapier3d::dynamics::RigidBodySet) -> Map<Handle, Pose>;

/// The handles of the colliders of a rapier collider set.
pub uninterp spec fn colliders_of(s: rapier3d::geometry::ColliderSet) -> Set<Handle>;

/// Relies on rapier3d's RigidBodySet::new: an empty set.
#[verifier::external_body]
fn body_set_new() -> (r: rapier3d::dynamics::RigidBodySet)
    ensures
        poses_of(r).dom().is_empty(),
{
    rapier3d::dynamics::RigidBodySet::new()
}

/// Relies on rapier3d's ColliderSet::new: an empty set.
#[verifier::external_body]
fn collider_set_new() -> (r: rapier3d::geometry::ColliderSet)
    ensures
        colliders_of(r) == Set::<Handle>::empty(),
{
    rapier3d::geometry::ColliderSet::new()
}

/// Relies on rapier3d's RigidBodySet::get with RigidBody::translation and
/// RigidBody::rotation: the pose stored under a handle, bit for bit.
#[verifier::external_body]
fn body_pose(s: &rapier3d::dynamics::RigidBodySet, h: Handle) -> (r: Option<Pose>)
    ensures
        r == (if poses_of(*s).contains_key(h) {
            Some(poses_of(*s)[h])
        } else {
            None
        }),
{
    let handle = rapier3d::dynamics::RigidBodyHandle::from_raw_parts(h.index, h.generation);
    match s.get(handle) {
        Some(rb) => {
            let (t, q) = (rb.translation(), rb.rotation());
            let translation = Vec3Bits { x: t.x.to_bits(), y: t.y.to_bits(), z: t.z.to_bits() };
            let rotation = QuatBits { i: q.i.to_bits(), j: q.j.to_bits(), k: q.k.to_bits(), w: q.w.to_bits() };
            Some(Pose { translation, rotation })
        },
        None => None,
    }
}

/// Relies on rapier3d's RigidBodySet::insert of a body built by
/// `RigidBodyBuilder::dynamic().translation(..)`: the new handle was free,
/// and the body sits at `at`, unrotated (the builder's identity rotation).
#[verifier::external_body]
fn insert_dynamic_body(s: &mut rapier3d::dynamics::RigidBodySet, at: Vec3Bits) -> (r: Handle)
    ensures
        !poses_of(*old(s)).contains_key(r),
        poses_of(*final(s)) == poses_of(*old(s)).insert(
            r,
            Pose { translation: at, rotation: identity_quat_spec() },
        ),
{
    let v = rapier3d::math::Vector::new(rapier3d::math::Real::from_bits(at.x), rapier3d::math::Real::from_bits(at.y), rapier3d::math::Real::from_bits(at.z));
    let rb = rapier3d::dynamics::RigidBodyBuilder::dynamic().translation(v).build();
    let (index, generation) = s.insert(rb).into_raw_parts();
    Handle { index, generation }
}

/// Relies on rapier3d's RigidBodySet::insert of a body built by
/// `RigidBodyBuilder::fixed().translation(..)`: the new handle was free,
/// and the body sits at `at`, unrotated.
#[verifier::external_body]
fn insert_fixed_body(s: &mut rapier3d::dynamics::RigidBodySet, at: Vec3Bits) -> (r: Handle)
    ensures
        !poses_of(*old(s)).contains_key(r),
        poses_of(*final(s)) == poses_of(*old(s)).insert(
            r,
            Pose { translation: at, rotation: identity_quat_spec() },
        ),
{
    let v = rapier3d::math::Vector::new(rapier3d::math::Real::from_bits(at.x), rapier3d::math::Real::from_bits(at.y), rapier3d::math::Real::from_bits(at.z));
    let rb = rapier3d::dynamics::RigidBodyBuilder::fixed().translation(v).build();
    let (index, generation) = s.insert(rb).into_raw_parts();
    Handle { index, generation }
}

/// Relies on rapier3d's RigidBodySet::insert of a body built by
/// `RigidBodyBuilder::kinematic_position_based().translation(..)`: the new
/// handle was free, and the body sits at `at`, unrotated.
#[verifier::external_body]
fn insert_kinematic_body(s: &mut rapier3d::dynamics::RigidBodySet, at: Vec3Bits) -> (r: Handle)
    ensures
        !poses_of(*old(s)).contains_key(r),
        poses_of(*final(s)) == poses_of(*old(s)).insert(
            r,
            Pose { translation: at, rotation: identity_quat_spec() },
        ),
{
    let v = rapier3d::math::Vector::new(rapier3d::math::Real::from_bits(at.x), rapier3d::math::Real::from_bits(at.y), rapier3d::math::Real::from_bits(at.z));
    let rb = rapier3d::dynamics::RigidBodyBuilder::kinematic_position_based().translation(v).build();
    let (index, generation) = s.insert(rb).into_raw_parts();
    Handle { index, generation }
}

/// Relies on rapier3d's ColliderSet::insert of a collider built by
/// `ColliderBuilder::cuboid(..).restitution(..).friction(..)` (arguments as
/// single-precision bit patterns): the new handle was free and is now used.
#[verifier::external_body]
fn insert_box_collider(
    s: &mut rapier3d::geometry::ColliderSet,
    half_extents: Vec3Bits,
    restitution: u32,
    friction: u32,
) -> (r: Handle)
    ensures
        !colliders_of(*old(s)).contains(r),
        colliders_of(*final(s)) == colliders_of(*old(s)).insert(r),
{
    let c = rapier3d::geometry::ColliderBuilder::cuboid(
        rapier3d::math::Real::from_bits(half_extents.x),
        rapier3d::math::Real::from_bits(half_extents.y),
        rapier3d::math::Real::from_bits(half_extents.z),
    ).restitution(rapier3d::math::Real::from_bits(restitution)).friction(rapier3d::math::Real::from_bits(friction)).build();
    let (index, generation) = s.insert(c).into_raw_parts();
    Handle { index, generation }
}

/// The solver's body and collider sets, held as a resource.
pub struct PhysicsSets {
    pub bodies: rapier3d::dynamics::RigidBodySet,
    pub colliders: rapier3d::geometry::ColliderSet,
}

impl PhysicsSets {
    pub fn new() -> (r: Self)
        ensures
            poses_of(r.bodies).dom().is_empty(),
            colliders_of(r.colliders) == Set::<Handle>::empty(),
    {
        PhysicsSets { bodies: body_set_new(), colliders: collider_set_new() }
    }

    /// The pose of the body behind `h`, if `h` resolves.
    pub fn pose(&self, h: Handle) -> (r: Option<Pose>)
        ensures
            r == (if poses_of(self.bodies).contains_key(h) {
                Some(poses_of(self.bodies)[h])
            } else {
                None
            }),
    {
        body_pose(&self.bodies, h)
    }

    /// Adds a body of kind `body_type` (dynamic, fixed, or moved by its
    /// position) at `at`, unrotated, and returns its handle.
    pub fn create_rigid_body(&mut self, at: Vec3Bits, body_type: RigidBodyType) -> (r: Handle)
        ensures
            !poses_of(old(self).bodies).contains_key(r),
            poses_of(final(self).bodies) == poses_of(old(self).bodies).insert(
                r,
                Pose { translation: at, rotation: identity_quat_spec() },
            ),
            final(self).colliders == old(self).colliders,
    {
        match body_type {
            RigidBodyType::Dynamic => insert_dynamic_body(&mut self.bodies, at),
            RigidBodyType::Static => insert_fixed_body(&mut self.bodies, at),
            RigidBodyType::Kinematic => insert_kinematic_body(&mut self.bodies, at),
        }
    }

    /// Adds a box collider with the given half extents, restitution and
    /// friction (single-precision bit patterns).
    pub fn add_box_collider(&mut self, half_extents: Vec3Bits, restitution: u32, friction: u32) -> (r: Handle)
        ensures
            !colliders_of(old(self).colliders).contains(r),
            colliders_of(final(self).colliders) == colliders_of(old(self).colliders).insert(r),
            final(self).bodies == old(self).bodies,
    {
        insert_box_collider(&mut self.colliders, half_extents, restitution, friction)
    }
}

} // verus!
