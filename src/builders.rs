use vstd::prelude::*;
use crate::car::{is_default_car, CarComponent};
use crate::physics::{
    colliders_of, identity_quat_spec, poses_of, uninitialized_spec, ColliderComponent, ColliderShapeType, Handle,
    PhysicsSets, Pose, QuatBits, RigidBodyComponent, RigidBodyType, TransformComponent, Vec3Bits,
    F32_ONE_BITS,
};
use crate::resources::ResourceKind;
use crate::scalar::FixedVec3;
use crate::table::{has_key, keys_unique, lemma_lookup_at, lemma_lookup_inserted, lookup};
use crate::wheel::{default_wheel_spec, WheelComponent};
use crate::world::{
    env_same, extends, keyed_in, lemma_insert_fresh, CarWheelBindingComponent, EcsError, WorldModel, WorldStore,
};
use crate::environment::{
    DestructibleComponent, DestructionStage, EnvironmentObjectComponent, EnvironmentObjectType,
    TimeOfDayComponent, WeatherComponent, WeatherType,
};
use crate::scalar::{in_range, ONE};
use crate::track::{
    CheckpointComponent, SurfaceType, TrackComponent, TrackSegmentComponent, TrackSegmentType,
};

verus! {

/// Half the distance between the left and right wheels (0.9 m).
pub const HALF_TRACK: i64 = 900_000;

/// Half the distance between the front and rear axles (1.25 m).
pub const HALF_WHEEL_BASE: i64 = 1_250_000;

/// The same offsets as single-precision bit patterns, for transforms.
pub const HALF_TRACK_BITS: u32 = 0x3f66_6666;

pub const NEG_HALF_TRACK_BITS: u32 = 0xbf66_6666;

pub const HALF_WHEEL_BASE_BITS: u32 = 0x3fa0_0000;

pub const NEG_HALF_WHEEL_BASE_BITS: u32 = 0xbfa0_0000;

/// Car body collider: a 2 x 1 x 4 m box (half extents 1, 0.5, 2), with
/// restitution 0.2 and friction 0.7, as single-precision bit patterns.
const BODY_HALF_X_BITS: u32 = 0x3f80_0000;

const BODY_HALF_Y_BITS: u32 = 0x3f00_0000;

const BODY_HALF_Z_BITS: u32 = 0x4000_0000;

const BODY_RESTITUTION_BITS: u32 = 0x3e4c_cccd;

const BODY_FRICTION_BITS: u32 = 0x3f33_3333;

/// Spawns one wheel entity: a wheel mounted at `mount`, with a transform at
/// `at`, and rigid-body and collider components not yet attached to the
/// solver. A front wheel steers; a rear wheel is driven.
fn spawn_wheel(w: &mut WorldStore, mount: FixedVec3, at: Vec3Bits, front: bool) -> (r: u64)
    requires
        old(w)@.wf(),
        old(w)@.live.len() < u32::MAX,
    ensures
        final(w)@.wf(),
        final(w).res() == old(w).res(),
        !old(w)@.live.contains(r),
        final(w)@.live == old(w)@.live.insert(r),
        final(w)@.cars == old(w)@.cars,
        final(w)@.bindings == old(w)@.bindings,
        env_same(old(w)@, final(w)@),
        final(w)@.wheels == old(w)@.wheels.push(
            (r, WheelComponent { position: mount, steering: front, powered: !front, ..default_wheel_spec() }),
        ),
        final(w)@.transforms == old(w)@.transforms.push(
            (
                r,
                TransformComponent {
                    position: at,
                    rotation: identity_quat_spec(),
                    scale: Vec3Bits { x: F32_ONE_BITS, y: F32_ONE_BITS, z: F32_ONE_BITS },
                },
            ),
        ),
        final(w)@.bodies == old(w)@.bodies.push(
            (r, RigidBodyComponent { handle: uninitialized_spec(), body_type: RigidBodyType::Dynamic }),
        ),
        final(w)@.colliders == old(w)@.colliders.push(
            (r, ColliderComponent { handle: uninitialized_spec(), shape_type: ColliderShapeType::Box }),
        ),
{
    let ghost m0 = w@;
    let e = w.spawn();
    let ghost m1 = w@;
    let mut wheel = WheelComponent::default();
    wheel.position = mount;
    wheel.steering = front;
    wheel.powered = !front;
    proof {
        lemma_insert_fresh(m0.wheels, m0.live, e, wheel);
    }
    let _ = w.insert(e, wheel);
    let ghost m2 = w@;
    let t = TransformComponent::at(at);
    proof {
        lemma_insert_fresh(m0.transforms, m0.live, e, t);
    }
    let _ = w.insert(e, t);
    let ghost m3 = w@;
    let b = RigidBodyComponent { handle: Handle::uninitialized(), body_type: RigidBodyType::Dynamic };
    proof {
        lemma_insert_fresh(m0.bodies, m0.live, e, b);
    }
    let _ = w.insert(e, b);
    let ghost m4 = w@;
    let c = ColliderComponent { handle: Handle::uninitialized(), shape_type: ColliderShapeType::Box };
    proof {
        lemma_insert_fresh(m0.colliders, m0.live, e, c);
    }
    let _ = w.insert(e, c);
    e
}

/// Mount offset of wheel `i` (0 front left, 1 front right, 2 rear left,
/// 3 rear right) relative to the car body: (-0.9 or 0.9, 0, 1.25 or -1.25).
pub open spec fn wheel_mount(i: int) -> FixedVec3 {
    FixedVec3 {
        x: if i % 2 == 0 { -900_000i64 } else { HALF_TRACK },
        y: 0,
        z: if i < 2 { HALF_WHEEL_BASE } else { -1_250_000i64 },
    }
}

/// The same offset as single-precision bit patterns.
pub open spec fn wheel_mount_bits(i: int) -> Vec3Bits {
    Vec3Bits {
        x: if i % 2 == 0 { NEG_HALF_TRACK_BITS } else { HALF_TRACK_BITS },
        y: 0,
        z: if i < 2 { HALF_WHEEL_BASE_BITS } else { NEG_HALF_WHEEL_BASE_BITS },
    }
}

/// `e` is wheel `i` of a car in `m`: a live entity with a default wheel
/// mounted at `wheel_mount(i)` that steers at the front and is driven at the
/// rear, a transform at that offset, and rigid-body and collider components
/// not yet attached to the solver.
pub open spec fn is_wheel_at(m: WorldModel, e: u64, i: int) -> bool {
    &&& m.live.contains(e)
    &&& lookup(m.wheels, e) == Some(
        WheelComponent {
            position: wheel_mount(i),
            steering: i < 2,
            powered: i >= 2,
            ..default_wheel_spec()
        },
    )
    &&& lookup(m.transforms, e) == Some(
        TransformComponent {
            position: wheel_mount_bits(i),
            rotation: identity_quat_spec(),
            scale: Vec3Bits { x: F32_ONE_BITS, y: F32_ONE_BITS, z: F32_ONE_BITS },
        },
    )
    &&& lookup(m.bodies, e) == Some(
        RigidBodyComponent { handle: uninitialized_spec(), body_type: RigidBodyType::Dynamic },
    )
    &&& lookup(m.colliders, e) == Some(
        ColliderComponent { handle: uninitialized_spec(), shape_type: ColliderShapeType::Box },
    )
}

/// The default wheel as wheel `i` of a car: mounted at `wheel_mount(i)`,
/// steered at the front and driven at the rear.
pub open spec fn wheel_spec_at(i: int) -> WheelComponent {
    WheelComponent { position: wheel_mount(i), steering: i < 2, powered: i >= 2, ..default_wheel_spec() }
}

/// The transform of wheel `i` of a car: at its mount offset, unrotated.
pub open spec fn wheel_transform_at(i: int) -> TransformComponent {
    TransformComponent {
        position: wheel_mount_bits(i),
        rotation: identity_quat_spec(),
        scale: Vec3Bits { x: F32_ONE_BITS, y: F32_ONE_BITS, z: F32_ONE_BITS },
    }
}

/// The wheel entries a car's four wheels `ids` add.
pub open spec fn car_wheel_entries(ids: Seq<u64>) -> Seq<(u64, WheelComponent)> {
    Seq::new(4, |i: int| (ids[i], wheel_spec_at(i)))
}

/// The transform entries a car's four wheels `ids` add.
pub open spec fn car_wheel_transforms(ids: Seq<u64>) -> Seq<(u64, TransformComponent)> {
    Seq::new(4, |i: int| (ids[i], wheel_transform_at(i)))
}

/// The rigid-body entries a car's four wheels `ids` add: dynamic, not yet
/// attached to the solver.
pub open spec fn car_wheel_bodies(ids: Seq<u64>) -> Seq<(u64, RigidBodyComponent)> {
    Seq::new(
        4,
        |i: int| (ids[i], RigidBodyComponent { handle: uninitialized_spec(), body_type: RigidBodyType::Dynamic }),
    )
}

/// The collider entries a car's four wheels `ids` add: boxes, not yet
/// attached to the solver.
pub open spec fn car_wheel_colliders(ids: Seq<u64>) -> Seq<(u64, ColliderComponent)> {
    Seq::new(
        4,
        |i: int| (ids[i], ColliderComponent { handle: uninitialized_spec(), shape_type: ColliderShapeType::Box }),
    )
}

/// `m` is `old` with the four wheels `ids` added and nothing else.
pub open spec fn adds_wheels(old: WorldModel, m: WorldModel, ids: Seq<u64>) -> bool {
    &&& ids.len() == 4
    &&& m.live == old.live.insert(ids[0]).insert(ids[1]).insert(ids[2]).insert(ids[3])
    &&& m.wheels == old.wheels + car_wheel_entries(ids)
    &&& m.transforms == old.transforms + car_wheel_transforms(ids)
    &&& m.bodies == old.bodies + car_wheel_bodies(ids)
    &&& m.colliders == old.colliders + car_wheel_colliders(ids)
    &&& m.cars == old.cars
    &&& m.bindings == old.bindings
    &&& env_same(old, m)
}

/// The four ids are pairwise distinct, none was alive in `old`, and
/// `i` is wheel `i` of a car in `m`.
pub open spec fn are_new_wheels(old: WorldModel, m: WorldModel, ids: Seq<u64>) -> bool {
    &&& ids.len() == 4
    &&& forall|i: int, j: int| 0 <= i < 4 && 0 <= j < 4 && i != j ==> ids[i] != ids[j]
    &&& forall|i: int| 0 <= i < 4 ==> !old.live.contains(#[trigger] ids[i])
    &&& forall|i: int| 0 <= i < 4 ==> is_wheel_at(m, #[trigger] ids[i], i)
}

/// Four distinct new wheels added to `old` are what `are_new_wheels` says,
/// and every entity of `old` keeps its components.
proof fn lemma_new_wheels(old: WorldModel, m: WorldModel, ids: Seq<u64>)
    requires
        old.wf(),
        m.wf(),
        adds_wheels(old, m, ids),
        forall|i: int, j: int| 0 <= i < 4 && 0 <= j < 4 && i != j ==> ids[i] != ids[j],
        forall|i: int| 0 <= i < 4 ==> !old.live.contains(#[trigger] ids[i]),
    ensures
        are_new_wheels(old, m, ids),
        extends(old, m),
{
    assert forall|i: int| 0 <= i < 4 implies is_wheel_at(m, #[trigger] ids[i], i) by {
        lemma_lookup_at(m.wheels, old.wheels.len() + i);
        lemma_lookup_at(m.transforms, old.transforms.len() + i);
        lemma_lookup_at(m.bodies, old.bodies.len() + i);
        lemma_lookup_at(m.colliders, old.colliders.len() + i);
    }
    lemma_lookup_prefix(old.wheels, car_wheel_entries(ids), old.live);
    lemma_lookup_prefix(old.transforms, car_wheel_transforms(ids), old.live);
    lemma_lookup_prefix(old.bodies, car_wheel_bodies(ids), old.live);
    lemma_lookup_prefix(old.colliders, car_wheel_colliders(ids), old.live);
}

/// Appending entries keeps what every key of `live` finds, when the
/// appended keys are not in `live` and the whole has distinct keys.
proof fn lemma_lookup_prefix<C>(s: Seq<(u64, C)>, t: Seq<(u64, C)>, live: Set<u64>)
    requires
        keyed_in(s, live),
        keys_unique(s + t),
        forall|i: int| 0 <= i < t.len() ==> !live.contains(#[trigger] t[i].0),
    ensures
        forall|x: u64| live.contains(x) ==> #[trigger] lookup(s + t, x) == lookup(s, x),
{
    assert forall|x: u64| live.contains(x) implies #[trigger] lookup(s + t, x) == lookup(s, x) by {
        if has_key(s, x) {
            let j = choose|j: int| 0 <= j < s.len() && #[trigger] s[j].0 == x;
            lemma_lookup_at(s, j);
            assert((s + t)[j] == s[j]);
            lemma_lookup_at(s + t, j);
        } else if has_key(s + t, x) {
            let j = choose|j: int| 0 <= j < (s + t).len() && #[trigger] (s + t)[j].0 == x;
            if j >= s.len() {
                assert((s + t)[j] == t[j - s.len()]);
            } else {
                assert((s + t)[j] == s[j]);
            }
        }
    }
}

/// Spawns the four wheels of a car (front pair steered, rear pair driven)
/// and returns them front left, front right, rear left, rear right.
pub fn create_wheels_for_car(w: &mut WorldStore, car_entity: u64) -> (r: Vec<u64>)
    requires
        old(w)@.wf(),
        old(w)@.live.len() + 4 < u32::MAX,
    ensures
        final(w)@.wf(),
        final(w).res() == old(w).res(),
        extends(old(w)@, final(w)@),
        final(w)@.live.len() == old(w)@.live.len() + 4,
        adds_wheels(old(w)@, final(w)@, r@),
        are_new_wheels(old(w)@, final(w)@, r@),
{
    let ghost m0 = w@;
    let fl = spawn_wheel(
        w,
        FixedVec3::new(-HALF_TRACK, 0, HALF_WHEEL_BASE),
        Vec3Bits { x: NEG_HALF_TRACK_BITS, y: 0, z: HALF_WHEEL_BASE_BITS },
        true,
    );
    let ghost m1 = w@;
    let fr = spawn_wheel(
        w,
        FixedVec3::new(HALF_TRACK, 0, HALF_WHEEL_BASE),
        Vec3Bits { x: HALF_TRACK_BITS, y: 0, z: HALF_WHEEL_BASE_BITS },
        true,
    );
    let ghost m2 = w@;
    let rl = spawn_wheel(
        w,
        FixedVec3::new(-HALF_TRACK, 0, -HALF_WHEEL_BASE),
        Vec3Bits { x: NEG_HALF_TRACK_BITS, y: 0, z: NEG_HALF_WHEEL_BASE_BITS },
        false,
    );
    let ghost m3 = w@;
    let rr = spawn_wheel(
        w,
        FixedVec3::new(HALF_TRACK, 0, -HALF_WHEEL_BASE),
        Vec3Bits { x: HALF_TRACK_BITS, y: 0, z: NEG_HALF_WHEEL_BASE_BITS },
        false,
    );
    let mut r: Vec<u64> = Vec::new();
    r.push(fl);
    r.push(fr);
    r.push(rl);
    r.push(rr);
    assert(r@[0] == fl && r@[1] == fr && r@[2] == rl && r@[3] == rr);
    assert(w@.wheels =~= m0.wheels + car_wheel_entries(r@));
    assert(w@.transforms =~= m0.transforms + car_wheel_transforms(r@));
    assert(w@.bodies =~= m0.bodies + car_wheel_bodies(r@));
    assert(w@.colliders =~= m0.colliders + car_wheel_colliders(r@));
    proof {
        lemma_new_wheels(m0, w@, r@);
    }
    r
}

/// What `create_car_entity` leaves on the car entity `e` of `m`: a default
/// car named `name`, a transform at `position` with `rotation`, a dynamic
/// rigid body whose handle resolves to a body at `position` (unrotated) in
/// the solver's body set, and a box collider whose handle is in the solver's
/// collider set, when the sets are a resource; without them both handles are
/// the uninitialized sentinel.
pub open spec fn is_new_car(
    m: WorldModel,
    res: crate::resources::ResourceManager,
    e: u64,
    name: Seq<char>,
    position: Vec3Bits,
    rotation: QuatBits,
    with_physics: bool,
) -> bool {
    &&& m.live.contains(e)
    &&& match lookup(m.cars, e) {
        Some(c) => c.name@ == name && is_default_car(c) && c.wf(),
        None => false,
    }
    &&& lookup(m.transforms, e) == Some(
        TransformComponent {
            position,
            rotation,
            scale: Vec3Bits { x: F32_ONE_BITS, y: F32_ONE_BITS, z: F32_ONE_BITS },
        },
    )
    &&& match lookup(m.bodies, e) {
        Some(b) => b.body_type == RigidBodyType::Dynamic && if with_physics {
            match <PhysicsSets as ResourceKind>::held(res) {
                Some(p) => poses_of(p.bodies).contains_key(b.handle) && poses_of(p.bodies)[b.handle]
                    == (Pose { translation: position, rotation: identity_quat_spec() }),
                None => false,
            }
        } else {
            b.handle == uninitialized_spec()
        },
        None => false,
    }
    &&& match lookup(m.colliders, e) {
        Some(c) => c.shape_type == ColliderShapeType::Box && if with_physics {
            match <PhysicsSets as ResourceKind>::held(res) {
                Some(p) => colliders_of(p.colliders).contains(c.handle),
                None => false,
            }
        } else {
            c.handle == uninitialized_spec()
        },
        None => false,
    }
}

/// `m` is `old` with exactly one car added and nothing else: the car
/// entity `e` (car, transform at `position` with `rotation`, rigid body and
/// collider), then four wheels, then one binding entity listing them; every
/// table gains exactly those entries, in that order.
pub open spec fn adds_one_car(old: WorldModel, m: WorldModel, e: u64, position: Vec3Bits, rotation: QuatBits) -> bool {
    let n = old.bindings.len();
    let b = m.bindings[n as int].0;
    let ids = m.bindings[n as int].1.wheel_entities@;
    &&& m.bindings.len() == n + 1
    &&& m.bindings.drop_last() == old.bindings
    &&& m.bindings[n as int].1.car_entity == e
    &&& ids.len() == 4
    &&& m.live == old.live.insert(e).insert(ids[0]).insert(ids[1]).insert(ids[2]).insert(ids[3]).insert(b)
    &&& m.cars.len() == old.cars.len() + 1
    &&& m.cars.drop_last() == old.cars
    &&& m.cars.last().0 == e
    &&& m.transforms == old.transforms.push(
        (
            e,
            TransformComponent {
                position,
                rotation,
                scale: Vec3Bits { x: F32_ONE_BITS, y: F32_ONE_BITS, z: F32_ONE_BITS },
            },
        ),
    ) + car_wheel_transforms(ids)
    &&& m.bodies == old.bodies.push((e, m.bodies[old.bodies.len() as int].1)) + car_wheel_bodies(ids)
    &&& m.colliders == old.colliders.push((e, m.colliders[old.colliders.len() as int].1)) + car_wheel_colliders(ids)
    &&& m.wheels == old.wheels + car_wheel_entries(ids)
    &&& env_same(old, m)
}

/// Spawns a complete car: the car entity (car, transform, rigid body,
/// collider), its four wheels, and a binding entity relating them. When the
/// solver's sets are a resource, a dynamic body at `position` and a box
/// collider are added to them; otherwise the car gets no physics.
pub fn create_car_entity(w: &mut WorldStore, model_name: &str, position: Vec3Bits, rotation: QuatBits) -> (r: u64)
    requires
        old(w)@.wf(),
        old(w)@.live.len() + 6 < u32::MAX,
    ensures
        final(w)@.wf(),
        extends(old(w)@, final(w)@),
        !old(w)@.live.contains(r),
        adds_one_car(old(w)@, final(w)@, r, position, rotation),
        is_new_car(
            final(w)@,
            final(w).res(),
            r,
            model_name@,
            position,
            rotation,
            <PhysicsSets as ResourceKind>::held(old(w).res()) is Some,
        ),
        exists|b: u64|
            #![trigger lookup(final(w)@.bindings, b)]
            match lookup(final(w)@.bindings, b) {
                Some(bind) => !old(w)@.live.contains(b) && b != r && bind.car_entity == r && are_new_wheels(
                    old(w)@,
                    final(w)@,
                    bind.wheel_entities@,
                ) && forall|i: int| 0 <= i < 4 ==> #[trigger] bind.wheel_entities@[i] != r && bind.wheel_entities@[i] != b,
                None => false,
            },
        <PhysicsSets as ResourceKind>::held(old(w).res()) is None ==> final(w).res() == old(w).res(),
        match <PhysicsSets as ResourceKind>::held(old(w).res()) {
            Some(p0) => match <PhysicsSets as ResourceKind>::held(final(w).res()) {
                Some(p1) => !poses_of(p0.bodies).contains_key(lookup(final(w)@.bodies, r).unwrap().handle)
                    && poses_of(p1.bodies) == poses_of(p0.bodies).insert(
                    lookup(final(w)@.bodies, r).unwrap().handle,
                    Pose { translation: position, rotation: identity_quat_spec() },
                ) && !colliders_of(p0.colliders).contains(lookup(final(w)@.colliders, r).unwrap().handle)
                    && colliders_of(p1.colliders) == colliders_of(p0.colliders).insert(
                    lookup(final(w)@.colliders, r).unwrap().handle,
                ),
                None => false,
            },
            None => true,
        },
{
    let ghost m0 = w@;
    let ghost res0 = w.res();
    let mut car = CarComponent::default();
    car.name = String::from_str(model_name);
    let transform = TransformComponent {
        position,
        rotation,
        scale: Vec3Bits { x: F32_ONE_BITS, y: F32_ONE_BITS, z: F32_ONE_BITS },
    };
    let (body, collider) = match w.resources_mut().get_mut::<PhysicsSets>() {
        Some(sets) => {
            let h = sets.create_rigid_body(position, RigidBodyType::Dynamic);
            let c = sets.add_box_collider(
                Vec3Bits { x: BODY_HALF_X_BITS, y: BODY_HALF_Y_BITS, z: BODY_HALF_Z_BITS },
                BODY_RESTITUTION_BITS,
                BODY_FRICTION_BITS,
            );
            (
                RigidBodyComponent { handle: h, body_type: RigidBodyType::Dynamic },
                ColliderComponent { handle: c, shape_type: ColliderShapeType::Box },
            )
        },
        None => (
            RigidBodyComponent { handle: Handle::uninitialized(), body_type: RigidBodyType::Dynamic },
            ColliderComponent { handle: Handle::uninitialized(), shape_type: ColliderShapeType::Box },
        ),
    };
    assert(w@ == m0);
    let ghost res1 = w.res();
    proof {
        <PhysicsSets as ResourceKind>::lemma_held_with_all();
    }
    let e = w.spawn();
    let ghost m1 = w@;
    proof {
        lemma_lookup_inserted(m1.cars, e, car);
        lemma_insert_fresh(m0.cars, m0.live, e, car);
    }
    let _ = w.insert(e, car);
    let ghost m2 = w@;
    proof {
        lemma_lookup_inserted(m2.transforms, e, transform);
        lemma_insert_fresh(m0.transforms, m0.live, e, transform);
    }
    let _ = w.insert(e, transform);
    let ghost m3 = w@;
    proof {
        lemma_lookup_inserted(m3.bodies, e, body);
        lemma_insert_fresh(m0.bodies, m0.live, e, body);
    }
    let _ = w.insert(e, body);
    let ghost m4 = w@;
    proof {
        lemma_lookup_inserted(m4.colliders, e, collider);
        lemma_insert_fresh(m0.colliders, m0.live, e, collider);
    }
    let _ = w.insert(e, collider);
    let ghost m5 = w@;
    let wheels = create_wheels_for_car(w, e);
    let ghost m6 = w@;
    let ghost ids = wheels@;
    let b = w.spawn();
    let ghost m7 = w@;
    let binding = CarWheelBindingComponent { car_entity: e, wheel_entities: wheels };
    proof {
        lemma_lookup_inserted(m7.bindings, b, binding);
        lemma_insert_fresh(m6.bindings, m6.live, b, binding);
    }
    let _ = w.insert(b, binding);
    assert(w@.bindings.drop_last() =~= m0.bindings);
    assert(w@.cars.drop_last() =~= m0.cars);
    assert(m5.bodies[m0.bodies.len() as int] == (e, body));
    assert(m5.colliders[m0.colliders.len() as int] == (e, collider));
    assert(forall|i: int| 0 <= i < 4 ==> is_wheel_at(w@, #[trigger] ids[i], i));
    e
}

/// Spawns an entity holding only a weather component: settled weather of
/// `weather_type` at `intensity`.
pub fn create_weather(w: &mut WorldStore, weather_type: WeatherType, intensity: i64) -> (r: u64)
    requires
        old(w)@.wf(),
        old(w)@.live.len() < u32::MAX,
    ensures
        final(w)@.wf(),
        final(w).res() == old(w).res(),
        extends(old(w)@, final(w)@),
        !old(w)@.live.contains(r),
        final(w)@.live == old(w)@.live.insert(r),
        match lookup(final(w)@.weathers, r) {
            Some(c) => c.weather_type == weather_type && c.intensity == intensity && c.target_weather is None
                && c.current_time == 0 && c.transition_time == 10 * ONE,
            None => false,
        },
{
    let e = w.spawn();
    let ghost m1 = w@;
    let c = WeatherComponent::new(weather_type, intensity);
    proof {
        lemma_lookup_inserted(m1.weathers, e, c);
    }
    let _ = w.insert(e, c);
    e
}

/// Spawns an entity holding only a clock set to `hour:minute` (wrapped into
/// a valid time).
pub fn create_time_of_day(w: &mut WorldStore, hour: i64, minute: i64) -> (r: u64)
    requires
        old(w)@.wf(),
        old(w)@.live.len() < u32::MAX,
    ensures
        final(w)@.wf(),
        final(w).res() == old(w).res(),
        extends(old(w)@, final(w)@),
        !old(w)@.live.contains(r),
        final(w)@.live == old(w)@.live.insert(r),
        match lookup(final(w)@.times, r) {
            Some(c) => c.wf() && (0 <= hour < 24 * ONE ==> c.hour == hour) && (0 <= minute < 60 * ONE
                ==> c.minute == minute),
            None => false,
        },
{
    let e = w.spawn();
    let ghost m1 = w@;
    let c = TimeOfDayComponent::new(hour, minute);
    proof {
        lemma_lookup_inserted(m1.times, e, c);
    }
    let _ = w.insert(e, c);
    e
}

/// Spawns a destructible piece of scenery at `position` with `rotation`:
/// full health `health`, destroyed at 0.1, with a cracked stage from 70%
/// health and a broken stage from 30%.
pub fn create_destructible_object(
    w: &mut WorldStore,
    position: Vec3Bits,
    rotation: QuatBits,
    health: i64,
    object_type: EnvironmentObjectType,
) -> (r: u64)
    requires
        old(w)@.wf(),
        old(w)@.live.len() < u32::MAX,
        in_range(health as int),
    ensures
        final(w)@.wf(),
        final(w).res() == old(w).res(),
        extends(old(w)@, final(w)@),
        !old(w)@.live.contains(r),
        final(w)@.live == old(w)@.live.insert(r),
        match lookup(final(w)@.destructibles, r) {
            Some(d) => d.health == health && d.max_health == health && !d.destroyed && d.current_stage == 0
                && d.destruction_threshold == 100_000 && d.destruction_stages@.len() == 2
                && d.destruction_stages@[0].health_threshold == 700_000
                && d.destruction_stages@[1].health_threshold == 300_000,
            None => false,
        },
        match lookup(final(w)@.scenery, r) {
            Some(o) => o.object_type == object_type && o.can_collide && o.is_static,
            None => false,
        },
        lookup(final(w)@.transforms, r) == Some(
            TransformComponent {
                position,
                rotation,
                scale: Vec3Bits { x: F32_ONE_BITS, y: F32_ONE_BITS, z: F32_ONE_BITS },
            },
        ),
{
    let e = w.spawn();
    let ghost m1 = w@;
    let t = TransformComponent {
        position,
        rotation,
        scale: Vec3Bits { x: F32_ONE_BITS, y: F32_ONE_BITS, z: F32_ONE_BITS },
    };
    proof {
        lemma_lookup_inserted(m1.transforms, e, t);
    }
    let _ = w.insert(e, t);
    let ghost m2 = w@;
    let cracked = DestructionStage {
        health_threshold: 700_000,
        mesh_id: 1,
        effects: vec![String::from_str("smoke")],
        sounds: vec![String::from_str("crack")],
    };
    let broken = DestructionStage {
        health_threshold: 300_000,
        mesh_id: 2,
        effects: vec![String::from_str("smoke"), String::from_str("sparks")],
        sounds: vec![String::from_str("break")],
    };
    let d = DestructibleComponent {
        health,
        max_health: health,
        destroyed: false,
        destruction_threshold: 100_000,
        destruction_stages: vec![cracked, broken],
        current_stage: 0,
    };
    proof {
        lemma_lookup_inserted(m2.destructibles, e, d);
    }
    let _ = w.insert(e, d);
    let ghost m3 = w@;
    let o = EnvironmentObjectComponent { object_type, can_collide: true, is_static: true };
    proof {
        lemma_lookup_inserted(m3.scenery, e, o);
    }
    let _ = w.insert(e, o);
    e
}

/// Spawns a straight asphalt track of `length` and `width`: the track
/// entity, one straight segment entity (with a static, not yet attached
/// body and collider) and a finish-line checkpoint entity, both listed in the
/// track component, and a grid of four start positions 2 m apart.
pub fn create_simple_track(w: &mut WorldStore, length: i64, width: i64) -> (r: u64)
    requires
        old(w)@.wf(),
        old(w)@.live.len() + 3 < u32::MAX,
    ensures
        final(w)@.wf(),
        final(w).res() == old(w).res(),
        extends(old(w)@, final(w)@),
        !old(w)@.live.contains(r),
        match lookup(final(w)@.tracks, r) {
            Some(t) => t.name@ == "Simple Track"@ && t.length == length && t.segments@.len() == 1
                && t.checkpoints@.len() == 1 && t.start_positions@ == seq![
                FixedVec3 { x: 0, y: 0, z: 0 },
                FixedVec3 { x: 2_000_000, y: 0, z: 0 },
                FixedVec3 { x: 4_000_000, y: 0, z: 0 },
                FixedVec3 { x: 6_000_000, y: 0, z: 0 },
            ] && final(w)@.live.contains(t.segments@[0])
                && lookup(final(w)@.bodies, t.segments@[0]) == Some(
                RigidBodyComponent { handle: uninitialized_spec(), body_type: RigidBodyType::Static },
            ) && lookup(final(w)@.colliders, t.segments@[0]) == Some(
                ColliderComponent { handle: uninitialized_spec(), shape_type: ColliderShapeType::Box },
            ) && lookup(final(w)@.transforms, t.segments@[0]) == Some(
                TransformComponent {
                    position: Vec3Bits { x: 0, y: 0, z: 0 },
                    rotation: identity_quat_spec(),
                    scale: Vec3Bits { x: F32_ONE_BITS, y: F32_ONE_BITS, z: F32_ONE_BITS },
                },
            )
                && lookup(final(w)@.segments, t.segments@[0]) == Some(
                TrackSegmentComponent {
                    segment_type: TrackSegmentType::Straight,
                    length,
                    width,
                    curvature: 0,
                    banking: 0,
                    surface_type: SurfaceType::Asphalt,
                    friction: ONE,
                },
            ) && final(w)@.live.contains(t.checkpoints@[0]) && lookup(final(w)@.checkpoints, t.checkpoints@[0])
                == Some(CheckpointComponent { index: 0, width, is_finish_line: true }),
            None => false,
        },
{
    let ghost m0 = w@;
    let track = w.spawn();
    let segment = w.spawn();
    let ghost m2 = w@;
    let seg = TrackSegmentComponent {
        segment_type: TrackSegmentType::Straight,
        length,
        width,
        curvature: 0,
        banking: 0,
        surface_type: SurfaceType::Asphalt,
        friction: ONE,
    };
    proof {
        lemma_lookup_inserted(m2.segments, segment, seg);
    }
    let _ = w.insert(segment, seg);
    let ghost m3 = w@;
    let t = TransformComponent::default();
    proof {
        lemma_lookup_inserted(m3.transforms, segment, t);
    }
    let _ = w.insert(segment, t);
    let ghost m4 = w@;
    let b = RigidBodyComponent { handle: Handle::uninitialized(), body_type: RigidBodyType::Static };
    proof {
        lemma_lookup_inserted(m4.bodies, segment, b);
    }
    let _ = w.insert(segment, b);
    let ghost m5 = w@;
    let c = ColliderComponent { handle: Handle::uninitialized(), shape_type: ColliderShapeType::Box };
    proof {
        lemma_lookup_inserted(m5.colliders, segment, c);
    }
    let _ = w.insert(segment, c);
    let ghost m6 = w@;
    let checkpoint = w.spawn();
    let ghost m7 = w@;
    let cp = CheckpointComponent { index: 0, width, is_finish_line: true };
    proof {
        lemma_lookup_inserted(m7.checkpoints, checkpoint, cp);
    }
    let _ = w.insert(checkpoint, cp);
    let ghost m8 = w@;
    let t2 = TransformComponent::default();
    proof {
        lemma_lookup_inserted(m8.transforms, checkpoint, t2);
    }
    let _ = w.insert(checkpoint, t2);
    let ghost m9 = w@;
    let mut segments: Vec<u64> = Vec::new();
    segments.push(segment);
    let mut checkpoints: Vec<u64> = Vec::new();
    checkpoints.push(checkpoint);
    let tc = TrackComponent {
        name: String::from_str("Simple Track"),
        length,
        segments,
        checkpoints,
        start_positions: vec![
            FixedVec3::new(0, 0, 0),
            FixedVec3::new(2 * ONE, 0, 0),
            FixedVec3::new(4 * ONE, 0, 0),
            FixedVec3::new(6 * ONE, 0, 0),
        ],
    };
    assert(tc.start_positions@ =~= seq![
        FixedVec3 { x: 0, y: 0, z: 0 },
        FixedVec3 { x: 2_000_000, y: 0, z: 0 },
        FixedVec3 { x: 4_000_000, y: 0, z: 0 },
        FixedVec3 { x: 6_000_000, y: 0, z: 0 },
    ]);
    proof {
        lemma_lookup_inserted(m9.tracks, track, tc);
    }
    let _ = w.insert(track, tc);
    track
}

/// Loading a track from a file is not provided: always `Unimplemented`, and
/// the world is left as it is.
pub fn load_track_from_file(w: &mut WorldStore, file_path: &str) -> (r: Result<u64, EcsError>)
    ensures
        r == Err::<u64, EcsError>(EcsError::Unimplemented),
        *final(w) == *old(w),
{
    Err(EcsError::Unimplemented)
}

} // verus!
