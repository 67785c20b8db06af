use vstd::prelude::*;
use crate::car::{control_car, control_spec, CarComponent};
use crate::input::ActionStates;
use crate::resources::ResourceKind;
use crate::scalar::in_range;
use crate::entities::{hecs_contains, hecs_despawn, hecs_new, hecs_spawn, live_of};
use crate::physics::{
    poses_of, uninitialized_spec, ColliderComponent, PhysicsSets, Pose, RigidBodyComponent,
    TransformComponent,
};
use crate::resources::{holds_nothing, ResourceManager};
use crate::table::{
    all_entries, has_key, index_of, inserted, lemma_all_entries, lemma_index_of, lemma_lookup_at, keys_unique, lemma_inserted, lemma_removed, lookup, removed,
    Table,
};
use crate::wheel::{wheel_step, wheel_step_spec, WheelComponent};
use crate::environment::{
    clock_step, clock_step_spec, destructible_step, destructible_step_spec, weather_step,
    weather_step_spec, DestructibleComponent, EnvironmentObjectComponent, TimeOfDayComponent, WeatherComponent,
};
use crate::track::{CheckpointComponent, TrackComponent, TrackSegmentComponent};

verus! {

/// Failures of world operations.
#[derive(Debug, Clone, Copy, PartialEq, Eq, Structural)]
pub enum EcsError {
    /// The entity (or resource) does not exist.
    NotFound,
    /// A stored solver handle no longer resolves.
    InvalidHandle,
    /// The operation is not provided.
    Unimplemented,
}

/// A non-owning relation from a car to its wheels. Car and wheels can be
/// despawned independently; consumers skip entries that no longer resolve.
#[derive(Debug)]
pub struct CarWheelBindingComponent {
    pub car_entity: u64,
    pub wheel_entities: Vec<u64>,
}

/// The component types the world stores.
#[derive(Debug, Clone, Copy, PartialEq, Eq, Structural)]
pub enum ComponentKind {
    Car,
    Wheel,
    Transform,
    RigidBody,
    Collider,
    Binding,
    Weather,
    TimeOfDay,
    Destructible,
    Scenery,
    Track,
    TrackSegment,
    Checkpoint,
}

/// What a world holds: its live entities and, per component type, the
/// (entity, value) entries in storage order.
pub struct WorldModel {
    pub live: Set<u64>,
    pub cars: Seq<(u64, CarComponent)>,
    pub wheels: Seq<(u64, WheelComponent)>,
    pub transforms: Seq<(u64, TransformComponent)>,
    pub bodies: Seq<(u64, RigidBodyComponent)>,
    pub colliders: Seq<(u64, ColliderComponent)>,
    pub bindings: Seq<(u64, CarWheelBindingComponent)>,
    pub weathers: Seq<(u64, WeatherComponent)>,
    pub times: Seq<(u64, TimeOfDayComponent)>,
    pub destructibles: Seq<(u64, DestructibleComponent)>,
    pub scenery: Seq<(u64, EnvironmentObjectComponent)>,
    pub tracks: Seq<(u64, TrackComponent)>,
    pub segments: Seq<(u64, TrackSegmentComponent)>,
    pub checkpoints: Seq<(u64, CheckpointComponent)>,
}

/// `b` holds every entity of `a`, each with the components it had in `a`.
pub open spec fn extends(a: WorldModel, b: WorldModel) -> bool {
    &&& a.live.subset_of(b.live)
    &&& forall|x: u64| a.live.contains(x) ==> #[trigger] lookup(b.cars, x) == lookup(a.cars, x)
    &&& forall|x: u64| a.live.contains(x) ==> #[trigger] lookup(b.wheels, x) == lookup(a.wheels, x)
    &&& forall|x: u64|
        a.live.contains(x) ==> #[trigger] lookup(b.transforms, x) == lookup(a.transforms, x)
    &&& forall|x: u64| a.live.contains(x) ==> #[trigger] lookup(b.bodies, x) == lookup(a.bodies, x)
    &&& forall|x: u64|
        a.live.contains(x) ==> #[trigger] lookup(b.colliders, x) == lookup(a.colliders, x)
    &&& forall|x: u64|
        a.live.contains(x) ==> #[trigger] lookup(b.bindings, x) == lookup(a.bindings, x)
    &&& forall|x: u64| a.live.contains(x) ==> #[trigger] lookup(b.weathers, x) == lookup(a.weathers, x)
    &&& forall|x: u64| a.live.contains(x) ==> #[trigger] lookup(b.times, x) == lookup(a.times, x)
    &&& forall|x: u64| a.live.contains(x) ==> #[trigger] lookup(b.destructibles, x) == lookup(a.destructibles, x)
    &&& forall|x: u64| a.live.contains(x) ==> #[trigger] lookup(b.scenery, x) == lookup(a.scenery, x)
    &&& forall|x: u64| a.live.contains(x) ==> #[trigger] lookup(b.tracks, x) == lookup(a.tracks, x)
    &&& forall|x: u64| a.live.contains(x) ==> #[trigger] lookup(b.segments, x) == lookup(a.segments, x)
    &&& forall|x: u64| a.live.contains(x) ==> #[trigger] lookup(b.checkpoints, x) == lookup(a.checkpoints, x)
}

/// The environment and track tables of `a` and `b` are the same.
pub open spec fn env_same(a: WorldModel, b: WorldModel) -> bool {
    &&& a.weathers == b.weathers
    &&& a.times == b.times
    &&& a.destructibles == b.destructibles
    &&& a.scenery == b.scenery
    &&& a.tracks == b.tracks
    &&& a.segments == b.segments
    &&& a.checkpoints == b.checkpoints
}

/// Entries have distinct keys, all of them live entities.
pub open spec fn keyed_in<C>(s: Seq<(u64, C)>, live: Set<u64>) -> bool {
    &&& keys_unique(s)
    &&& forall|i: int| 0 <= i < s.len() ==> live.contains(#[trigger] s[i].0)
}

pub open spec fn car_ok(e: (u64, CarComponent)) -> bool {
    e.1.wf()
}

pub open spec fn wheel_ok(e: (u64, WheelComponent)) -> bool {
    e.1.wf()
}

pub open spec fn weather_ok(e: (u64, WeatherComponent)) -> bool {
    e.1.wf()
}

pub open spec fn time_ok(e: (u64, TimeOfDayComponent)) -> bool {
    e.1.wf()
}

pub open spec fn destructible_ok(e: (u64, DestructibleComponent)) -> bool {
    e.1.wf()
}

impl WorldModel {
    /// Components belong to live entities, at most one per type and entity,
    /// and cars and wheels hold in-range tuning.
    pub open spec fn wf(self) -> bool {
        &&& self.live.finite()
        &&& keyed_in(self.cars, self.live)
        &&& keyed_in(self.wheels, self.live)
        &&& keyed_in(self.transforms, self.live)
        &&& keyed_in(self.bodies, self.live)
        &&& keyed_in(self.colliders, self.live)
        &&& keyed_in(self.bindings, self.live)
        &&& all_entries(self.cars, |e: (u64, CarComponent)| car_ok(e))
        &&& all_entries(self.wheels, |e: (u64, WheelComponent)| wheel_ok(e))
        &&& keyed_in(self.weathers, self.live)
        &&& keyed_in(self.times, self.live)
        &&& keyed_in(self.destructibles, self.live)
        &&& keyed_in(self.scenery, self.live)
        &&& keyed_in(self.tracks, self.live)
        &&& keyed_in(self.segments, self.live)
        &&& keyed_in(self.checkpoints, self.live)
        &&& all_entries(self.weathers, |e: (u64, WeatherComponent)| weather_ok(e))
        &&& all_entries(self.times, |e: (u64, TimeOfDayComponent)| time_ok(e))
        &&& all_entries(self.destructibles, |e: (u64, DestructibleComponent)| destructible_ok(e))
    }

    /// `a` and `b` hold the same entities and agree on every component type
    /// but `k`.
    pub open spec fn same_except(a: WorldModel, b: WorldModel, k: ComponentKind) -> bool {
        &&& a.live == b.live
        &&& k != ComponentKind::Car ==> a.cars == b.cars
        &&& k != ComponentKind::Wheel ==> a.wheels == b.wheels
        &&& k != ComponentKind::Transform ==> a.transforms == b.transforms
        &&& k != ComponentKind::RigidBody ==> a.bodies == b.bodies
        &&& k != ComponentKind::Collider ==> a.colliders == b.colliders
        &&& k != ComponentKind::Binding ==> a.bindings == b.bindings
        &&& k != ComponentKind::Weather ==> a.weathers == b.weathers
        &&& k != ComponentKind::TimeOfDay ==> a.times == b.times
        &&& k != ComponentKind::Destructible ==> a.destructibles == b.destructibles
        &&& k != ComponentKind::Scenery ==> a.scenery == b.scenery
        &&& k != ComponentKind::Track ==> a.tracks == b.tracks
        &&& k != ComponentKind::TrackSegment ==> a.segments == b.segments
        &&& k != ComponentKind::Checkpoint ==> a.checkpoints == b.checkpoints
    }
}

/// The world store: entity identities come from a hecs world (generation
/// stamped, so a despawned entity's id never resolves again while its slot
/// is reused), component data lives in one table per type, and world-global
/// singletons live in `resources`.
pub struct WorldStore {
    entities: hecs::World,
    resources: ResourceManager,
    cars: Table<CarComponent>,
    wheels: Table<WheelComponent>,
    transforms: Table<TransformComponent>,
    bodies: Table<RigidBodyComponent>,
    colliders: Table<ColliderComponent>,
    bindings: Table<CarWheelBindingComponent>,
    weathers: Table<WeatherComponent>,
    times: Table<TimeOfDayComponent>,
    destructibles: Table<DestructibleComponent>,
    scenery: Table<EnvironmentObjectComponent>,
    tracks: Table<TrackComponent>,
    segments: Table<TrackSegmentComponent>,
    checkpoints: Table<CheckpointComponent>,
}

impl View for WorldStore {
    type V = WorldModel;

    closed spec fn view(&self) -> WorldModel {
        WorldModel {
            live: live_of(self.entities),
            cars: self.cars@,
            wheels: self.wheels@,
            transforms: self.transforms@,
            bodies: self.bodies@,
            colliders: self.colliders@,
            bindings: self.bindings@,
            weathers: self.weathers@,
            times: self.times@,
            destructibles: self.destructibles@,
            scenery: self.scenery@,
            tracks: self.tracks@,
            segments: self.segments@,
            checkpoints: self.checkpoints@,
        }
    }
}

/// A component type stored by the world.
pub trait Component: Sized {
    spec fn kind() -> ComponentKind;

    /// This type's entries in `m`.
    spec fn table_of(m: WorldModel) -> Seq<(u64, Self)>;

    /// What the world requires of a stored value of this type.
    spec fn valid(c: Self) -> bool;

    fn table(w: &WorldStore) -> (r: &Table<Self>)
        ensures
            r@ == Self::table_of(w@),
            w@.wf() ==> keyed_in(r@, w@.live),
    ;

    /// Stores `c` on the live entity `e`.
    fn store(w: &mut WorldStore, e: u64, c: Self)
        requires
            old(w)@.wf(),
            old(w)@.live.contains(e),
            Self::valid(c),
        ensures
            final(w)@.wf(),
            Self::table_of(final(w)@) == inserted(Self::table_of(old(w)@), e, c),
            WorldModel::same_except(old(w)@, final(w)@, Self::kind()),
            final(w).res() == old(w).res(),
    ;
}

impl Component for CarComponent {
    open spec fn kind() -> ComponentKind {
        ComponentKind::Car
    }

    open spec fn table_of(m: WorldModel) -> Seq<(u64, Self)> {
        m.cars
    }

    open spec fn valid(c: Self) -> bool {
        c.wf()
    }

    fn table(w: &WorldStore) -> (r: &Table<Self>) {
        &w.cars
    }

    fn store(w: &mut WorldStore, e: u64, c: Self) {
        proof {
            lemma_inserted(w.cars@, e, c, |e: (u64, CarComponent)| car_ok(e));
        }
        w.cars.insert(e, c);
        assert(keyed_in(w.cars@, w@.live));
    }
}

impl Component for WheelComponent {
    open spec fn kind() -> ComponentKind {
        ComponentKind::Wheel
    }

    open spec fn table_of(m: WorldModel) -> Seq<(u64, Self)> {
        m.wheels
    }

    open spec fn valid(c: Self) -> bool {
        c.wf()
    }

    fn table(w: &WorldStore) -> (r: &Table<Self>) {
        &w.wheels
    }

    fn store(w: &mut WorldStore, e: u64, c: Self) {
        proof {
            lemma_inserted(w.wheels@, e, c, |e: (u64, WheelComponent)| wheel_ok(e));
        }
        w.wheels.insert(e, c);
        assert(keyed_in(w.wheels@, w@.live));
    }
}

impl Component for TransformComponent {
    open spec fn kind() -> ComponentKind {
        ComponentKind::Transform
    }

    open spec fn table_of(m: WorldModel) -> Seq<(u64, Self)> {
        m.transforms
    }

    open spec fn valid(c: Self) -> bool {
        true
    }

    fn table(w: &WorldStore) -> (r: &Table<Self>) {
        &w.transforms
    }

    fn store(w: &mut WorldStore, e: u64, c: Self) {
        proof {
            lemma_inserted(w.transforms@, e, c, |e: (u64, TransformComponent)| true);
        }
        w.transforms.insert(e, c);
        assert(keyed_in(w.transforms@, w@.live));
    }
}

impl Component for RigidBodyComponent {
    open spec fn kind() -> ComponentKind {
        ComponentKind::RigidBody
    }

    open spec fn table_of(m: WorldModel) -> Seq<(u64, Self)> {
        m.bodies
    }

    open spec fn valid(c: Self) -> bool {
        true
    }

    fn table(w: &WorldStore) -> (r: &Table<Self>) {
        &w.bodies
    }

    fn store(w: &mut WorldStore, e: u64, c: Self) {
        proof {
            lemma_inserted(w.bodies@, e, c, |e: (u64, RigidBodyComponent)| true);
        }
        w.bodies.insert(e, c);
        assert(keyed_in(w.bodies@, w@.live));
    }
}

impl Component for ColliderComponent {
    open spec fn kind() -> ComponentKind {
        ComponentKind::Collider
    }

    open spec fn table_of(m: WorldModel) -> Seq<(u64, Self)> {
        m.colliders
    }

    open spec fn valid(c: Self) -> bool {
        true
    }

    fn table(w: &WorldStore) -> (r: &Table<Self>) {
        &w.colliders
    }

    fn store(w: &mut WorldStore, e: u64, c: Self) {
        proof {
            lemma_inserted(w.colliders@, e, c, |e: (u64, ColliderComponent)| true);
        }
        w.colliders.insert(e, c);
        assert(keyed_in(w.colliders@, w@.live));
    }
}

impl Component for CarWheelBindingComponent {
    open spec fn kind() -> ComponentKind {
        ComponentKind::Binding
    }

    open spec fn table_of(m: WorldModel) -> Seq<(u64, Self)> {
        m.bindings
    }

    open spec fn valid(c: Self) -> bool {
        true
    }

    fn table(w: &WorldStore) -> (r: &Table<Self>) {
        &w.bindings
    }

    fn store(w: &mut WorldStore, e: u64, c: Self) {
        proof {
            lemma_inserted(w.bindings@, e, c, |e: (u64, CarWheelBindingComponent)| true);
        }
        w.bindings.insert(e, c);
        assert(keyed_in(w.bindings@, w@.live));
    }
}

impl Component for WeatherComponent {
    open spec fn kind() -> ComponentKind {
        ComponentKind::Weather
    }

    open spec fn table_of(m: WorldModel) -> Seq<(u64, Self)> {
        m.weathers
    }

    open spec fn valid(c: Self) -> bool {
        c.wf()
    }

    fn table(w: &WorldStore) -> (r: &Table<Self>) {
        &w.weathers
    }

    fn store(w: &mut WorldStore, e: u64, c: Self) {
        proof {
            lemma_inserted(w.weathers@, e, c, |e: (u64, WeatherComponent)| weather_ok(e));
        }
        w.weathers.insert(e, c);
        assert(keyed_in(w.weathers@, w@.live));
    }
}

impl Component for TimeOfDayComponent {
    open spec fn kind() -> ComponentKind {
        ComponentKind::TimeOfDay
    }

    open spec fn table_of(m: WorldModel) -> Seq<(u64, Self)> {
        m.times
    }

    open spec fn valid(c: Self) -> bool {
        c.wf()
    }

    fn table(w: &WorldStore) -> (r: &Table<Self>) {
        &w.times
    }

    fn store(w: &mut WorldStore, e: u64, c: Self) {
        proof {
            lemma_inserted(w.times@, e, c, |e: (u64, TimeOfDayComponent)| time_ok(e));
        }
        w.times.insert(e, c);
        assert(keyed_in(w.times@, w@.live));
    }
}

impl Component for DestructibleComponent {
    open spec fn kind() -> ComponentKind {
        ComponentKind::Destructible
    }

    open spec fn table_of(m: WorldModel) -> Seq<(u64, Self)> {
        m.destructibles
    }

    open spec fn valid(c: Self) -> bool {
        c.wf()
    }

    fn table(w: &WorldStore) -> (r: &Table<Self>) {
        &w.destructibles
    }

    fn store(w: &mut WorldStore, e: u64, c: Self) {
        proof {
            lemma_inserted(w.destructibles@, e, c, |e: (u64, DestructibleComponent)| destructible_ok(e));
        }
        w.destructibles.insert(e, c);
        assert(keyed_in(w.destructibles@, w@.live));
    }
}

impl Component for EnvironmentObjectComponent {
    open spec fn kind() -> ComponentKind {
        ComponentKind::Scenery
    }

    open spec fn table_of(m: WorldModel) -> Seq<(u64, Self)> {
        m.scenery
    }

    open spec fn valid(c: Self) -> bool {
        true
    }

    fn table(w: &WorldStore) -> (r: &Table<Self>) {
        &w.scenery
    }

    fn store(w: &mut WorldStore, e: u64, c: Self) {
        proof {
            lemma_inserted(w.scenery@, e, c, |e: (u64, EnvironmentObjectComponent)| true);
        }
        w.scenery.insert(e, c);
        assert(keyed_in(w.scenery@, w@.live));
    }
}

impl Component for TrackComponent {
    open spec fn kind() -> ComponentKind {
        ComponentKind::Track
    }

    open spec fn table_of(m: WorldModel) -> Seq<(u64, Self)> {
        m.tracks
    }

    open spec fn valid(c: Self) -> bool {
        true
    }

    fn table(w: &WorldStore) -> (r: &Table<Self>) {
        &w.tracks
    }

    fn store(w: &mut WorldStore, e: u64, c: Self) {
        proof {
            lemma_inserted(w.tracks@, e, c, |e: (u64, TrackComponent)| true);
        }
        w.tracks.insert(e, c);
        assert(keyed_in(w.tracks@, w@.live));
    }
}

impl Component for TrackSegmentComponent {
    open spec fn kind() -> ComponentKind {
        ComponentKind::TrackSegment
    }

    open spec fn table_of(m: WorldModel) -> Seq<(u64, Self)> {
        m.segments
    }

    open spec fn valid(c: Self) -> bool {
        true
    }

    fn table(w: &WorldStore) -> (r: &Table<Self>) {
        &w.segments
    }

    fn store(w: &mut WorldStore, e: u64, c: Self) {
        proof {
            lemma_inserted(w.segments@, e, c, |e: (u64, TrackSegmentComponent)| true);
        }
        w.segments.insert(e, c);
        assert(keyed_in(w.segments@, w@.live));
    }
}

impl Component for CheckpointComponent {
    open spec fn kind() -> ComponentKind {
        ComponentKind::Checkpoint
    }

    open spec fn table_of(m: WorldModel) -> Seq<(u64, Self)> {
        m.checkpoints
    }

    open spec fn valid(c: Self) -> bool {
        true
    }

    fn table(w: &WorldStore) -> (r: &Table<Self>) {
        &w.checkpoints
    }

    fn store(w: &mut WorldStore, e: u64, c: Self) {
        proof {
            lemma_inserted(w.checkpoints@, e, c, |e: (u64, CheckpointComponent)| true);
        }
        w.checkpoints.insert(e, c);
        assert(keyed_in(w.checkpoints@, w@.live));
    }
}

impl WorldStore {
    /// The world-global singletons.
    pub closed spec fn res(&self) -> ResourceManager {
        self.resources
    }

    /// The resource table.
    pub fn resources(&self) -> (r: &ResourceManager)
        ensures
            *r == self.res(),
    {
        &self.resources
    }

    /// Mutable access to the resource table; entities and components are
    /// left as they are.
    pub fn resources_mut(&mut self) -> (r: &mut ResourceManager)
        ensures
            *r == old(self).res(),
            final(self)@ == old(self)@,
            final(self).res() == *final(r),
    {
        &mut self.resources
    }

    /// An empty world with an empty resource table.
    pub fn new() -> (r: Self)
        ensures
            r@.wf(),
            r@.live.is_empty(),
            r@.cars.len() == 0 && r@.wheels.len() == 0 && r@.transforms.len() == 0,
            r@.bodies.len() == 0 && r@.colliders.len() == 0 && r@.bindings.len() == 0,
            holds_nothing(r.res()),
    {
        let w = WorldStore {
            entities: hecs_new(),
            resources: ResourceManager::new(),
            cars: Table::new(),
            wheels: Table::new(),
            transforms: Table::new(),
            bodies: Table::new(),
            colliders: Table::new(),
            bindings: Table::new(),
            weathers: Table::new(),
            times: Table::new(),
            destructibles: Table::new(),
            scenery: Table::new(),
            tracks: Table::new(),
            segments: Table::new(),
            checkpoints: Table::new(),
        };
        w
    }

    /// Whether `e` is alive.
    pub fn contains(&self, e: u64) -> (r: bool)
        ensures
            r == self@.live.contains(e),
    {
        hecs_contains(&self.entities, e)
    }

    /// Creates an entity with no components.
    pub fn spawn(&mut self) -> (r: u64)
        requires
            old(self)@.wf(),
            old(self)@.live.len() < u32::MAX,
        ensures
            final(self)@.wf(),
            !old(self)@.live.contains(r),
            final(self)@ == (WorldModel { live: old(self)@.live.insert(r), ..old(self)@ }),
            final(self).res() == old(self).res(),
    {
        let e = hecs_spawn(&mut self.entities);
        e
    }

    /// Destroys `e` with all its components; `NotFound` if it is not alive.
    pub fn despawn(&mut self, e: u64) -> (r: Result<(), EcsError>)
        requires
            old(self)@.wf(),
        ensures
            final(self)@.wf(),
            final(self).res() == old(self).res(),
            r is Ok <==> old(self)@.live.contains(e),
            r is Err ==> r == Err::<(), EcsError>(EcsError::NotFound) && final(self)@ == old(self)@,
            r is Ok ==> final(self)@ == (WorldModel {
                live: old(self)@.live.remove(e),
                cars: removed(old(self)@.cars, e),
                wheels: removed(old(self)@.wheels, e),
                transforms: removed(old(self)@.transforms, e),
                bodies: removed(old(self)@.bodies, e),
                colliders: removed(old(self)@.colliders, e),
                bindings: removed(old(self)@.bindings, e),
                weathers: removed(old(self)@.weathers, e),
                times: removed(old(self)@.times, e),
                destructibles: removed(old(self)@.destructibles, e),
                scenery: removed(old(self)@.scenery, e),
                tracks: removed(old(self)@.tracks, e),
                segments: removed(old(self)@.segments, e),
                checkpoints: removed(old(self)@.checkpoints, e),
            }),
    {
        let ghost m = self@;
        if !hecs_despawn(&mut self.entities, e) {
            assert(self@.live =~= m.live);
            assert(self@ == m);
            return Err(EcsError::NotFound);
        }
        proof {
            lemma_removed(m.cars, e, |e: (u64, CarComponent)| car_ok(e));
            lemma_removed(m.wheels, e, |e: (u64, WheelComponent)| wheel_ok(e));
            lemma_removed(m.transforms, e, |e: (u64, TransformComponent)| true);
            lemma_removed(m.bodies, e, |e: (u64, RigidBodyComponent)| true);
            lemma_removed(m.colliders, e, |e: (u64, ColliderComponent)| true);
            lemma_removed(m.bindings, e, |e: (u64, CarWheelBindingComponent)| true);
            lemma_removed(m.weathers, e, |e: (u64, WeatherComponent)| weather_ok(e));
            lemma_removed(m.times, e, |e: (u64, TimeOfDayComponent)| time_ok(e));
            lemma_removed(m.destructibles, e, |e: (u64, DestructibleComponent)| destructible_ok(e));
            lemma_removed(m.scenery, e, |e: (u64, EnvironmentObjectComponent)| true);
            lemma_removed(m.tracks, e, |e: (u64, TrackComponent)| true);
            lemma_removed(m.segments, e, |e: (u64, TrackSegmentComponent)| true);
            lemma_removed(m.checkpoints, e, |e: (u64, CheckpointComponent)| true);
        }
        self.cars.remove(e);
        self.wheels.remove(e);
        self.transforms.remove(e);
        self.bodies.remove(e);
        self.colliders.remove(e);
        self.bindings.remove(e);
        self.weathers.remove(e);
        self.times.remove(e);
        self.destructibles.remove(e);
        self.scenery.remove(e);
        self.tracks.remove(e);
        self.segments.remove(e);
        self.checkpoints.remove(e);
        proof {
            lemma_removed_keyed(m.cars, e, m.live);
            lemma_removed_keyed(m.wheels, e, m.live);
            lemma_removed_keyed(m.transforms, e, m.live);
            lemma_removed_keyed(m.bodies, e, m.live);
            lemma_removed_keyed(m.colliders, e, m.live);
            lemma_removed_keyed(m.bindings, e, m.live);
            lemma_removed_keyed(m.weathers, e, m.live);
            lemma_removed_keyed(m.times, e, m.live);
            lemma_removed_keyed(m.destructibles, e, m.live);
            lemma_removed_keyed(m.scenery, e, m.live);
            lemma_removed_keyed(m.tracks, e, m.live);
            lemma_removed_keyed(m.segments, e, m.live);
            lemma_removed_keyed(m.checkpoints, e, m.live);
        }
        Ok(())
    }

    /// Attaches `c` to `e`, replacing a component of the same type;
    /// `NotFound` if `e` is not alive.
    pub fn insert<C: Component>(&mut self, e: u64, c: C) -> (r: Result<(), EcsError>)
        requires
            old(self)@.wf(),
            C::valid(c),
        ensures
            final(self)@.wf(),
            final(self).res() == old(self).res(),
            r is Ok <==> old(self)@.live.contains(e),
            r is Err ==> r == Err::<(), EcsError>(EcsError::NotFound) && final(self)@ == old(self)@,
            r is Ok ==> C::table_of(final(self)@) == inserted(C::table_of(old(self)@), e, c)
                && WorldModel::same_except(old(self)@, final(self)@, C::kind()),
    {
        if !self.contains(e) {
            return Err(EcsError::NotFound);
        }
        C::store(self, e, c);
        Ok(())
    }

    /// The component of type `C` on `e`; `NotFound` if `e` has none (a
    /// despawned entity has none).
    pub fn get<C: Component>(&self, e: u64) -> (r: Result<&C, EcsError>)
        requires
            self@.wf(),
        ensures
            match r {
                Ok(x) => lookup(C::table_of(self@), e) == Some(*x),
                Err(err) => err == EcsError::NotFound && lookup(C::table_of(self@), e).is_none(),
            },
    {
        match C::table(self).get(e) {
            Some(x) => Ok(x),
            None => Err(EcsError::NotFound),
        }
    }

    /// The (entity, component) entries of type `C` in storage order.
    pub fn entries<C: Component>(&self) -> (r: &Table<C>)
        ensures
            r@ == C::table_of(self@),
    {
        C::table(self)
    }
}

/// Every car of `cars` after one control step with actions `a`.
pub open spec fn control_cars_spec(cars: Seq<(u64, CarComponent)>, a: ActionStates, dt: int) -> Seq<
    (u64, CarComponent),
> {
    Seq::new(cars.len(), |i: int| (cars[i].0, control_spec(cars[i].1, a, dt)))
}

/// The world after the control step: with an action resource present, every
/// car is stepped with those actions; without one, nothing changes.
pub open spec fn car_control_spec(m: WorldModel, res: ResourceManager, dt: int) -> WorldModel {
    match <ActionStates as ResourceKind>::held(res) {
        Some(a) => WorldModel { cars: control_cars_spec(m.cars, a, dt), ..m },
        None => m,
    }
}

impl WorldStore {
    /// The vehicle control step: turns the current action intensities into
    /// each car's throttle, brake, handbrake, steering and gear.
    pub fn run_car_control(&mut self, dt: i64)
        requires
            old(self)@.wf(),
            in_range(dt as int),
        ensures
            final(self)@.wf(),
            final(self).res() == old(self).res(),
            final(self)@ == car_control_spec(old(self)@, old(self).res(), dt as int),
    {
        let a: ActionStates = match self.resources.get::<ActionStates>() {
            Some(a) => *a,
            None => {
                return;
            },
        };
        let ghost m = self@;
        let n = self.cars.len();
        let mut i: usize = 0;
        while i < n
            invariant
                m.wf(),
                <ActionStates as ResourceKind>::held(self.resources) == Some(a),
                self.resources == old(self).resources,
                self.entities == old(self).entities,
                m == old(self)@,
                n == m.cars.len(),
                0 <= i <= n,
                in_range(dt as int),
                self.cars@.len() == n,
                forall|j: int| 0 <= j < i ==> #[trigger] self.cars@[j] == (m.cars[j].0, control_spec(m.cars[j].1, a, dt as int)),
                forall|j: int| i <= j < n ==> #[trigger] self.cars@[j] == m.cars[j],
                self.wheels@ == m.wheels,
                self.transforms@ == m.transforms,
                self.bodies@ == m.bodies,
                self.colliders@ == m.colliders,
                self.bindings@ == m.bindings,
                self.weathers@ == m.weathers,
                self.times@ == m.times,
                self.destructibles@ == m.destructibles,
                self.scenery@ == m.scenery,
                self.tracks@ == m.tracks,
                self.segments@ == m.segments,
                self.checkpoints@ == m.checkpoints,
            decreases n - i,
        {
            proof {
                lemma_all_entries(m.cars, |e: (u64, CarComponent)| car_ok(e), i as int);
            }
            let car = self.cars.value_mut_at(i);
            control_car(car, &a, dt);
            i = i + 1;
        }
        proof {
            assert(self.cars@ =~= control_cars_spec(m.cars, a, dt as int));
            assert forall|j: int| 0 <= j < self.cars@.len() implies #[trigger] car_ok(self.cars@[j]) by {
                lemma_all_entries(m.cars, |e: (u64, CarComponent)| car_ok(e), j);
                crate::car::lemma_control_wf(m.cars[j].1, a, dt as int);
            }
            assert(all_entries(self.cars@, |e: (u64, CarComponent)| car_ok(e)));
            assert forall|x: int, y: int|
                0 <= x < self.cars@.len() && 0 <= y < self.cars@.len() && x != y implies #[trigger] self.cars@[x].0
                != #[trigger] self.cars@[y].0 by {
                assert(m.cars[x].0 != m.cars[y].0);
            }
            assert forall|x: int| 0 <= x < self.cars@.len() implies m.live.contains(#[trigger] self.cars@[x].0) by {
                assert(m.live.contains(m.cars[x].0));
            }
        }
    }
}

/// Wheel entries after stepping wheel entity `id` of `car`; an id that is
/// not alive, or has no wheel, is skipped.
pub open spec fn step_wheel_spec(
    ws: Seq<(u64, WheelComponent)>,
    car: CarComponent,
    id: u64,
    live: Set<u64>,
) -> Seq<(u64, WheelComponent)> {
    if live.contains(id) && has_key(ws, id) {
        ws.update(index_of(ws, id), (id, wheel_step_spec(car, ws[index_of(ws, id)].1)))
    } else {
        ws
    }
}

/// Wheel entries after stepping the wheels `ids` of `car`, in order.
pub open spec fn step_wheels_spec(
    ws: Seq<(u64, WheelComponent)>,
    car: CarComponent,
    ids: Seq<u64>,
    live: Set<u64>,
) -> Seq<(u64, WheelComponent)>
    decreases ids.len(),
{
    if ids.len() == 0 {
        ws
    } else {
        step_wheel_spec(step_wheels_spec(ws, car, ids.drop_last(), live), car, ids.last(), live)
    }
}

/// A binding's car takes part in the physics step: it is alive and has a
/// car and a rigid-body component.
pub open spec fn car_resolves(m: WorldModel, e: u64) -> bool {
    m.live.contains(e) && has_key(m.cars, e) && has_key(m.bodies, e)
}

/// Wheel entries after the first `n` bindings have been processed.
pub open spec fn physics_wheels_spec(m: WorldModel, n: nat) -> Seq<(u64, WheelComponent)>
    decreases n,
{
    if n == 0 || n > m.bindings.len() {
        m.wheels
    } else {
        let ws = physics_wheels_spec(m, (n - 1) as nat);
        let b = m.bindings[n - 1].1;
        if car_resolves(m, b.car_entity) {
            step_wheels_spec(ws, lookup(m.cars, b.car_entity).unwrap(), b.wheel_entities@, m.live)
        } else {
            ws
        }
    }
}

/// The world after the physics step: for every binding, in storage order,
/// whose car resolves, each of its listed wheels that is still alive is
/// stepped with that car; stale entries are skipped. Only wheels change.
pub open spec fn car_physics_spec(m: WorldModel) -> WorldModel {
    WorldModel { wheels: physics_wheels_spec(m, m.bindings.len()), ..m }
}

impl WorldStore {
    /// The vehicle physics step: for every car-wheel binding whose car is
    /// alive with a rigid body, updates the suspension and tire forces of
    /// each listed wheel that still exists.
    pub fn run_car_physics(&mut self)
        requires
            old(self)@.wf(),
        ensures
            final(self)@.wf(),
            final(self).res() == old(self).res(),
            final(self)@ == car_physics_spec(old(self)@),
    {
        let ghost m = self@;
        proof {
            assert forall|j: int| 0 <= j < m.wheels.len() implies #[trigger] m.wheels[j].1.wf() by {
                lemma_all_entries(m.wheels, |e: (u64, WheelComponent)| wheel_ok(e), j);
            }
        }
        let nb = self.bindings.len();
        let mut bi: usize = 0;
        while bi < nb
            invariant
                m.wf(),
                m == old(self)@,
                self.resources == old(self).resources,
                self.entities == old(self).entities,
                nb == m.bindings.len(),
                0 <= bi <= nb,
                self.wheels@ == physics_wheels_spec(m, bi as nat),
                self.wheels@.len() == m.wheels.len(),
                forall|j: int| 0 <= j < m.wheels.len() ==> #[trigger] self.wheels@[j].0 == m.wheels[j].0,
                forall|j: int| 0 <= j < m.wheels.len() ==> #[trigger] self.wheels@[j].1.wf(),
                self.cars@ == m.cars,
                self.transforms@ == m.transforms,
                self.bodies@ == m.bodies,
                self.colliders@ == m.colliders,
                self.bindings@ == m.bindings,
                self.weathers@ == m.weathers,
                self.times@ == m.times,
                self.destructibles@ == m.destructibles,
                self.scenery@ == m.scenery,
                self.tracks@ == m.tracks,
                self.segments@ == m.segments,
                self.checkpoints@ == m.checkpoints,
            decreases nb - bi,
        {
            let ghost ws0 = self.wheels@;
            let b = self.bindings.value_at(bi);
            let car_e = b.car_entity;
            if hecs_contains(&self.entities, car_e) && self.bodies.find(car_e).is_some() {
                match self.cars.get(car_e) {
                    Some(car) => {
                        proof {
                            let ci = index_of(m.cars, car_e);
                            lemma_index_of(m.cars, ci);
                            lemma_all_entries(m.cars, |e: (u64, CarComponent)| car_ok(e), ci);
                            lemma_lookup_at(m.cars, ci);
                        }
                        let ids = &b.wheel_entities;
                        let nw = ids.len();
                        let mut k: usize = 0;
                        while k < nw
                            invariant
                                m.wf(),
                                m == old(self)@,
                                self.entities == old(self).entities,
                                nw == ids@.len(),
                                0 <= k <= nw,
                                car.wf(),
                                self.wheels@ == step_wheels_spec(ws0, *car, ids@.take(k as int), m.live),
                                self.wheels@.len() == m.wheels.len(),
                                forall|j: int| 0 <= j < m.wheels.len() ==> #[trigger] self.wheels@[j].0 == m.wheels[j].0,
                                forall|j: int| 0 <= j < m.wheels.len() ==> #[trigger] self.wheels@[j].1.wf(),
                                self.resources == old(self).resources,
                                self.cars@ == m.cars,
                                self.transforms@ == m.transforms,
                                self.bodies@ == m.bodies,
                                self.colliders@ == m.colliders,
                                self.bindings@ == m.bindings,
                                self.weathers@ == m.weathers,
                                self.times@ == m.times,
                                self.destructibles@ == m.destructibles,
                                self.scenery@ == m.scenery,
                                self.tracks@ == m.tracks,
                                self.segments@ == m.segments,
                                self.checkpoints@ == m.checkpoints,
                            decreases nw - k,
                        {
                            let id = ids[k];
                            let ghost before = self.wheels@;
                            assert(ids@.take(k as int + 1).drop_last() =~= ids@.take(k as int));
                            assert(ids@.take(k as int + 1).last() == id);
                            assert(keys_unique(before)) by {
                                assert forall|x: int, y: int|
                                    0 <= x < before.len() && 0 <= y < before.len() && x != y implies
                                    #[trigger] before[x].0 != #[trigger] before[y].0 by {
                                    assert(m.wheels[x].0 != m.wheels[y].0);
                                }
                            }
                            if hecs_contains(&self.entities, id) {
                                match self.wheels.find(id) {
                                    Some(wi) => {
                                        proof {
                                            lemma_index_of(before, wi as int);
                                        }
                                        let w = self.wheels.value_mut_at(wi);
                                        wheel_step(car, w);
                                        assert(self.wheels@ =~= step_wheel_spec(before, *car, id, m.live));
                                    },
                                    None => {
                                        assert(self.wheels@ == step_wheel_spec(before, *car, id, m.live));
                                    },
                                }
                            } else {
                                assert(self.wheels@ == step_wheel_spec(before, *car, id, m.live));
                            }
                            assert(step_wheels_spec(ws0, *car, ids@.take(k as int + 1), m.live) == step_wheel_spec(
                                step_wheels_spec(ws0, *car, ids@.take(k as int), m.live),
                                *car,
                                id,
                                m.live,
                            ));
                            k = k + 1;
                        }
                        assert(ids@.take(nw as int) =~= ids@);
                    },
                    None => {},
                }
            }
            bi = bi + 1;
        }
        proof {
            assert(keys_unique(self.wheels@)) by {
                assert forall|x: int, y: int|
                    0 <= x < self.wheels@.len() && 0 <= y < self.wheels@.len() && x != y implies
                    #[trigger] self.wheels@[x].0 != #[trigger] self.wheels@[y].0 by {
                    assert(m.wheels[x].0 != m.wheels[y].0);
                }
            }
            assert forall|x: int| 0 <= x < self.wheels@.len() implies m.live.contains(#[trigger] self.wheels@[x].0) by {
                assert(m.live.contains(m.wheels[x].0));
            }
            assert forall|j: int| 0 <= j < self.wheels@.len() implies #[trigger] wheel_ok(self.wheels@[j]) by {
                assert(self.wheels@[j].1.wf());
            }
            assert(all_entries(self.wheels@, |e: (u64, WheelComponent)| wheel_ok(e)));
        }
    }
}

/// Stale entries in a binding are harmless: stepping the wheels listed in
/// `ids` gives exactly what stepping only the listed wheels that are still
/// alive gives, so a despawned wheel neither blocks its car nor the car's
/// other wheels.
pub proof fn lemma_stale_wheels_skipped(
    ws: Seq<(u64, WheelComponent)>,
    car: CarComponent,
    ids: Seq<u64>,
    live: Set<u64>,
)
    ensures
        step_wheels_spec(ws, car, ids, live) == step_wheels_spec(
            ws,
            car,
            ids.filter(|i: u64| live.contains(i)),
            live,
        ),
    decreases ids.len(),
{
    if ids.len() > 0 {
        let p = |i: u64| live.contains(i);
        reveal(Seq::filter);
        lemma_stale_wheels_skipped(ws, car, ids.drop_last(), live);
        let f = ids.filter(p);
        if live.contains(ids.last()) {
            assert(f == ids.drop_last().filter(p).push(ids.last()));
            assert(f.drop_last() =~= ids.drop_last().filter(p));
        } else {
            assert(f == ids.drop_last().filter(p));
        }
    }
}

/// Wheel entries after the first `n` bindings when each binding lists only
/// its wheels that are still alive.
pub open spec fn physics_live_wheels_spec(m: WorldModel, n: nat) -> Seq<(u64, WheelComponent)>
    decreases n,
{
    if n == 0 || n > m.bindings.len() {
        m.wheels
    } else {
        let ws = physics_live_wheels_spec(m, (n - 1) as nat);
        let b = m.bindings[n - 1].1;
        if car_resolves(m, b.car_entity) {
            step_wheels_spec(
                ws,
                lookup(m.cars, b.car_entity).unwrap(),
                b.wheel_entities@.filter(|i: u64| m.live.contains(i)),
                m.live,
            )
        } else {
            ws
        }
    }
}

/// Stale entries are harmless for any number of bindings: the physics step
/// leaves every wheel exactly as it would if each binding listed only its
/// wheels that are still alive. A despawned wheel is skipped for itself
/// only; its car and the car's other wheels are processed as usual.
pub proof fn lemma_physics_skips_stale_wheels(m: WorldModel, n: nat)
    ensures
        physics_wheels_spec(m, n) == physics_live_wheels_spec(m, n),
    decreases n,
{
    if n > 0 && n <= m.bindings.len() {
        lemma_physics_skips_stale_wheels(m, (n - 1) as nat);
        let b = m.bindings[n - 1].1;
        if car_resolves(m, b.car_entity) {
            lemma_stale_wheels_skipped(
                physics_wheels_spec(m, (n - 1) as nat),
                lookup(m.cars, b.car_entity).unwrap(),
                b.wheel_entities@,
                m.live,
            );
        }
    }
}

/// The pose a rigid-body component resolves to: none while its handle is
/// the uninitialized sentinel, while the solver sets are not yet a resource,
/// or once the handle no longer resolves.
pub open spec fn resolved_pose(res: ResourceManager, body: RigidBodyComponent) -> Option<Pose> {
    match <PhysicsSets as ResourceKind>::held(res) {
        Some(p) => if body.handle != uninitialized_spec() && poses_of(p.bodies).contains_key(body.handle) {
            Some(poses_of(p.bodies)[body.handle])
        } else {
            None
        },
        None => None,
    }
}

/// The pose the bridge copies onto entity `e`, if any.
pub open spec fn staged_pose(m: WorldModel, res: ResourceManager, e: u64) -> Option<Pose> {
    match lookup(m.bodies, e) {
        Some(b) => resolved_pose(res, b),
        None => None,
    }
}

/// A transform with its position and rotation taken from `p`, if any.
pub open spec fn posed(t: TransformComponent, p: Option<Pose>) -> TransformComponent {
    match p {
        Some(p) => TransformComponent { position: p.translation, rotation: p.rotation, ..t },
        None => t,
    }
}

/// The world after the bridge step: every entity whose rigid body resolves
/// to a pose gets that translation and rotation in its transform, bit for
/// bit; its scale and all other data stay.
pub open spec fn bridge_spec(m: WorldModel, res: ResourceManager) -> WorldModel {
    WorldModel {
        transforms: Seq::new(
            m.transforms.len(),
            |i: int| (m.transforms[i].0, posed(m.transforms[i].1, staged_pose(m, res, m.transforms[i].0))),
        ),
        ..m
    }
}

/// Running the bridge again while the solver's bodies have not moved
/// changes nothing: the transforms after two steps are those after one.
pub proof fn lemma_bridge_idempotent(m: WorldModel, res: ResourceManager)
    ensures
        bridge_spec(bridge_spec(m, res), res) == bridge_spec(m, res),
{
    let once = bridge_spec(m, res);
    let twice = bridge_spec(once, res);
    assert(twice.transforms =~= once.transforms);
}

impl WorldStore {
    /// The rigid-body bridge: copies each resolving body's translation and
    /// rotation onto its entity's transform. Poses are staged in a read-only
    /// pass over the component tables and the solver's set, then written.
    pub fn sync_transforms(&mut self)
        requires
            old(self)@.wf(),
        ensures
            final(self)@.wf(),
            final(self).res() == old(self).res(),
            final(self)@ == bridge_spec(old(self)@, old(self).res()),
    {
        let ghost m = self@;
        let n = self.transforms.len();
        let mut staged: Vec<Option<Pose>> = Vec::new();
        let mut j: usize = 0;
        while j < n
            invariant
                m.wf(),
                m == self@,
                n == m.transforms.len(),
                0 <= j <= n,
                staged@.len() == j,
                forall|x: int| 0 <= x < j ==> #[trigger] staged@[x] == staged_pose(m, self.resources, m.transforms[x].0),
            decreases n - j,
        {
            let e = self.transforms.key_at(j);
            let p: Option<Pose> = match self.bodies.get(e) {
                Some(b) => {
                    if b.handle.is_uninitialized() {
                        None
                    } else {
                        match self.resources.get::<PhysicsSets>() {
                            Some(sets) => sets.pose(b.handle),
                            None => None,
                        }
                    }
                },
                None => None,
            };
            staged.push(p);
            j = j + 1;
        }
        let ghost res = self.resources;
        let mut j: usize = 0;
        while j < n
            invariant
                m.wf(),
                self.resources == res,
                self.entities == old(self).entities,
                n == m.transforms.len(),
                0 <= j <= n,
                staged@.len() == n,
                forall|x: int| 0 <= x < n ==> #[trigger] staged@[x] == staged_pose(m, res, m.transforms[x].0),
                self.transforms@.len() == n,
                forall|x: int| 0 <= x < j ==> #[trigger] self.transforms@[x] == (m.transforms[x].0, posed(m.transforms[x].1, staged@[x])),
                forall|x: int| j <= x < n ==> #[trigger] self.transforms@[x] == m.transforms[x],
                self.cars@ == m.cars,
                self.wheels@ == m.wheels,
                self.bodies@ == m.bodies,
                self.colliders@ == m.colliders,
                self.bindings@ == m.bindings,
                self.weathers@ == m.weathers,
                self.times@ == m.times,
                self.destructibles@ == m.destructibles,
                self.scenery@ == m.scenery,
                self.tracks@ == m.tracks,
                self.segments@ == m.segments,
                self.checkpoints@ == m.checkpoints,
            decreases n - j,
        {
            match staged[j] {
                Some(p) => {
                    let t = self.transforms.value_mut_at(j);
                    t.position = p.translation;
                    t.rotation = p.rotation;
                },
                None => {},
            }
            j = j + 1;
        }
        proof {
            assert(self.transforms@ =~= bridge_spec(m, res).transforms);
            assert forall|x: int, y: int|
                0 <= x < self.transforms@.len() && 0 <= y < self.transforms@.len() && x != y implies
                #[trigger] self.transforms@[x].0 != #[trigger] self.transforms@[y].0 by {
                assert(m.transforms[x].0 != m.transforms[y].0);
            }
            assert forall|x: int| 0 <= x < self.transforms@.len() implies m.live.contains(#[trigger] self.transforms@[x].0) by {
                assert(m.live.contains(m.transforms[x].0));
            }
        }
    }
}

/// The world after the weather step: every weather component advanced by `dt`.
pub open spec fn weather_spec(m: WorldModel, dt: int) -> WorldModel {
    WorldModel {
        weathers: Seq::new(m.weathers.len(), |i: int| (m.weathers[i].0, weather_step_spec(m.weathers[i].1, dt))),
        ..m
    }
}

impl WorldStore {
    /// The weather step: advances every weather transition under way by `dt`.
    pub fn run_weather(&mut self, dt: i64)
        requires
            old(self)@.wf(),
            in_range(dt as int),
        ensures
            final(self)@.wf(),
            final(self).res() == old(self).res(),
            final(self)@ == weather_spec(old(self)@, dt as int),
    {
        let ghost m = self@;
        proof {
            assert forall|j: int| 0 <= j < m.weathers.len() implies #[trigger] m.weathers[j].1.wf() by {
                lemma_all_entries(m.weathers, |e: (u64, WeatherComponent)| weather_ok(e), j);
            }
        }
        let n = self.weathers.len();
        let mut i: usize = 0;
        while i < n
            invariant
                m.wf(),
                m == old(self)@,
                self.resources == old(self).resources,
                self.entities == old(self).entities,
                n == m.weathers.len(),
                0 <= i <= n,
                in_range(dt as int),
                self.weathers@.len() == n,
                forall|j: int| 0 <= j < n ==> #[trigger] m.weathers[j].1.wf(),
                forall|j: int| 0 <= j < i ==> #[trigger] self.weathers@[j] == (m.weathers[j].0, weather_step_spec(m.weathers[j].1, dt as int)),
                forall|j: int| 0 <= j < i ==> #[trigger] self.weathers@[j].1.wf(),
                forall|j: int| i <= j < n ==> #[trigger] self.weathers@[j] == m.weathers[j],
                self.cars@ == m.cars,
                self.wheels@ == m.wheels,
                self.transforms@ == m.transforms,
                self.bodies@ == m.bodies,
                self.colliders@ == m.colliders,
                self.bindings@ == m.bindings,
                self.times@ == m.times,
                self.destructibles@ == m.destructibles,
                self.scenery@ == m.scenery,
                self.tracks@ == m.tracks,
                self.segments@ == m.segments,
                self.checkpoints@ == m.checkpoints,
            decreases n - i,
        {
            let v = self.weathers.value_mut_at(i);
            weather_step(v, dt);
            i = i + 1;
        }
        proof {
            assert(self.weathers@ =~= weather_spec(m, dt as int).weathers);
            assert forall|j: int| 0 <= j < self.weathers@.len() implies #[trigger] weather_ok(self.weathers@[j]) by {
                assert(self.weathers@[j].1.wf());
            }
            assert(all_entries(self.weathers@, |e: (u64, WeatherComponent)| weather_ok(e)));
            assert forall|x: int, y: int|
                0 <= x < self.weathers@.len() && 0 <= y < self.weathers@.len() && x != y implies #[trigger] self.weathers@[x].0
                != #[trigger] self.weathers@[y].0 by {
                assert(m.weathers[x].0 != m.weathers[y].0);
            }
            assert forall|x: int| 0 <= x < self.weathers@.len() implies m.live.contains(#[trigger] self.weathers@[x].0) by {
                assert(m.live.contains(m.weathers[x].0));
            }
        }
    }
}

/// The world after the time-of-day step: every clock advanced by `dt`.
pub open spec fn time_of_day_spec(m: WorldModel, dt: int) -> WorldModel {
    WorldModel {
        times: Seq::new(m.times.len(), |i: int| (m.times[i].0, clock_step_spec(m.times[i].1, dt))),
        ..m
    }
}

impl WorldStore {
    /// The time-of-day step: advances every clock by `dt` real seconds.
    pub fn run_time_of_day(&mut self, dt: i64)
        requires
            old(self)@.wf(),
            in_range(dt as int),
        ensures
            final(self)@.wf(),
            final(self).res() == old(self).res(),
            final(self)@ == time_of_day_spec(old(self)@, dt as int),
    {
        let ghost m = self@;
        proof {
            assert forall|j: int| 0 <= j < m.times.len() implies #[trigger] m.times[j].1.wf() by {
                lemma_all_entries(m.times, |e: (u64, TimeOfDayComponent)| time_ok(e), j);
            }
        }
        let n = self.times.len();
        let mut i: usize = 0;
        while i < n
            invariant
                m.wf(),
                m == old(self)@,
                self.resources == old(self).resources,
                self.entities == old(self).entities,
                n == m.times.len(),
                0 <= i <= n,
                in_range(dt as int),
                self.times@.len() == n,
                forall|j: int| 0 <= j < n ==> #[trigger] m.times[j].1.wf(),
                forall|j: int| 0 <= j < i ==> #[trigger] self.times@[j] == (m.times[j].0, clock_step_spec(m.times[j].1, dt as int)),
                forall|j: int| 0 <= j < i ==> #[trigger] self.times@[j].1.wf(),
                forall|j: int| i <= j < n ==> #[trigger] self.times@[j] == m.times[j],
                self.cars@ == m.cars,
                self.wheels@ == m.wheels,
                self.transforms@ == m.transforms,
                self.bodies@ == m.bodies,
                self.colliders@ == m.colliders,
                self.bindings@ == m.bindings,
                self.weathers@ == m.weathers,
                self.destructibles@ == m.destructibles,
                self.scenery@ == m.scenery,
                self.tracks@ == m.tracks,
                self.segments@ == m.segments,
                self.checkpoints@ == m.checkpoints,
            decreases n - i,
        {
            let v = self.times.value_mut_at(i);
            clock_step(v, dt);
            i = i + 1;
        }
        proof {
            assert(self.times@ =~= time_of_day_spec(m, dt as int).times);
            assert forall|j: int| 0 <= j < self.times@.len() implies #[trigger] time_ok(self.times@[j]) by {
                assert(self.times@[j].1.wf());
            }
            assert(all_entries(self.times@, |e: (u64, TimeOfDayComponent)| time_ok(e)));
            assert forall|x: int, y: int|
                0 <= x < self.times@.len() && 0 <= y < self.times@.len() && x != y implies #[trigger] self.times@[x].0
                != #[trigger] self.times@[y].0 by {
                assert(m.times[x].0 != m.times[y].0);
            }
            assert forall|x: int| 0 <= x < self.times@.len() implies m.live.contains(#[trigger] self.times@[x].0) by {
                assert(m.live.contains(m.times[x].0));
            }
        }
    }
}

/// The world after the damage step: every destructible component updated.
pub open spec fn destructibles_spec(m: WorldModel) -> WorldModel {
    WorldModel {
        destructibles: Seq::new(m.destructibles.len(), |i: int| (m.destructibles[i].0, destructible_step_spec(m.destructibles[i].1))),
        ..m
    }
}

impl WorldStore {
    /// The damage step: destroys objects at or below their threshold and moves the others through their damage stages.
    pub fn run_destructibles(&mut self)
        requires
            old(self)@.wf(),
        ensures
            final(self)@.wf(),
            final(self).res() == old(self).res(),
            final(self)@ == destructibles_spec(old(self)@),
    {
        let ghost m = self@;
        proof {
            assert forall|j: int| 0 <= j < m.destructibles.len() implies #[trigger] m.destructibles[j].1.wf() by {
                lemma_all_entries(m.destructibles, |e: (u64, DestructibleComponent)| destructible_ok(e), j);
            }
        }
        let n = self.destructibles.len();
        let mut i: usize = 0;
        while i < n
            invariant
                m.wf(),
                m == old(self)@,
                self.resources == old(self).resources,
                self.entities == old(self).entities,
                n == m.destructibles.len(),
                0 <= i <= n,
                self.destructibles@.len() == n,
                forall|j: int| 0 <= j < n ==> #[trigger] m.destructibles[j].1.wf(),
                forall|j: int| 0 <= j < i ==> #[trigger] self.destructibles@[j] == (m.destructibles[j].0, destructible_step_spec(m.destructibles[j].1)),
                forall|j: int| 0 <= j < i ==> #[trigger] self.destructibles@[j].1.wf(),
                forall|j: int| i <= j < n ==> #[trigger] self.destructibles@[j] == m.destructibles[j],
                self.cars@ == m.cars,
                self.wheels@ == m.wheels,
                self.transforms@ == m.transforms,
                self.bodies@ == m.bodies,
                self.colliders@ == m.colliders,
                self.bindings@ == m.bindings,
                self.weathers@ == m.weathers,
                self.times@ == m.times,
                self.scenery@ == m.scenery,
                self.tracks@ == m.tracks,
                self.segments@ == m.segments,
                self.checkpoints@ == m.checkpoints,
            decreases n - i,
        {
            let v = self.destructibles.value_mut_at(i);
            destructible_step(v);
            i = i + 1;
        }
        proof {
            assert(self.destructibles@ =~= destructibles_spec(m).destructibles);
            assert forall|j: int| 0 <= j < self.destructibles@.len() implies #[trigger] destructible_ok(self.destructibles@[j]) by {
                assert(self.destructibles@[j].1.wf());
            }
            assert(all_entries(self.destructibles@, |e: (u64, DestructibleComponent)| destructible_ok(e)));
            assert forall|x: int, y: int|
                0 <= x < self.destructibles@.len() && 0 <= y < self.destructibles@.len() && x != y implies #[trigger] self.destructibles@[x].0
                != #[trigger] self.destructibles@[y].0 by {
                assert(m.destructibles[x].0 != m.destructibles[y].0);
            }
            assert forall|x: int| 0 <= x < self.destructibles@.len() implies m.live.contains(#[trigger] self.destructibles@[x].0) by {
                assert(m.live.contains(m.destructibles[x].0));
            }
        }
    }
}

/// Attaching a component to an entity that is not among `live`, in a table
/// keyed by `live`, appends the entry.
pub proof fn lemma_insert_fresh<C>(s: Seq<(u64, C)>, live: Set<u64>, k: u64, v: C)
    requires
        keyed_in(s, live),
        !live.contains(k),
    ensures
        inserted(s, k, v) == s.push((k, v)),
{
    if has_key(s, k) {
        let i = choose|i: int| 0 <= i < s.len() && #[trigger] s[i].0 == k;
        assert(live.contains(s[i].0));
    }
}

/// Removing an entity's entry keeps the other keys among the entities that
/// remain alive.
proof fn lemma_removed_keyed<C>(s: Seq<(u64, C)>, k: u64, live: Set<u64>)
    requires
        keyed_in(s, live),
    ensures
        keyed_in(removed(s, k), live.remove(k)),
{
    lemma_removed(s, k, |e: (u64, C)| true);
    let t = removed(s, k);
    if has_key(s, k) {
        let i = crate::table::index_of(s, k);
        assert forall|a: int| 0 <= a < t.len() implies live.remove(k).contains(#[trigger] t[a].0) by {
            let a0 = if a < i { a } else { a + 1 };
            assert(live.contains(s[a0].0));
            assert(t[a].0 != k);
        }
    } else {
        assert forall|a: int| 0 <= a < t.len() implies live.remove(k).contains(#[trigger] t[a].0) by {
            assert(live.contains(s[a].0));
            assert(t[a].0 != k);
        }
    }
}

} // verus!
