//! Simulation core of a racing game: an entity store with typed component
//! tables, a resource table, event queues, a fixed-order system scheduler,
//! a vehicle control and wheel model, and the bridge that copies rigid-body
//! poses back onto entities.
//!
//! Continuous quantities are fixed-point integers (see `ONE`); poses handed
//! over by the rigid-body solver are kept as single-precision bit patterns.
mod audio;
mod builders;
mod car;
mod entities;
mod environment;
mod events;
mod game;
mod input;
mod physics;
mod resources;
mod scalar;
mod scheduler;
mod table;
mod track;
mod wheel;
mod world;

pub use audio::{AudioEvent, AudioSourceComponent};
pub use builders::{
    create_car_entity, create_destructible_object, create_simple_track, create_time_of_day,
    create_weather, create_wheels_for_car, load_track_from_file,
};
pub use car::{
    control_car, lemma_gear_bounds, lemma_steering_converges, lemma_steering_reaches_target, steer,
    CarComponent, STEER_EPSILON,
};
pub use environment::{
    clock_step, destructible_step, weather_step, DestructibleComponent, DestructionStage,
    EnvironmentObjectComponent, EnvironmentObjectType, TimeOfDayComponent, WeatherComponent,
    WeatherType,
};
pub use events::{lemma_drain_delivers_once, EventQueue};
pub use game::GameWorldManager;
pub use input::{ActionStates, InputAction};
pub use physics::{
    ColliderComponent, ColliderShapeType, Handle, PhysicsSets, Pose, QuatBits, RigidBodyComponent,
    RigidBodyType, TransformComponent, Vec3Bits,
};
pub use resources::{
    lemma_resource_last_write_wins, lemma_resource_other_slots, Resource, ResourceKind,
    ResourceManager,
};
pub use scalar::{FixedVec3, LIMIT, ONE};
pub use scheduler::{
    lemma_tick_order, run_unit, CarControlSystem, CarPhysicsSystem, DestructibleSystem, EcsManager,
    Engine, SystemUnit, TimeOfDaySystem, TrackSystem, WeatherSystem,
};
pub use table::Table;
pub use track::{
    CheckpointComponent, ObstacleComponent, ObstacleType, SurfaceType, TrackComponent,
    TrackSegmentComponent, TrackSegmentType,
};
pub use wheel::{lemma_friction_circle, torque_at, wheel_step, WheelComponent};
pub use world::{
    lemma_bridge_idempotent, lemma_physics_skips_stale_wheels, lemma_stale_wheels_skipped,
    CarWheelBindingComponent, Component,
    ComponentKind, EcsError, WorldModel, WorldStore,
};
