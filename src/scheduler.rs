use vstd::prelude::*;
use crate::resources::ResourceManager;
use crate::scalar::in_range;
use crate::world::{
    bridge_spec, car_control_spec, car_physics_spec, destructibles_spec, time_of_day_spec,
    weather_spec, WorldModel, WorldStore,
};

verus! {

/// The update units the scheduler can run. Each is one step of domain
/// logic over the world and a time step.
#[derive(Debug, Clone, Copy, PartialEq, Eq, Structural)]
pub enum SystemUnit {
    CarControl,
    CarPhysics,
    RigidBodyBridge,
    Weather,
    TimeOfDay,
    Destructible,
    Track,
}

/// What one unit makes of the world. Units only touch entity data; the
/// resource table `res` is read, never changed.
pub open spec fn unit_spec(u: SystemUnit, m: WorldModel, res: ResourceManager, dt: int) -> WorldModel {
    match u {
        SystemUnit::CarControl => car_control_spec(m, res, dt),
        SystemUnit::CarPhysics => car_physics_spec(m),
        SystemUnit::RigidBodyBridge => bridge_spec(m, res),
        SystemUnit::Weather => weather_spec(m, dt),
        SystemUnit::TimeOfDay => time_of_day_spec(m, dt),
        SystemUnit::Destructible => destructibles_spec(m),
        SystemUnit::Track => m,
    }
}

/// The world after running `units` once each, first to last.
pub open spec fn run_units_spec(units: Seq<SystemUnit>, m: WorldModel, res: ResourceManager, dt: int) -> WorldModel
    decreases units.len(),
{
    if units.len() == 0 {
        m
    } else {
        unit_spec(units.last(), run_units_spec(units.drop_last(), m, res, dt), res, dt)
    }
}

/// Runs one unit.
pub fn run_unit(u: SystemUnit, world: &mut WorldStore, dt: i64)
    requires
        old(world)@.wf(),
        in_range(dt as int),
    ensures
        final(world)@.wf(),
        final(world).res() == old(world).res(),
        final(world)@ == unit_spec(u, old(world)@, old(world).res(), dt as int),
{
    match u {
        SystemUnit::CarControl => world.run_car_control(dt),
        SystemUnit::CarPhysics => world.run_car_physics(),
        SystemUnit::RigidBodyBridge => world.sync_transforms(),
        SystemUnit::Weather => world.run_weather(dt),
        SystemUnit::TimeOfDay => world.run_time_of_day(dt),
        SystemUnit::Destructible => world.run_destructibles(),
        SystemUnit::Track => {},
    }
}

/// The vehicle control step as a unit.
pub struct CarControlSystem;

/// The vehicle physics step as a unit.
pub struct CarPhysicsSystem;

/// Weather transitions as a unit.
pub struct WeatherSystem;

/// The day clock as a unit.
pub struct TimeOfDaySystem;

/// Damage stages of destructible objects as a unit.
pub struct DestructibleSystem;

/// Track interactions (checkpoints, telemetry); it has no effect yet.
pub struct TrackSystem;

impl CarControlSystem {
    pub fn update(&mut self, world: &mut WorldStore, dt: i64)
        requires
            old(world)@.wf(),
            in_range(dt as int),
        ensures
            final(world)@.wf(),
            final(world).res() == old(world).res(),
            final(world)@ == car_control_spec(old(world)@, old(world).res(), dt as int),
    {
        world.run_car_control(dt);
    }
}

impl CarPhysicsSystem {
    pub fn update(&mut self, world: &mut WorldStore, dt: i64)
        requires
            old(world)@.wf(),
        ensures
            final(world)@.wf(),
            final(world).res() == old(world).res(),
            final(world)@ == car_physics_spec(old(world)@),
    {
        world.run_car_physics();
    }
}

impl WeatherSystem {
    pub fn update(&mut self, world: &mut WorldStore, dt: i64)
        requires
            old(world)@.wf(),
            in_range(dt as int),
        ensures
            final(world)@.wf(),
            final(world).res() == old(world).res(),
            final(world)@ == weather_spec(old(world)@, dt as int),
    {
        world.run_weather(dt);
    }
}

impl TimeOfDaySystem {
    pub fn update(&mut self, world: &mut WorldStore, dt: i64)
        requires
            old(world)@.wf(),
            in_range(dt as int),
        ensures
            final(world)@.wf(),
            final(world).res() == old(world).res(),
            final(world)@ == time_of_day_spec(old(world)@, dt as int),
    {
        world.run_time_of_day(dt);
    }
}

impl DestructibleSystem {
    pub fn update(&mut self, world: &mut WorldStore, dt: i64)
        requires
            old(world)@.wf(),
        ensures
            final(world)@.wf(),
            final(world).res() == old(world).res(),
            final(world)@ == destructibles_spec(old(world)@),
    {
        world.run_destructibles();
    }
}

impl TrackSystem {
    pub fn update(&mut self, world: &mut WorldStore, dt: i64)
        ensures
            *final(world) == *old(world),
    {
    }
}

/// Holds the world and the ordered list of update units.
pub struct EcsManager {
    pub world: WorldStore,
    pub systems: Vec<SystemUnit>,
}

impl EcsManager {
    /// An empty world with no units registered.
    pub fn new() -> (r: Self)
        ensures
            r.world@.wf(),
            r.world@.live.is_empty(),
            crate::resources::holds_nothing(r.world.res()),
            r.systems@ == Seq::<SystemUnit>::empty(),
    {
        EcsManager { world: WorldStore::new(), systems: Vec::new() }
    }

    /// Creates an entity with no components.
    pub fn create_entity(&mut self) -> (r: u64)
        requires
            old(self).world@.wf(),
            old(self).world@.live.len() < u32::MAX,
        ensures
            final(self).world@.wf(),
            !old(self).world@.live.contains(r),
            final(self).world@ == (WorldModel { live: old(self).world@.live.insert(r), ..old(self).world@ }),
            final(self).world.res() == old(self).world.res(),
            final(self).systems@ == old(self).systems@,
    {
        self.world.spawn()
    }

    /// Appends `u` to the execution order.
    pub fn register_system(&mut self, u: SystemUnit)
        ensures
            final(self).systems@ == old(self).systems@.push(u),
            final(self).world == old(self).world,
    {
        self.systems.push(u);
    }

    /// Replaces the execution order.
    pub fn set_system_execution_order(&mut self, order: Vec<SystemUnit>)
        ensures
            final(self).systems@ == order@,
            final(self).world == old(self).world,
    {
        self.systems = order;
    }

    /// One tick: runs every registered unit exactly once, in registration
    /// order, on the shared world with time step `dt`.
    pub fn update(&mut self, dt: i64)
        requires
            old(self).world@.wf(),
            in_range(dt as int),
        ensures
            final(self).world@.wf(),
            final(self).world.res() == old(self).world.res(),
            final(self).systems@ == old(self).systems@,
            final(self).world@ == run_units_spec(old(self).systems@, old(self).world@, old(self).world.res(), dt as int),
    {
        let ghost m = self.world@;
        let n = self.systems.len();
        let mut i: usize = 0;
        while i < n
            invariant
                n == self.systems@.len(),
                self.systems@ == old(self).systems@,
                0 <= i <= n,
                in_range(dt as int),
                self.world@.wf(),
                self.world.res() == old(self).world.res(),
                self.world@ == run_units_spec(self.systems@.take(i as int), m, old(self).world.res(), dt as int),
            decreases n - i,
        {
            let u = self.systems[i];
            run_unit(u, &mut self.world, dt);
            assert(self.systems@.take(i as int + 1).drop_last() =~= self.systems@.take(i as int));
            i = i + 1;
        }
        assert(self.systems@.take(n as int) =~= self.systems@);
    }
}

/// Running a registration list runs its units in order, each exactly once:
/// no units leave the world as it is, and appending a unit runs it once,
/// after all earlier units.
pub proof fn lemma_tick_order(
    units: Seq<SystemUnit>,
    u: SystemUnit,
    m: WorldModel,
    res: ResourceManager,
    dt: int,
)
    ensures
        run_units_spec(Seq::empty(), m, res, dt) == m,
        run_units_spec(units.push(u), m, res, dt) == unit_spec(u, run_units_spec(units, m, res, dt), res, dt),
{
    assert(units.push(u).drop_last() =~= units);
}

/// The game engine: the ECS manager with its world and units.
pub struct Engine {
    pub ecs_manager: EcsManager,
}

impl Engine {
    pub fn new() -> (r: Self)
        ensures
            r.ecs_manager.world@.wf(),
            r.ecs_manager.world@.live.is_empty(),
            r.ecs_manager.systems@ == Seq::<SystemUnit>::empty(),
    {
        Engine { ecs_manager: EcsManager::new() }
    }

    /// One tick of every registered unit.
    pub fn update(&mut self, dt: i64)
        requires
            old(self).ecs_manager.world@.wf(),
            in_range(dt as int),
        ensures
            final(self).ecs_manager.world@.wf(),
            final(self).ecs_manager.world.res() == old(self).ecs_manager.world.res(),
            final(self).ecs_manager.systems@ == old(self).ecs_manager.systems@,
            final(self).ecs_manager.world@ == run_units_spec(
                old(self).ecs_manager.systems@,
                old(self).ecs_manager.world@,
                old(self).ecs_manager.world.res(),
                dt as int,
            ),
    {
        self.ecs_manager.update(dt);
    }
}

} // verus!
