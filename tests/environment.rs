use racing_sim::{
    clock_step, create_destructible_object, create_simple_track, create_time_of_day, create_weather,
    destructible_step, load_track_from_file, weather_step, CheckpointComponent, DestructibleComponent,
    DestructionStage, EcsError, EcsManager, EnvironmentObjectComponent, EnvironmentObjectType,
    GameWorldManager, PhysicsSets, QuatBits, SurfaceType, SystemUnit, TimeOfDayComponent,
    TrackComponent, TrackSegmentComponent, Vec3Bits, WeatherComponent, WeatherType, WorldStore, ONE,
};

#[test]
fn surface_friction_coefficients() {
    assert_eq!(SurfaceType::Asphalt.get_friction_coefficient(), ONE);
    assert_eq!(SurfaceType::Concrete.get_friction_coefficient(), 950_000);
    assert_eq!(SurfaceType::Dirt.get_friction_coefficient(), 600_000);
    assert_eq!(SurfaceType::Gravel.get_friction_coefficient(), 400_000);
    assert_eq!(SurfaceType::Grass.get_friction_coefficient(), 300_000);
    assert_eq!(SurfaceType::Snow.get_friction_coefficient(), 200_000);
    assert_eq!(SurfaceType::Ice.get_friction_coefficient(), 100_000);
    assert_eq!(SurfaceType::Sand.get_friction_coefficient(), 400_000);
    assert_eq!(SurfaceType::default(), SurfaceType::Asphalt);
}

#[test]
fn weather_transition_completes_after_its_time() {
    let mut w = WeatherComponent::new(WeatherType::Clear, 0);
    w.target_weather = Some(WeatherType::Rain);
    weather_step(&mut w, 4 * ONE);
    assert_eq!(w.weather_type, WeatherType::Clear);
    assert_eq!(w.current_time, 4 * ONE);
    weather_step(&mut w, 6 * ONE);
    assert_eq!(w.weather_type, WeatherType::Rain);
    assert_eq!(w.target_weather, None);
    assert_eq!(w.current_time, 0);
    weather_step(&mut w, 6 * ONE);
    assert_eq!(w.current_time, 0);
}

#[test]
fn clock_advances_and_wraps() {
    let mut t = TimeOfDayComponent::new(12 * ONE, 0);
    // 1200 s per day: one real second is 1.2 game minutes.
    clock_step(&mut t, ONE);
    assert_eq!(t.hour, 12 * ONE);
    assert_eq!(t.minute, 1_200_000);
    let mut late = TimeOfDayComponent::new(23 * ONE, 59 * ONE);
    clock_step(&mut late, ONE);
    assert_eq!(late.hour, 0);
    assert_eq!(late.minute, 200_000);
    let wrapped = TimeOfDayComponent::new(25 * ONE, -ONE);
    assert_eq!(wrapped.hour, ONE);
    assert_eq!(wrapped.minute, 59 * ONE);
}

fn stage(threshold: i64) -> DestructionStage {
    DestructionStage { health_threshold: threshold, mesh_id: 0, effects: Vec::new(), sounds: Vec::new() }
}

#[test]
fn destructible_moves_through_stages_then_breaks() {
    let mut d = DestructibleComponent {
        health: 60 * ONE,
        max_health: 100 * ONE,
        destroyed: false,
        destruction_threshold: 100_000,
        destruction_stages: vec![stage(900_000), stage(700_000), stage(300_000)],
        current_stage: 0,
    };
    destructible_step(&mut d);
    assert_eq!(d.current_stage, 1);
    assert!(!d.destroyed);
    d.health = 20 * ONE;
    destructible_step(&mut d);
    assert_eq!(d.current_stage, 2);
    d.health = 0;
    destructible_step(&mut d);
    assert!(d.destroyed);
    d.health = 90 * ONE;
    destructible_step(&mut d);
    assert!(d.destroyed);
    assert_eq!(d.current_stage, 2);
}

#[test]
fn environment_builders_attach_components() {
    let mut w = WorldStore::new();
    let weather = create_weather(&mut w, WeatherType::Fog, ONE / 2);
    let c = w.get::<WeatherComponent>(weather).unwrap();
    assert_eq!(c.weather_type, WeatherType::Fog);
    assert_eq!(c.transition_time, 10 * ONE);
    let clock = create_time_of_day(&mut w, 12 * ONE, 0);
    assert_eq!(w.get::<TimeOfDayComponent>(clock).unwrap().day_length, 1200 * ONE);
    let rock = create_destructible_object(&mut w, Vec3Bits::zero(), QuatBits::identity(), 50 * ONE, EnvironmentObjectType::Rock);
    let d = w.get::<DestructibleComponent>(rock).unwrap();
    assert_eq!(d.max_health, 50 * ONE);
    assert_eq!(d.destruction_stages.len(), 2);
    assert_eq!(d.destruction_stages[1].effects, vec!["smoke".to_string(), "sparks".to_string()]);
    assert_eq!(w.get::<EnvironmentObjectComponent>(rock).unwrap().object_type, EnvironmentObjectType::Rock);
}

#[test]
fn simple_track_lists_its_segment_and_checkpoint() {
    let mut w = WorldStore::new();
    let track = create_simple_track(&mut w, 1000 * ONE, 10 * ONE);
    let t = w.get::<TrackComponent>(track).unwrap();
    assert_eq!(t.name, "Simple Track");
    assert_eq!(t.start_positions.len(), 4);
    assert_eq!(t.start_positions[3].x, 6 * ONE);
    let seg = *w.get::<TrackSegmentComponent>(t.segments[0]).unwrap();
    assert_eq!(seg.length, 1000 * ONE);
    assert_eq!(seg.surface_type, SurfaceType::Asphalt);
    let cp = *w.get::<CheckpointComponent>(t.checkpoints[0]).unwrap();
    assert!(cp.is_finish_line);
    assert_eq!(cp.width, 10 * ONE);
}

#[test]
fn loading_a_track_file_is_unimplemented() {
    let mut w = WorldStore::new();
    assert_eq!(load_track_from_file(&mut w, "tracks/monza.trk"), Err(EcsError::Unimplemented));
}

#[test]
fn game_world_manager_sets_up_physics_and_units() {
    let mut ecs = EcsManager::new();
    let gm = GameWorldManager::new();
    gm.register_systems(&mut ecs);
    gm.initialize_physics(&mut ecs);
    assert_eq!(ecs.systems, vec![SystemUnit::CarControl, SystemUnit::CarPhysics]);
    assert!(ecs.world.resources().get::<PhysicsSets>().is_some());
}

#[test]
fn scheduled_environment_units_run_each_tick() {
    let mut ecs = EcsManager::new();
    ecs.register_system(SystemUnit::Weather);
    ecs.register_system(SystemUnit::TimeOfDay);
    ecs.register_system(SystemUnit::Destructible);
    let weather = create_weather(&mut ecs.world, WeatherType::Clear, 0);
    let mut wc = *ecs.world.get::<WeatherComponent>(weather).unwrap();
    wc.target_weather = Some(WeatherType::Snow);
    wc.transition_time = ONE;
    let _ = ecs.world.insert(weather, wc);
    let clock = create_time_of_day(&mut ecs.world, 6 * ONE, 0);
    let rock = create_destructible_object(&mut ecs.world, Vec3Bits::zero(), QuatBits::identity(), 0, EnvironmentObjectType::Barrier);
    ecs.update(ONE);
    assert_eq!(ecs.world.get::<WeatherComponent>(weather).unwrap().weather_type, WeatherType::Snow);
    assert_eq!(ecs.world.get::<TimeOfDayComponent>(clock).unwrap().minute, 1_200_000);
    assert!(ecs.world.get::<DestructibleComponent>(rock).unwrap().destroyed);
}

#[test]
fn simple_track_start_grid_and_segment_body() {
    let mut w = WorldStore::new();
    let track = create_simple_track(&mut w, 500 * ONE, 8 * ONE);
    let t = w.get::<TrackComponent>(track).unwrap();
    let xs: Vec<i64> = t.start_positions.iter().map(|p| p.x).collect();
    assert_eq!(xs, vec![0, 2 * ONE, 4 * ONE, 6 * ONE]);
    let body = *w.get::<racing_sim::RigidBodyComponent>(t.segments[0]).unwrap();
    assert_eq!(body.body_type, racing_sim::RigidBodyType::Static);
    assert!(body.handle.is_uninitialized());
}
