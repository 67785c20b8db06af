use racing_sim::{
    control_car, create_car_entity, steer, torque_at, wheel_step, ActionStates, CarComponent,
    CarWheelBindingComponent, Engine, InputAction, PhysicsSets, QuatBits, RigidBodyComponent,
    SystemUnit, TransformComponent, Vec3Bits, WheelComponent, WorldStore, ONE, STEER_EPSILON,
};

fn right_lock() -> ActionStates {
    let mut a = ActionStates::new();
    a.set(InputAction::SteerRight, ONE);
    a
}

#[test]
fn steering_approaches_target_without_overshoot() {
    let mut car = CarComponent::default();
    assert_eq!(car.max_steering_angle, 500_000);
    assert_eq!(car.steering_speed, 2 * ONE);
    let a = right_lock();
    let mut prev = car.current_steering;
    let mut ticks = 0;
    while car.current_steering != 500_000 {
        control_car(&mut car, &a, 16_000);
        assert!(car.current_steering > prev);
        assert!(car.current_steering <= 500_000);
        prev = car.current_steering;
        ticks += 1;
        assert!(ticks < 1000);
    }
    control_car(&mut car, &a, 16_000);
    assert_eq!(car.current_steering, 500_000);
}

#[test]
fn steer_exact_values() {
    assert_eq!(steer(0, 500_000, 2 * ONE, 16_000), 16_000);
    assert_eq!(steer(0, -500_000, 2 * ONE, 16_000), -16_000);
    assert_eq!(steer(495_000, 500_000, 2 * ONE, 16_000), 500_000);
    assert_eq!(steer(500_000 - STEER_EPSILON - 1, 500_000, 2 * ONE, 16_000), 500_000 - STEER_EPSILON - 1 + 320);
}

#[test]
fn gear_shifts_are_clamped() {
    let mut car = CarComponent::default();
    car.current_gear = 0;
    let mut up = ActionStates::new();
    up.set(InputAction::ShiftUp, ONE);
    for _ in 0..10 {
        control_car(&mut car, &up, 16_667);
        assert!(car.current_gear <= 5);
    }
    assert_eq!(car.current_gear, 5);
    let mut down = ActionStates::new();
    down.set(InputAction::ShiftDown, ONE);
    for _ in 0..10 {
        control_car(&mut car, &down, 16_667);
        assert!(car.current_gear >= 0);
    }
    assert_eq!(car.current_gear, 0);
}

#[test]
fn control_copies_pedals_and_clamps_intensities() {
    let mut car = CarComponent::default();
    let mut a = ActionStates::new();
    a.set(InputAction::Accelerate, ONE);
    a.set(InputAction::Brake, 2 * ONE);
    a.set(InputAction::Handbrake, -5);
    control_car(&mut car, &a, 16_667);
    assert_eq!(car.throttle, ONE);
    assert_eq!(car.brake, ONE);
    assert_eq!(car.handbrake, 0);
    assert_eq!(car.current_gear, 1);
}

#[test]
fn torque_curve_interpolation() {
    let car = CarComponent::default();
    assert_eq!(torque_at(&car.torque_curve, 800 * ONE), 200 * ONE);
    assert_eq!(torque_at(&car.torque_curve, 1500 * ONE), 250 * ONE);
    assert_eq!(torque_at(&car.torque_curve, 4500 * ONE), 410 * ONE);
    assert_eq!(torque_at(&car.torque_curve, 9000 * ONE), 300 * ONE);
    assert_eq!(torque_at(&Vec::new(), 1000 * ONE), 0);
}

#[test]
fn wheel_step_spring_and_capped_drive_force() {
    let mut car = CarComponent::default();
    car.throttle = ONE;
    let mut w = WheelComponent::default();
    w.powered = true;
    w.suspension_length = 200_000;
    wheel_step(&car, &mut w);
    assert!(w.grounded);
    assert_eq!(w.suspension_force, 3500 * ONE);
    assert_eq!(w.longitudinal_force, 3500 * ONE);

    let mut deep = WheelComponent::default();
    deep.powered = true;
    deep.suspension_length = 100_000;
    wheel_step(&car, &mut deep);
    assert_eq!(deep.suspension_force, 5250 * ONE);
    assert_eq!(deep.longitudinal_force, 5_250_000_000);

    let mut loose = WheelComponent::default();
    loose.powered = true;
    loose.suspension_length = 100_000;
    loose.friction = 2 * ONE;
    wheel_step(&car, &mut loose);
    assert_eq!(loose.longitudinal_force, 5_285_714_285);

    let mut idle = WheelComponent::default();
    wheel_step(&car, &mut idle);
    assert!(!idle.grounded);
    assert_eq!(idle.suspension_force, 0);
    assert_eq!(idle.longitudinal_force, 0);
}

fn bits(v: f32) -> u32 {
    v.to_bits()
}

fn physics_world() -> WorldStore {
    let mut w = WorldStore::new();
    w.resources_mut().insert(PhysicsSets::new());
    w
}

#[test]
fn car_entity_gets_body_at_its_position() {
    let mut w = physics_world();
    let pos = Vec3Bits { x: bits(1.5), y: bits(0.5), z: bits(-3.0) };
    let tilted = QuatBits { i: 0, j: bits(0.6), k: 0, w: bits(0.8) };
    let car = create_car_entity(&mut w, "SportsCar", pos, tilted);
    assert_eq!(w.get::<CarComponent>(car).unwrap().name, "SportsCar");
    assert_eq!(w.get::<TransformComponent>(car).unwrap().rotation, tilted);
    let body = *w.get::<RigidBodyComponent>(car).unwrap();
    assert!(!body.handle.is_uninitialized());
    let pose = w.resources().get::<PhysicsSets>().unwrap().pose(body.handle).unwrap();
    assert_eq!(pose.translation, pos);
    w.sync_transforms();
    let t = *w.get::<TransformComponent>(car).unwrap();
    assert_eq!(t.position, pos);
    assert_eq!(t.rotation, QuatBits { i: 0, j: 0, k: 0, w: bits(1.0) });
    assert_eq!(w.entries::<WheelComponent>().len(), 4);
    assert_eq!(w.entries::<CarWheelBindingComponent>().len(), 1);
}

#[test]
fn bridge_twice_leaves_transforms_identical() {
    let mut w = physics_world();
    let pos = Vec3Bits { x: bits(2.0), y: bits(0.5), z: bits(7.25) };
    let car = create_car_entity(&mut w, "A", pos, QuatBits::identity());
    w.sync_transforms();
    let first = *w.get::<TransformComponent>(car).unwrap();
    w.sync_transforms();
    let second = *w.get::<TransformComponent>(car).unwrap();
    assert_eq!(first, second);
    assert_eq!(first.position, pos);
}

#[test]
fn car_without_physics_resource_is_skipped_by_bridge() {
    let mut w = WorldStore::new();
    let pos = Vec3Bits { x: bits(4.0), y: 0, z: 0 };
    let tilted = QuatBits { i: bits(1.0), j: 0, k: 0, w: 0 };
    let car = create_car_entity(&mut w, "NoPhysics", pos, tilted);
    assert!(w.get::<RigidBodyComponent>(car).unwrap().handle.is_uninitialized());
    w.sync_transforms();
    assert_eq!(w.get::<TransformComponent>(car).unwrap().rotation, tilted);
}

fn wheels_of(w: &WorldStore) -> Vec<u64> {
    w.entries::<CarWheelBindingComponent>().value_at(0).wheel_entities.clone()
}

#[test]
fn stale_wheel_in_binding_is_skipped() {
    let mut w = physics_world();
    let car = create_car_entity(&mut w, "A", Vec3Bits::zero(), QuatBits::identity());
    let wheels = wheels_of(&w);
    for id in &wheels {
        let mut wh = *w.get::<WheelComponent>(*id).unwrap();
        wh.suspension_length = 200_000;
        let _ = w.insert(*id, wh);
    }
    let mut c = CarComponentHandle::take(&w, car);
    c.throttle = ONE;
    let _ = w.insert(car, c);
    assert!(w.despawn(wheels[2]).is_ok());
    w.run_car_physics();
    assert!(w.get::<WheelComponent>(wheels[2]).is_err());
    let rear = w.get::<WheelComponent>(wheels[3]).unwrap();
    assert!(rear.grounded);
    assert_eq!(rear.longitudinal_force, 3500 * ONE);
    let front = w.get::<WheelComponent>(wheels[0]).unwrap();
    assert_eq!(front.suspension_force, 3500 * ONE);
    assert_eq!(front.longitudinal_force, 0);
}

struct CarComponentHandle;

impl CarComponentHandle {
    fn take(w: &WorldStore, e: u64) -> CarComponent {
        let c = w.get::<CarComponent>(e).unwrap();
        CarComponent {
            name: c.name.clone(),
            torque_curve: c.torque_curve.clone(),
            gear_ratios: c.gear_ratios.clone(),
            ..*c
        }
    }
}

#[test]
fn physics_step_skips_car_whose_entity_is_gone() {
    let mut w = physics_world();
    let car = create_car_entity(&mut w, "A", Vec3Bits::zero(), QuatBits::identity());
    let wheels = wheels_of(&w);
    let mut wh = *w.get::<WheelComponent>(wheels[0]).unwrap();
    wh.suspension_length = 200_000;
    let _ = w.insert(wheels[0], wh);
    assert!(w.despawn(car).is_ok());
    w.run_car_physics();
    assert_eq!(w.get::<WheelComponent>(wheels[0]).unwrap().suspension_force, 0);
}

#[test]
fn end_to_end_accelerate_for_sixty_ticks() {
    let mut engine = Engine::new();
    engine.ecs_manager.register_system(SystemUnit::CarControl);
    engine.ecs_manager.register_system(SystemUnit::CarPhysics);
    engine.ecs_manager.world.resources_mut().insert(PhysicsSets::new());
    let car = create_car_entity(&mut engine.ecs_manager.world, "SportsCar", Vec3Bits::zero(), QuatBits::identity());
    let start = engine.ecs_manager.world.get::<CarComponent>(car).unwrap().current_gear;
    assert_eq!(engine.ecs_manager.world.get::<CarComponent>(car).unwrap().idle_rpm, 800 * ONE);
    let mut a = ActionStates::new();
    a.set(InputAction::Accelerate, ONE);
    engine.ecs_manager.world.resources_mut().insert(a);
    for tick in 0..60 {
        engine.update(16_667);
        let c = engine.ecs_manager.world.get::<CarComponent>(car).unwrap();
        if tick == 0 {
            assert_eq!(c.throttle, ONE);
        }
        assert_eq!(c.current_gear, start);
    }
}

#[test]
fn unit_order_decides_what_physics_sees() {
    for control_first in [true, false] {
        let mut engine = Engine::new();
        if control_first {
            engine.ecs_manager.register_system(SystemUnit::CarControl);
            engine.ecs_manager.register_system(SystemUnit::CarPhysics);
        } else {
            engine.ecs_manager.register_system(SystemUnit::CarPhysics);
            engine.ecs_manager.register_system(SystemUnit::CarControl);
        }
        let w = &mut engine.ecs_manager.world;
        w.resources_mut().insert(PhysicsSets::new());
        let _car = create_car_entity(w, "A", Vec3Bits::zero(), QuatBits::identity());
        let wheels = wheels_of(w);
        let mut wh = *w.get::<WheelComponent>(wheels[3]).unwrap();
        wh.suspension_length = 200_000;
        let _ = w.insert(wheels[3], wh);
        let mut a = ActionStates::new();
        a.set(InputAction::Accelerate, ONE);
        w.resources_mut().insert(a);
        engine.update(16_667);
        let f = engine.ecs_manager.world.get::<WheelComponent>(wheels[3]).unwrap().longitudinal_force;
        if control_first {
            assert_eq!(f, 3500 * ONE);
        } else {
            assert_eq!(f, 0);
        }
    }
}

#[test]
fn each_car_gets_its_own_collider() {
    let mut w = physics_world();
    let a = create_car_entity(&mut w, "A", Vec3Bits::zero(), QuatBits::identity());
    let b = create_car_entity(&mut w, "B", Vec3Bits::zero(), QuatBits::identity());
    let ca = w.get::<racing_sim::ColliderComponent>(a).unwrap().handle;
    let cb = w.get::<racing_sim::ColliderComponent>(b).unwrap().handle;
    assert!(!ca.is_uninitialized());
    assert!(!cb.is_uninitialized());
    assert_ne!(ca, cb);
    let ha = w.get::<RigidBodyComponent>(a).unwrap().handle;
    let hb = w.get::<RigidBodyComponent>(b).unwrap().handle;
    assert_ne!(ha, hb);
}

#[test]
fn wheel_step_slip_ratio_and_angle() {
    let mut car = CarComponent::default();
    car.current_speed = 10 * ONE;
    car.current_steering = 120_000;
    let mut w = WheelComponent::default();
    w.wheel_speed = 30 * ONE;
    w.steering = true;
    wheel_step(&car, &mut w);
    assert_eq!(w.slip_ratio, 50_000);
    assert_eq!(w.slip_angle, 120_000);

    car.current_speed = 0;
    let mut rolling = WheelComponent::default();
    rolling.wheel_speed = ONE;
    wheel_step(&car, &mut rolling);
    assert_eq!(rolling.slip_ratio, 3_500_000);
    assert_eq!(rolling.slip_angle, 0);
}

#[test]
fn steered_wheel_lateral_force_shares_the_grip() {
    let mut car = CarComponent::default();
    car.throttle = ONE;
    car.current_steering = 100_000;
    let mut w = WheelComponent::default();
    w.steering = true;
    w.suspension_length = 200_000;
    wheel_step(&car, &mut w);
    // Grip 3500 N, slip angle 0.1 rad: lateral demand -350 N.
    assert_eq!(w.longitudinal_force, 0);
    assert_eq!(w.lateral_force, -350 * ONE);

    let mut both = WheelComponent::default();
    both.steering = true;
    both.powered = true;
    both.suspension_length = 200_000;
    wheel_step(&car, &mut both);
    // The drive force takes the whole grip, so no lateral force is left.
    assert_eq!(both.longitudinal_force, 3500 * ONE);
    assert_eq!(both.lateral_force, 0);
    assert!(both.lateral_force.abs() + both.longitudinal_force.abs() <= 3500 * ONE);
}

#[test]
fn default_car_and_wheel_values() {
    let car = CarComponent::default();
    assert_eq!(car.name, "Default Car");
    assert_eq!(car.mass, 1500 * ONE);
    assert_eq!(car.redline_rpm, 7000 * ONE);
    assert_eq!(car.max_rpm, 8000 * ONE);
    assert_eq!(car.final_drive_ratio, 3_700_000);
    assert_eq!(car.torque_curve[4], (5000 * ONE, 420 * ONE));
    let w = WheelComponent::default();
    assert_eq!(w.suspension_stiffness, 35000 * ONE);
    assert_eq!(w.suspension_travel, 150_000);
}

#[test]
fn wheels_sit_at_the_four_corners() {
    let mut w = WorldStore::new();
    let _car = create_car_entity(&mut w, "A", Vec3Bits::zero(), QuatBits::identity());
    let wheels = wheels_of(&w);
    let expected = [(-900_000, 1_250_000, true), (900_000, 1_250_000, true), (-900_000, -1_250_000, false), (900_000, -1_250_000, false)];
    for (i, (x, z, front)) in expected.iter().enumerate() {
        let wh = w.get::<WheelComponent>(wheels[i]).unwrap();
        assert_eq!((wh.position.x, wh.position.z), (*x, *z));
        assert_eq!(wh.steering, *front);
        assert_eq!(wh.powered, !*front);
        let t = w.get::<TransformComponent>(wheels[i]).unwrap();
        assert_eq!(f32::from_bits(t.position.x), *x as f32 / 1_000_000.0);
        assert_eq!(f32::from_bits(t.position.z), *z as f32 / 1_000_000.0);
        assert!(w.get::<racing_sim::ColliderComponent>(wheels[i]).unwrap().handle.is_uninitialized());
    }
    for i in 0..4 {
        for j in 0..4 {
            if i != j {
                assert_ne!(wheels[i], wheels[j]);
            }
        }
    }
}

#[test]
fn bodies_of_every_kind_sit_where_created() {
    let mut sets = PhysicsSets::new();
    let at = Vec3Bits { x: bits(1.0), y: bits(2.0), z: bits(3.0) };
    for kind in [racing_sim::RigidBodyType::Dynamic, racing_sim::RigidBodyType::Static, racing_sim::RigidBodyType::Kinematic] {
        let h = sets.create_rigid_body(at, kind);
        assert_eq!(sets.pose(h).unwrap().translation, at);
    }
}

#[test]
fn creating_a_car_adds_exactly_its_entities() {
    let mut w = physics_world();
    let _ = create_car_entity(&mut w, "A", Vec3Bits::zero(), QuatBits::identity());
    assert_eq!(w.entries::<CarComponent>().len(), 1);
    assert_eq!(w.entries::<WheelComponent>().len(), 4);
    assert_eq!(w.entries::<TransformComponent>().len(), 5);
    assert_eq!(w.entries::<RigidBodyComponent>().len(), 5);
    assert_eq!(w.entries::<racing_sim::ColliderComponent>().len(), 5);
    assert_eq!(w.entries::<CarWheelBindingComponent>().len(), 1);
}
