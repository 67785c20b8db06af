use racing_sim::{
    ActionStates, AudioEvent, EcsError, EcsManager, Engine, EventQueue, InputAction, PhysicsSets,
    ResourceManager, SystemUnit, TransformComponent, Vec3Bits, WorldStore, ONE,
};

#[test]
fn event_queue_delivers_in_publish_order_once() {
    let mut q: EventQueue<u32> = EventQueue::new();
    q.publish(1);
    q.publish(2);
    q.publish(3);
    assert_eq!(q.len(), 3);
    let seen = q.consume(|e: &u32| *e * 10);
    assert_eq!(seen, vec![10, 20, 30]);
    assert_eq!(q.len(), 0);
    let again = q.consume(|e: &u32| *e);
    assert!(again.is_empty());
}

#[test]
fn event_queue_clear_drops_pending_events() {
    let mut q: EventQueue<String> = EventQueue::new();
    q.publish("a".to_string());
    q.clear();
    assert_eq!(q.len(), 0);
    q.publish("b".to_string());
    let seen = q.consume(|e: &String| e.clone());
    assert_eq!(seen, vec!["b".to_string()]);
}

#[test]
fn resource_insert_then_get_and_last_write_wins() {
    let mut r = ResourceManager::new();
    assert!(r.get::<ActionStates>().is_none());
    let mut a = ActionStates::new();
    a.set(InputAction::Brake, ONE / 4);
    r.insert(a);
    assert_eq!(r.get::<ActionStates>().unwrap().get(InputAction::Brake), ONE / 4);
    let mut b = ActionStates::new();
    b.set(InputAction::Brake, ONE);
    r.insert(b);
    assert_eq!(r.get::<ActionStates>().unwrap().get(InputAction::Brake), ONE);
    assert!(r.get::<PhysicsSets>().is_none());
}

#[test]
fn resource_get_mut_writes_through() {
    let mut r = ResourceManager::new();
    assert!(r.get_mut::<EventQueue<AudioEvent>>().is_none());
    r.insert(EventQueue::<AudioEvent>::new());
    r.get_mut::<EventQueue<AudioEvent>>().unwrap().publish(AudioEvent::StopMusic);
    assert_eq!(r.get::<EventQueue<AudioEvent>>().unwrap().len(), 1);
}

#[test]
fn action_states_default_to_zero_and_press_above_half() {
    let mut a = ActionStates::new();
    assert_eq!(a.get(InputAction::Pause), 0);
    a.set(InputAction::ShiftUp, ONE / 2);
    assert!(!a.is_pressed(InputAction::ShiftUp));
    a.set(InputAction::ShiftUp, ONE / 2 + 1);
    assert!(a.is_pressed(InputAction::ShiftUp));
    assert_eq!(a.get(InputAction::ShiftDown), 0);
}

#[test]
fn spawn_gives_fresh_live_entities() {
    let mut w = WorldStore::new();
    let a = w.spawn();
    let b = w.spawn();
    assert_ne!(a, b);
    assert!(w.contains(a));
    assert!(w.contains(b));
    assert!(!w.contains(0));
}

#[test]
fn despawn_removes_components_and_reports_not_found() {
    let mut w = WorldStore::new();
    let e = w.spawn();
    assert_eq!(w.insert(e, TransformComponent::default()), Ok(()));
    assert!(w.get::<TransformComponent>(e).is_ok());
    assert_eq!(w.despawn(e), Ok(()));
    assert!(!w.contains(e));
    assert_eq!(w.despawn(e), Err(EcsError::NotFound));
    assert_eq!(w.get::<TransformComponent>(e).err(), Some(EcsError::NotFound));
    assert_eq!(w.insert(e, TransformComponent::default()), Err(EcsError::NotFound));
    let f = w.spawn();
    assert_ne!(e, f);
    assert!(w.get::<TransformComponent>(f).is_err());
}

#[test]
fn insert_replaces_a_component_of_the_same_type() {
    let mut w = WorldStore::new();
    let e = w.spawn();
    let _ = w.insert(e, TransformComponent::default());
    let moved = TransformComponent::at(Vec3Bits { x: 0x3f80_0000, y: 0, z: 0 });
    let _ = w.insert(e, moved);
    assert_eq!(*w.get::<TransformComponent>(e).unwrap(), moved);
    assert_eq!(w.entries::<TransformComponent>().len(), 1);
}

#[test]
fn scheduler_keeps_registration_order() {
    let mut m = EcsManager::new();
    m.register_system(SystemUnit::CarControl);
    m.register_system(SystemUnit::Track);
    m.register_system(SystemUnit::CarPhysics);
    assert_eq!(m.systems, vec![SystemUnit::CarControl, SystemUnit::Track, SystemUnit::CarPhysics]);
    m.set_system_execution_order(vec![SystemUnit::CarPhysics]);
    assert_eq!(m.systems, vec![SystemUnit::CarPhysics]);
}

#[test]
fn engine_tick_with_no_units_changes_nothing() {
    let mut e = Engine::new();
    let id = e.ecs_manager.world.spawn();
    e.update(16_667);
    assert!(e.ecs_manager.world.contains(id));
}

#[test]
fn resource_slots_are_keyed_by_type() {
    let mut r = ResourceManager::new();
    r.insert(ActionStates::new());
    assert!(r.get::<PhysicsSets>().is_none());
    assert!(r.get::<EventQueue<AudioEvent>>().is_none());
    r.insert(EventQueue::<AudioEvent>::new());
    r.get_mut::<ActionStates>().unwrap().set(InputAction::Pause, ONE);
    assert_eq!(r.get::<ActionStates>().unwrap().get(InputAction::Pause), ONE);
    assert_eq!(r.get::<EventQueue<AudioEvent>>().unwrap().len(), 0);
}
