use vstd::prelude::*;
use crate::physics::{colliders_of, poses_of, PhysicsSets};
use crate::resources::ResourceKind;
use crate::scheduler::{EcsManager, SystemUnit};

verus! {

/// Sets up the racing world on an ECS manager. The solver's pipeline itself
/// is stepped by the driver, outside the scheduler.
pub struct GameWorldManager;

impl GameWorldManager {
    pub fn new() -> (r: Self) {
        GameWorldManager
    }

    /// Creates empty body and collider sets and stores them as the physics
    /// resource, replacing any earlier sets; entities and units are left as
    /// they are.
    pub fn initialize_physics(&self, ecs: &mut EcsManager)
        ensures
            final(ecs).world@ == old(ecs).world@,
            final(ecs).systems@ == old(ecs).systems@,
            final(ecs).world.res() == <PhysicsSets as ResourceKind>::with(
                old(ecs).world.res(),
                <PhysicsSets as ResourceKind>::held(final(ecs).world.res()),
            ),
            match <PhysicsSets as ResourceKind>::held(final(ecs).world.res()) {
                Some(p) => poses_of(p.bodies).dom().is_empty() && colliders_of(p.colliders).is_empty(),
                None => false,
            },
    {
        proof {
            <PhysicsSets as ResourceKind>::lemma_held_with_all();
        }
        let sets = PhysicsSets::new();
        ecs.world.resources_mut().insert(sets);
    }

    /// Registers the vehicle control step, then the vehicle physics step.
    pub fn register_systems(&self, ecs: &mut EcsManager)
        ensures
            final(ecs).systems@ == old(ecs).systems@.push(SystemUnit::CarControl).push(SystemUnit::CarPhysics),
            final(ecs).world == old(ecs).world,
    {
        ecs.register_system(SystemUnit::CarControl);
        ecs.register_system(SystemUnit::CarPhysics);
    }
}

} // verus!
