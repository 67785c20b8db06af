use vstd::prelude::*;

verus! {

#[verifier::external_type_specification]
#[verifier::external_body]
pub struct ExHecsWorld(hecs::World);

/// The bit patterns (`Entity::to_bits`) of the entities that are alive in a
/// hecs world.
pub uninterp spec fn live_of(w: hecs::World) -> Set<u64>;

/// Relies on hecs::World::new: a new world holds no entity.
#[verifier::external_body]
pub(crate) fn hecs_new() -> (r: hecs::World)
    ensures
        live_of(r) == Set::<u64>::empty(),
{
    hecs::World::new()
}

/// Relies on hecs::World::spawn: the new entity was not alive before and is
/// alive afterwards, nothing else changes. It panics only once the id space
/// of `u32` is exhausted, which the bound on live entities rules out.
#[verifier::external_body]
pub(crate) fn hecs_spawn(w: &mut hecs::World) -> (r: u64)
    requires
        live_of(*old(w)).finite(),
        live_of(*old(w)).len() < u32::MAX,
    ensures
        !live_of(*old(w)).contains(r),
        live_of(*final(w)) == live_of(*old(w)).insert(r),
{
    w.spawn(()).to_bits().get()
}

/// Relies on hecs::World::despawn (with `Entity::from_bits`): it succeeds
/// exactly on a live entity, which is then no longer alive.
#[verifier::external_body]
pub(crate) fn hecs_despawn(w: &mut hecs::World, bits: u64) -> (r: bool)
    ensures
        r == live_of(*old(w)).contains(bits),
        live_of(*final(w)) == live_of(*old(w)).remove(bits),
{
    match hecs::Entity::from_bits(bits) {
        Some(e) => w.despawn(e).is_ok(),
        None => false,
    }
}

/// Relies on hecs::World::contains (with `Entity::from_bits`): whether the
/// entity is alive.
#[verifier::external_body]
pub(crate) fn hecs_contains(w: &hecs::World, bits: u64) -> (r: bool)
    ensures
        r == live_of(*w).contains(bits),
{
    match hecs::Entity::from_bits(bits) {
        Some(e) => w.contains(e),
        None => false,
    }
}

} // verus!
