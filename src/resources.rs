use vstd::prelude::*;
use crate::audio::AudioEvent;
use crate::events::EventQueue;
use crate::input::ActionStates;
use crate::physics::PhysicsSets;

verus! {

/// A world-global value wrapped for storage next to entity data.
pub struct Resource<T>(pub T);

/// World-global singletons, at most one of each type: the current input
/// action intensities, the solver's body and collider sets, and the queue of
/// audio requests.
pub struct ResourceManager {
    pub actions: Option<ActionStates>,
    pub physics: Option<PhysicsSets>,
    pub audio_events: Option<EventQueue<AudioEvent>>,
}

/// Whether slot `i` (0 actions, 1 solver sets, 2 audio queue) of `m` holds
/// a value.
pub open spec fn slot_filled(m: ResourceManager, i: int) -> bool {
    if i == 0 {
        m.actions is Some
    } else if i == 1 {
        m.physics is Some
    } else if i == 2 {
        m.audio_events is Some
    } else {
        false
    }
}

/// `a` and `b` hold the same in slot `i`.
pub open spec fn slot_same(a: ResourceManager, b: ResourceManager, i: int) -> bool {
    &&& i == 0 ==> a.actions == b.actions
    &&& i == 1 ==> a.physics == b.physics
    &&& i == 2 ==> a.audio_events == b.audio_events
}

/// `a` and `b` agree on every slot but slot `k`.
pub open spec fn slots_agree_except(a: ResourceManager, b: ResourceManager, k: int) -> bool {
    &&& k != 0 ==> a.actions == b.actions
    &&& k != 1 ==> a.physics == b.physics
    &&& k != 2 ==> a.audio_events == b.audio_events
}

/// How many types have a value stored.
pub open spec fn stored_count(m: ResourceManager) -> int {
    (if slot_filled(m, 0) { 1int } else { 0 }) + (if slot_filled(m, 1) { 1int } else { 0 }) + (
    if slot_filled(m, 2) {
        1int
    } else {
        0
    })
}

/// A type that has a slot in the resource table.
pub trait ResourceKind: Sized {
    /// The value of this type held by `m`.
    spec fn held(m: ResourceManager) -> Option<Self>;

    /// `m` with this type's slot set to `v` and every other slot kept.
    spec fn with(m: ResourceManager, v: Option<Self>) -> ResourceManager;

    /// The position of this type's slot.
    spec fn slot_index() -> int;

    /// Each type owns one slot of its own: `with` touches no other slot,
    /// `held` reads only this one, and the slot is filled exactly when
    /// `held` gives a value.
    proof fn lemma_slot(m: ResourceManager, v: Option<Self>)
        ensures
            0 <= Self::slot_index() < 3,
            slots_agree_except(m, Self::with(m, v), Self::slot_index()),
            Self::held(m) is Some == slot_filled(m, Self::slot_index()),
            forall|b: ResourceManager|
                slot_same(m, b, Self::slot_index()) ==> #[trigger] Self::held(b) == Self::held(m),
    ;

    proof fn lemma_held_with(m: ResourceManager, v: Option<Self>)
        ensures
            Self::held(Self::with(m, v)) == v,
            Self::with(Self::with(m, v), Self::held(m)) == m,
            Self::with(m, Self::held(m)) == m,
    ;

    proof fn lemma_held_with_all()
        ensures
            forall|m: ResourceManager, v: Option<Self>| #[trigger] Self::held(Self::with(m, v)) == v,
    ;

    fn slot(m: &ResourceManager) -> (r: &Option<Self>)
        ensures
            *r == Self::held(*m),
    ;

    fn slot_mut(m: &mut ResourceManager) -> (r: &mut Option<Self>)
        ensures
            *r == Self::held(*old(m)),
            *final(m) == Self::with(*old(m), *final(r)),
    ;
}

impl ResourceKind for ActionStates {
    open spec fn held(m: ResourceManager) -> Option<Self> {
        m.actions
    }

    open spec fn with(m: ResourceManager, v: Option<Self>) -> ResourceManager {
        ResourceManager { actions: v, ..m }
    }

    open spec fn slot_index() -> int {
        0
    }

    proof fn lemma_slot(m: ResourceManager, v: Option<Self>) {
    }

    proof fn lemma_held_with(m: ResourceManager, v: Option<Self>) {
    }

    proof fn lemma_held_with_all() {
    }

    fn slot(m: &ResourceManager) -> (r: &Option<Self>) {
        &m.actions
    }

    fn slot_mut(m: &mut ResourceManager) -> (r: &mut Option<Self>) {
        &mut m.actions
    }
}

impl ResourceKind for PhysicsSets {
    open spec fn held(m: ResourceManager) -> Option<Self> {
        m.physics
    }

    open spec fn with(m: ResourceManager, v: Option<Self>) -> ResourceManager {
        ResourceManager { physics: v, ..m }
    }

    open spec fn slot_index() -> int {
        1
    }

    proof fn lemma_slot(m: ResourceManager, v: Option<Self>) {
    }

    proof fn lemma_held_with(m: ResourceManager, v: Option<Self>) {
    }

    proof fn lemma_held_with_all() {
    }

    fn slot(m: &ResourceManager) -> (r: &Option<Self>) {
        &m.physics
    }

    fn slot_mut(m: &mut ResourceManager) -> (r: &mut Option<Self>) {
        &mut m.physics
    }
}

impl ResourceKind for EventQueue<AudioEvent> {
    open spec fn held(m: ResourceManager) -> Option<Self> {
        m.audio_events
    }

    open spec fn with(m: ResourceManager, v: Option<Self>) -> ResourceManager {
        ResourceManager { audio_events: v, ..m }
    }

    open spec fn slot_index() -> int {
        2
    }

    proof fn lemma_slot(m: ResourceManager, v: Option<Self>) {
    }

    proof fn lemma_held_with(m: ResourceManager, v: Option<Self>) {
    }

    proof fn lemma_held_with_all() {
    }

    fn slot(m: &ResourceManager) -> (r: &Option<Self>) {
        &m.audio_events
    }

    fn slot_mut(m: &mut ResourceManager) -> (r: &mut Option<Self>) {
        &mut m.audio_events
    }
}

/// The manager holds no value of any kind.
pub open spec fn holds_nothing(m: ResourceManager) -> bool {
    &&& <ActionStates as ResourceKind>::held(m).is_none()
    &&& <PhysicsSets as ResourceKind>::held(m).is_none()
    &&& <EventQueue<AudioEvent> as ResourceKind>::held(m).is_none()
}

impl ResourceManager {
    pub fn new() -> (r: Self)
        ensures
            holds_nothing(r),
    {
        ResourceManager { actions: None, physics: None, audio_events: None }
    }

    /// Stores `v` as the single value of its type, replacing any earlier one;
    /// the slots of all other types stay as they were, so the number of
    /// stored types grows by one exactly when `T` had none.
    pub fn insert<T: ResourceKind>(&mut self, v: T)
        ensures
            *final(self) == T::with(*old(self), Some(v)),
            T::held(*final(self)) == Some(v),
            slots_agree_except(*old(self), *final(self), T::slot_index()),
            stored_count(*final(self)) == stored_count(*old(self)) + if T::held(*old(self)) is Some {
                0int
            } else {
                1int
            },
    {
        proof {
            T::lemma_held_with(*self, Some(v));
            T::lemma_slot(*self, Some(v));
            T::lemma_slot(T::with(*self, Some(v)), None);
        }
        let s = T::slot_mut(self);
        *s = Some(v);
    }

    /// The value of type `T`, if one was stored.
    pub fn get<T: ResourceKind>(&self) -> (r: Option<&T>)
        ensures
            match r {
                Some(x) => T::held(*self) == Some(*x),
                None => T::held(*self).is_none(),
            },
    {
        match T::slot(self) {
            Some(x) => Some(x),
            None => None,
        }
    }

    /// Mutable access to the value of type `T`, if one was stored; writes
    /// through it change that value only.
    pub fn get_mut<T: ResourceKind>(&mut self) -> (r: Option<&mut T>)
        ensures
            r.is_some() == T::held(*old(self)).is_some(),
            r.is_some() ==> T::held(*old(self)) == Some(*r.unwrap()),
            r.is_some() ==> *final(self) == T::with(*old(self), Some(*final(r.unwrap()))),
            r.is_some() ==> T::held(*final(self)) == Some(*final(r.unwrap())),
            r.is_none() ==> *final(self) == *old(self),
            slots_agree_except(*old(self), *final(self), T::slot_index()),
    {
        proof {
            T::lemma_held_with(*self, None);
            T::lemma_held_with_all();
            assert forall|v: Option<T>| slots_agree_except(*self, T::with(*self, v), T::slot_index()) by {
                T::lemma_slot(*self, v);
            }
        }
        T::slot_mut(self).as_mut()
    }
}

/// Inserting a value and then reading its type gives that value back, and a
/// second insert of the same type replaces the first: the table keeps a
/// single slot per type and the last write wins.
pub proof fn lemma_resource_last_write_wins<T: ResourceKind>(m: ResourceManager, a: T, b: T)
    ensures
        T::held(T::with(m, Some(a))) == Some(a),
        T::held(T::with(T::with(m, Some(a)), Some(b))) == Some(b),
{
    T::lemma_held_with(m, Some(a));
    T::lemma_held_with(T::with(m, Some(a)), Some(b));
}

/// Storing a value of one type leaves the value of every other type as it
/// was: slots are keyed by exact type.
pub proof fn lemma_resource_other_slots<T: ResourceKind, U: ResourceKind>(m: ResourceManager, v: Option<T>)
    requires
        T::slot_index() != U::slot_index(),
    ensures
        U::held(T::with(m, v)) == U::held(m),
{
    T::lemma_slot(m, v);
    U::lemma_slot(m, None);
    assert(slot_same(m, T::with(m, v), U::slot_index()));
}

} // verus!
