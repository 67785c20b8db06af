use vstd::prelude::*;
use crate::scalar::ONE;

verus! {

/// Abstract game actions that the input collaborator drives.
#[derive(Debug, Clone, Copy, PartialEq, Eq, Hash, Structural)]
pub enum InputAction {
    Accelerate,
    Brake,
    SteerLeft,
    SteerRight,
    Handbrake,
    ShiftUp,
    ShiftDown,
    ToggleCamera,
    Pause,
}

/// The current intensity of every action, in fixed point (`0..=ONE`).
/// An action that was never set reads as zero.
#[derive(Debug, Clone, Copy, PartialEq, Eq, Structural)]
pub struct ActionStates {
    pub accelerate: i64,
    pub brake: i64,
    pub steer_left: i64,
    pub steer_right: i64,
    pub handbrake: i64,
    pub shift_up: i64,
    pub shift_down: i64,
    pub toggle_camera: i64,
    pub pause: i64,
}

/// An intensity lies in the closed unit interval.
pub open spec fn is_intensity(v: int) -> bool {
    0 <= v <= ONE
}

impl ActionStates {
    /// The intensity recorded for `a`.
    pub open spec fn value(self, a: InputAction) -> i64 {
        match a {
            InputAction::Accelerate => self.accelerate,
            InputAction::Brake => self.brake,
            InputAction::SteerLeft => self.steer_left,
            InputAction::SteerRight => self.steer_right,
            InputAction::Handbrake => self.handbrake,
            InputAction::ShiftUp => self.shift_up,
            InputAction::ShiftDown => self.shift_down,
            InputAction::ToggleCamera => self.toggle_camera,
            InputAction::Pause => self.pause,
        }
    }

    /// Every recorded intensity lies in `0..=ONE`.
    pub open spec fn wf(self) -> bool {
        forall|a: InputAction| is_intensity(#[trigger] self.value(a) as int)
    }

    /// All actions released.
    pub fn new() -> (r: Self)
        ensures
            forall|a: InputAction| #[trigger] r.value(a) == 0,
            r.wf(),
    {
        ActionStates {
            accelerate: 0,
            brake: 0,
            steer_left: 0,
            steer_right: 0,
            handbrake: 0,
            shift_up: 0,
            shift_down: 0,
            toggle_camera: 0,
            pause: 0,
        }
    }

    /// The intensity recorded for `a`.
    pub fn get(&self, a: InputAction) -> (r: i64)
        ensures
            r == self.value(a),
    {
        match a {
            InputAction::Accelerate => self.accelerate,
            InputAction::Brake => self.brake,
            InputAction::SteerLeft => self.steer_left,
            InputAction::SteerRight => self.steer_right,
            InputAction::Handbrake => self.handbrake,
            InputAction::ShiftUp => self.shift_up,
            InputAction::ShiftDown => self.shift_down,
            InputAction::ToggleCamera => self.toggle_camera,
            InputAction::Pause => self.pause,
        }
    }

    /// Records intensity `v` for `a`, leaving every other action as it was.
    pub fn set(&mut self, a: InputAction, v: i64)
        ensures
            final(self).value(a) == v,
            forall|b: InputAction| b != a ==> #[trigger] final(self).value(b) == old(self).value(b),
    {
        match a {
            InputAction::Accelerate => self.accelerate = v,
            InputAction::Brake => self.brake = v,
            InputAction::SteerLeft => self.steer_left = v,
            InputAction::SteerRight => self.steer_right = v,
            InputAction::Handbrake => self.handbrake = v,
            InputAction::ShiftUp => self.shift_up = v,
            InputAction::ShiftDown => self.shift_down = v,
            InputAction::ToggleCamera => self.toggle_camera = v,
            InputAction::Pause => self.pause = v,
        }
    }

    /// Whether `a` counts as held: its intensity is above one half.
    pub fn is_pressed(&self, a: InputAction) -> (r: bool)
        ensures
            r == (self.value(a) > ONE / 2),
    {
        self.get(a) > ONE / 2
    }
}

} // verus!
