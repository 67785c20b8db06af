use vstd::prelude::*;
use crate::input::{ActionStates, InputAction};
use crate::scalar::{clamp, clamp_spec, fixed_mul, fixed_mul_spec, in_range, FixedVec3, LIMIT, ONE};

verus! {

/// Below this distance from its target the steering angle snaps onto the
/// target instead of approaching it further (0.01 rad).
pub const STEER_EPSILON: i64 = 10_000;

/// A car: static tuning and runtime state. Every continuous quantity is fixed
/// point (see `ONE`); the torque curve holds (rpm, torque) samples in
/// increasing rpm order.
#[derive(Debug)]
pub struct CarComponent {
    pub name: String,
    pub mass: i64,
    pub max_engine_force: i64,
    pub max_brake_force: i64,
    pub max_steering_angle: i64,
    pub steering_speed: i64,
    pub wheel_base: i64,
    pub engine_position: FixedVec3,
    pub center_of_mass: FixedVec3,
    pub current_speed: i64,
    pub current_rpm: i64,
    pub current_gear: i32,
    pub current_steering: i64,
    pub throttle: i64,
    pub brake: i64,
    pub handbrake: i64,
    pub torque_curve: Vec<(i64, i64)>,
    pub gear_ratios: Vec<i64>,
    pub final_drive_ratio: i64,
    pub idle_rpm: i64,
    pub max_rpm: i64,
    pub redline_rpm: i64,
}

/// Every sample of a torque curve is in range.
pub open spec fn curve_in_range(c: Seq<(i64, i64)>) -> bool {
    forall|i: int| 0 <= i < c.len() ==> in_range(#[trigger] c[i].0 as int) && in_range(c[i].1 as int)
}

/// The default torque curve: (rpm, torque) from 1000 to 8000 rpm, peaking
/// at 420 at 5000 rpm.
pub open spec fn default_torque_curve() -> Seq<(i64, i64)> {
    seq![
        (1_000_000_000i64, 200_000_000i64),
        (2_000_000_000i64, 300_000_000i64),
        (3_000_000_000i64, 350_000_000i64),
        (4_000_000_000i64, 400_000_000i64),
        (5_000_000_000i64, 420_000_000i64),
        (6_000_000_000i64, 380_000_000i64),
        (7_000_000_000i64, 350_000_000i64),
        (8_000_000_000i64, 300_000_000i64),
    ]
}

/// The default six gear ratios, 3.5 down to 0.8.
pub open spec fn default_gear_ratios() -> Seq<i64> {
    seq![3_500_000i64, 2_500_000, 1_800_000, 1_300_000, 1_000_000, 800_000]
}

/// Every field but the name has its default value: 1500 kg, 10 kN engine
/// and 15 kN brake force, 0.5 rad steering at 2 rad/s, 2.5 m wheelbase, at
/// rest at 800 rpm in gear index 1 with straight wheels and released pedals,
/// the default torque curve and gear ratios, 3.7 final drive, and 800 idle,
/// 8000 maximum and 7000 redline rpm.
pub open spec fn is_default_car(c: CarComponent) -> bool {
    &&& c.mass == 1500 * ONE
    &&& c.max_engine_force == 10000 * ONE
    &&& c.max_brake_force == 15000 * ONE
    &&& c.max_steering_angle == 500_000
    &&& c.steering_speed == 2 * ONE
    &&& c.wheel_base == 2_500_000
    &&& c.engine_position == (FixedVec3 { x: 0, y: 500_000, z: 1_500_000 })
    &&& c.center_of_mass == (FixedVec3 { x: 0, y: 500_000, z: 0 })
    &&& c.current_speed == 0
    &&& c.current_rpm == 800 * ONE
    &&& c.current_gear == 1
    &&& c.current_steering == 0
    &&& c.throttle == 0
    &&& c.brake == 0
    &&& c.handbrake == 0
    &&& c.torque_curve@ == default_torque_curve()
    &&& c.gear_ratios@ == default_gear_ratios()
    &&& c.final_drive_ratio == 3_700_000
    &&& c.idle_rpm == 800 * ONE
    &&& c.max_rpm == 8000 * ONE
    &&& c.redline_rpm == 7000 * ONE
}

impl CarComponent {
    /// The quantities the control and wheel steps compute with are in range,
    /// and the gear count fits the gear index type.
    pub open spec fn wf(&self) -> bool {
        &&& in_range(self.max_steering_angle as int)
        &&& in_range(self.steering_speed as int)
        &&& in_range(self.current_steering as int)
        &&& in_range(self.current_rpm as int)
        &&& in_range(self.current_speed as int)
        &&& in_range(self.final_drive_ratio as int)
        &&& in_range(self.throttle as int)
        &&& self.gear_ratios@.len() <= i32::MAX
        &&& forall|i: int| 0 <= i < self.gear_ratios@.len() ==> in_range(#[trigger] self.gear_ratios@[i] as int)
        &&& curve_in_range(self.torque_curve@)
    }

    /// A mid-size rear-driven car at idle in first gear: every field is
    /// as `is_default_car` gives it, and it is named "Default Car".
    pub fn default() -> (r: Self)
        ensures
            is_default_car(r),
            r.name@ == "Default Car"@,
            r.wf(),
    {
        let torque_curve: Vec<(i64, i64)> = vec![
            (1000 * ONE, 200 * ONE),
            (2000 * ONE, 300 * ONE),
            (3000 * ONE, 350 * ONE),
            (4000 * ONE, 400 * ONE),
            (5000 * ONE, 420 * ONE),
            (6000 * ONE, 380 * ONE),
            (7000 * ONE, 350 * ONE),
            (8000 * ONE, 300 * ONE),
        ];
        let gear_ratios: Vec<i64> = vec![3_500_000, 2_500_000, 1_800_000, 1_300_000, 1_000_000, 800_000];
        let r = CarComponent {
            name: String::from_str("Default Car"),
            mass: 1500 * ONE,
            max_engine_force: 10000 * ONE,
            max_brake_force: 15000 * ONE,
            max_steering_angle: 500_000,
            steering_speed: 2 * ONE,
            wheel_base: 2_500_000,
            engine_position: FixedVec3::new(0, 500_000, 1_500_000),
            center_of_mass: FixedVec3::new(0, 500_000, 0),
            current_speed: 0,
            current_rpm: 800 * ONE,
            current_gear: 1,
            current_steering: 0,
            throttle: 0,
            brake: 0,
            handbrake: 0,
            torque_curve,
            gear_ratios,
            final_drive_ratio: 3_700_000,
            idle_rpm: 800 * ONE,
            max_rpm: 8000 * ONE,
            redline_rpm: 7000 * ONE,
        };
        assert(r.gear_ratios@ =~= default_gear_ratios());
        assert(r.torque_curve@ =~= default_torque_curve());
        r
    }
}

/// An action intensity as the control step reads it: clamped into `0..=ONE`.
pub open spec fn intensity_spec(a: ActionStates, x: InputAction) -> int {
    clamp_spec(a.value(x) as int, 0, ONE as int)
}

/// Where the steering is heading: full lock right minus full lock left,
/// times the largest steering angle.
pub open spec fn target_steering_spec(a: ActionStates, max_angle: int) -> int {
    fixed_mul_spec(
        intensity_spec(a, InputAction::SteerRight) - intensity_spec(a, InputAction::SteerLeft),
        max_angle,
    )
}

/// `d * k / ONE²` rounded toward zero: the part of the distance `d` that a
/// rate-times-step `k` (in `ONE²` units) covers.
pub open spec fn approach_spec(d: int, k: int) -> int {
    if d * k >= 0 {
        (d * k) / (ONE as int * ONE as int)
    } else {
        -((-(d * k)) / (ONE as int * ONE as int))
    }
}

/// The steering angle after one step: an exponential approach toward the
/// target at `speed * dt` per step while it is farther than `STEER_EPSILON`,
/// and the target itself once within it. The result saturates at `LIMIT`.
pub open spec fn steer_spec(current: int, target: int, speed: int, dt: int) -> int {
    let d = target - current;
    if d > STEER_EPSILON || d < -STEER_EPSILON {
        clamp_spec(current + approach_spec(d, speed * dt), -LIMIT as int, LIMIT as int)
    } else {
        target
    }
}

/// The gear index after one step: up by one while shift-up is held and a
/// higher gear exists, else down by one while shift-down is held and the
/// gear is above the first.
pub open spec fn gear_spec(gear: int, n: int, up: bool, down: bool) -> int {
    if up && gear < n - 1 {
        gear + 1
    } else if down && gear > 0 {
        gear - 1
    } else {
        gear
    }
}

/// Whether an action counts as held.
pub open spec fn held_spec(a: ActionStates, x: InputAction) -> bool {
    a.value(x) > ONE / 2
}

/// What one control step makes of `car`: throttle, brake and handbrake follow
/// their actions, steering approaches the steering target, the gear shifts
/// by at most one; nothing else changes.
pub open spec fn control_spec(car: CarComponent, a: ActionStates, dt: int) -> CarComponent {
    CarComponent {
        throttle: intensity_spec(a, InputAction::Accelerate) as i64,
        brake: intensity_spec(a, InputAction::Brake) as i64,
        handbrake: intensity_spec(a, InputAction::Handbrake) as i64,
        current_steering: steer_spec(
            car.current_steering as int,
            target_steering_spec(a, car.max_steering_angle as int),
            car.steering_speed as int,
            dt,
        ) as i64,
        current_gear: gear_spec(
            car.current_gear as int,
            car.gear_ratios@.len() as int,
            held_spec(a, InputAction::ShiftUp),
            held_spec(a, InputAction::ShiftDown),
        ) as i32,
        ..car
    }
}

fn intensity(a: &ActionStates, x: InputAction) -> (r: i64)
    ensures
        r == intensity_spec(*a, x),
{
    clamp(a.get(x) as i128, 0, ONE)
}

/// One step of the steering angle toward `target`.
pub fn steer(current: i64, target: i64, speed: i64, dt: i64) -> (r: i64)
    requires
        in_range(current as int),
        in_range(target as int),
        in_range(speed as int),
        in_range(dt as int),
    ensures
        r == steer_spec(current as int, target as int, speed as int, dt as int),
        in_range(r as int),
{
    let d: i128 = target as i128 - current as i128;
    if d > STEER_EPSILON as i128 || d < -(STEER_EPSILON as i128) {
        assert(-1_000_000_000_000_000_000_000_000 <= speed * dt <= 1_000_000_000_000_000_000_000_000)
            by (nonlinear_arith)
            requires
                in_range(speed as int),
                in_range(dt as int),
        ;
        let k: i128 = speed as i128 * dt as i128;
        assert(-2_000_000_000_000_000_000_000_000_000_000_000_000 <= d * k
            <= 2_000_000_000_000_000_000_000_000_000_000_000_000) by (nonlinear_arith)
            requires
                -2_000_000_000_000 <= d <= 2_000_000_000_000,
                -1_000_000_000_000_000_000_000_000 <= k <= 1_000_000_000_000_000_000_000_000,
        ;
        let p: i128 = d * k;
        let step: i128 = if p >= 0 {
            p / (ONE as i128 * ONE as i128)
        } else {
            -((-p) / (ONE as i128 * ONE as i128))
        };
        assert(-2_000_000_000_000_000_000_000_000 <= step <= 2_000_000_000_000_000_000_000_000)
            by (nonlinear_arith)
            requires
                p >= 0 ==> step == p / 1_000_000_000_000,
                p < 0 ==> step == -((-p) / 1_000_000_000_000),
                -2_000_000_000_000_000_000_000_000_000_000_000_000 <= p
                    <= 2_000_000_000_000_000_000_000_000_000_000_000_000,
        ;
        clamp(current as i128 + step, -LIMIT, LIMIT)
    } else {
        target
    }
}

/// One control step for a single car.
pub fn control_car(car: &mut CarComponent, a: &ActionStates, dt: i64)
    requires
        old(car).wf(),
        in_range(dt as int),
    ensures
        *final(car) == control_spec(*old(car), *a, dt as int),
        final(car).wf(),
{
    car.throttle = intensity(a, InputAction::Accelerate);
    car.brake = intensity(a, InputAction::Brake);
    car.handbrake = intensity(a, InputAction::Handbrake);
    let left = intensity(a, InputAction::SteerLeft);
    let right = intensity(a, InputAction::SteerRight);
    let diff: i64 = right - left;
    let target128 = fixed_mul(diff, car.max_steering_angle);
    assert(in_range(target128 as int)) by (nonlinear_arith)
        requires
            target128 == fixed_mul_spec(diff as int, car.max_steering_angle as int),
            -ONE <= diff <= ONE,
            in_range(car.max_steering_angle as int),
    ;
    let target = target128 as i64;
    car.current_steering = steer(car.current_steering, target, car.steering_speed, dt);
    let up = a.is_pressed(InputAction::ShiftUp);
    let down = a.is_pressed(InputAction::ShiftDown);
    let n = car.gear_ratios.len();
    if up && (car.current_gear as i128) < (n as i128) - 1 {
        car.current_gear = car.current_gear + 1;
    } else if down && car.current_gear > 0 {
        car.current_gear = car.current_gear - 1;
    }
}

/// A control step keeps a car well formed.
pub proof fn lemma_control_wf(car: CarComponent, a: ActionStates, dt: int)
    requires
        car.wf(),
        in_range(dt),
    ensures
        control_spec(car, a, dt).wf(),
{
    let d = intensity_spec(a, InputAction::SteerRight) - intensity_spec(a, InputAction::SteerLeft);
    let m = car.max_steering_angle as int;
    assert(in_range(fixed_mul_spec(d, m))) by (nonlinear_arith)
        requires
            -ONE <= d <= ONE,
            in_range(m),
    ;
}

/// `n` control steps with the same actions and time step.
pub open spec fn control_steps(car: CarComponent, a: ActionStates, dt: int, n: nat) -> CarComponent
    decreases n,
{
    if n == 0 {
        car
    } else {
        control_spec(control_steps(car, a, dt, (n - 1) as nat), a, dt)
    }
}

/// Holding shift-up (and not shift-down) for `n` steps raises the gear by
/// `n`, but never past the last gear; holding shift-down (and not shift-up)
/// lowers it by `n`, but never below the first. A gear inside the valid
/// range therefore stays inside it.
pub proof fn lemma_gear_bounds(car: CarComponent, a: ActionStates, dt: int, n: nat)
    requires
        car.wf(),
        car.gear_ratios@.len() >= 1,
        0 <= car.current_gear < car.gear_ratios@.len(),
    ensures
        held_spec(a, InputAction::ShiftUp) && !held_spec(a, InputAction::ShiftDown) ==> control_steps(
            car,
            a,
            dt,
            n,
        ).current_gear == if car.current_gear + n < car.gear_ratios@.len() - 1 {
            car.current_gear + n
        } else {
            car.gear_ratios@.len() - 1
        },
        !held_spec(a, InputAction::ShiftUp) && held_spec(a, InputAction::ShiftDown) ==> control_steps(
            car,
            a,
            dt,
            n,
        ).current_gear == if car.current_gear - n > 0 {
            car.current_gear - n
        } else {
            0
        },
        0 <= control_steps(car, a, dt, n).current_gear < car.gear_ratios@.len(),
        control_steps(car, a, dt, n).gear_ratios == car.gear_ratios,
    decreases n,
{
    if n > 0 {
        lemma_gear_bounds(car, a, dt, (n - 1) as nat);
    }
}

/// Holding full right lock approaches the largest steering angle from below
/// without overshooting it: while short of the target every step strictly
/// increases the angle and stays at or below the target, and once on the
/// target it stays there. This needs a step that covers at most the whole
/// distance (`speed * dt <= 1`) and moves at least one unit whenever the
/// distance exceeds `STEER_EPSILON`.
pub proof fn lemma_steering_converges(car: CarComponent, a: ActionStates, dt: int)
    requires
        car.wf(),
        in_range(dt),
        intensity_spec(a, InputAction::SteerRight) == ONE,
        intensity_spec(a, InputAction::SteerLeft) == 0,
        0 <= car.current_steering <= car.max_steering_angle,
        0 < car.steering_speed * dt <= ONE * ONE,
        (STEER_EPSILON + 1) * (car.steering_speed * dt) >= ONE * ONE,
    ensures
        car.current_steering < car.max_steering_angle ==> car.current_steering < control_spec(
            car,
            a,
            dt,
        ).current_steering <= car.max_steering_angle,
        car.current_steering == car.max_steering_angle ==> control_spec(car, a, dt).current_steering
            == car.max_steering_angle,
{
    let m = car.max_steering_angle as int;
    let c = car.current_steering as int;
    let k = car.steering_speed * dt;
    assert(fixed_mul_spec(ONE as int, m) == m) by (nonlinear_arith)
        requires
            m >= 0,
    ;
    assert(target_steering_spec(a, m) == m);
    let d = m - c;
    if d > STEER_EPSILON {
        assert(d * k >= 0) by (nonlinear_arith)
            requires
                d > 0,
                k > 0,
        ;
        assert(1 <= (d * k) / (ONE as int * ONE as int) <= d) by (nonlinear_arith)
            requires
                d > STEER_EPSILON,
                0 < k <= ONE * ONE,
                (STEER_EPSILON + 1) * k >= ONE * ONE,
        ;
    }
}

/// Holding full right lock, the steering angle reaches the largest steering
/// angle after finitely many steps and stays there: after `n` steps it has
/// risen by at least `n` or arrived, never passing the target, so from
/// `max_steering_angle - current_steering` steps on it equals the target.
/// The step conditions are those of `lemma_steering_converges`.
pub proof fn lemma_steering_reaches_target(car: CarComponent, a: ActionStates, dt: int, n: nat)
    requires
        car.wf(),
        in_range(dt),
        intensity_spec(a, InputAction::SteerRight) == ONE,
        intensity_spec(a, InputAction::SteerLeft) == 0,
        0 <= car.current_steering <= car.max_steering_angle,
        0 < car.steering_speed * dt <= ONE * ONE,
        (STEER_EPSILON + 1) * (car.steering_speed * dt) >= ONE * ONE,
    ensures
        control_steps(car, a, dt, n).wf(),
        control_steps(car, a, dt, n).max_steering_angle == car.max_steering_angle,
        control_steps(car, a, dt, n).steering_speed == car.steering_speed,
        car.current_steering <= control_steps(car, a, dt, n).current_steering <= car.max_steering_angle,
        control_steps(car, a, dt, n).current_steering == car.max_steering_angle
            || control_steps(car, a, dt, n).current_steering >= car.current_steering + n,
        n >= car.max_steering_angle - car.current_steering ==> control_steps(car, a, dt, n).current_steering
            == car.max_steering_angle,
    decreases n,
{
    if n > 0 {
        lemma_steering_reaches_target(car, a, dt, (n - 1) as nat);
        let prev = control_steps(car, a, dt, (n - 1) as nat);
        lemma_control_wf(prev, a, dt);
        lemma_steering_converges(prev, a, dt);
    }
}

} // verus!
