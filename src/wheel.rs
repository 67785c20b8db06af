use vstd::prelude::*;
use crate::car::CarComponent;
use crate::scalar::{clamp, clamp_spec, fixed_mul, fixed_mul_spec, in_range, FixedVec3, LIMIT, ONE};

verus! {

/// A wheel: geometry and suspension tuning, plus the contact and force state
/// the wheel step maintains. Continuous quantities are fixed point.
#[derive(Debug, Clone, Copy, PartialEq, Eq, Structural)]
pub struct WheelComponent {
    pub radius: i64,
    pub width: i64,
    pub position: FixedVec3,
    pub suspension_rest_length: i64,
    pub suspension_stiffness: i64,
    pub suspension_damping: i64,
    pub suspension_travel: i64,
    pub friction: i64,
    pub steering: bool,
    pub powered: bool,
    pub grounded: bool,
    pub suspension_length: i64,
    pub suspension_force: i64,
    pub wheel_speed: i64,
    pub slip_ratio: i64,
    pub slip_angle: i64,
    pub lateral_force: i64,
    pub longitudinal_force: i64,
}

/// The default wheel: 0.35 m radius, 0.25 m wide, mounted at the body's
/// origin; 0.3 m rest length, 35 kN/m stiffness, 4.5 kN s/m damping, 0.15 m
/// travel, friction 1; neither steered nor driven; resting unloaded at its
/// rest length with no speed, slip or force.
pub open spec fn default_wheel_spec() -> WheelComponent {
    WheelComponent {
        radius: 350_000,
        width: 250_000,
        position: FixedVec3 { x: 0, y: 0, z: 0 },
        suspension_rest_length: 300_000,
        suspension_stiffness: 35_000_000_000i64,
        suspension_damping: 4_500_000_000i64,
        suspension_travel: 150_000,
        friction: 1_000_000i64,
        steering: false,
        powered: false,
        grounded: false,
        suspension_length: 300_000,
        suspension_force: 0,
        wheel_speed: 0,
        slip_ratio: 0,
        slip_angle: 0,
        lateral_force: 0,
        longitudinal_force: 0,
    }
}

impl WheelComponent {
    /// The tuning the wheel step computes with is in range.
    pub open spec fn wf(&self) -> bool {
        &&& in_range(self.radius as int)
        &&& in_range(self.suspension_rest_length as int)
        &&& in_range(self.suspension_stiffness as int)
        &&& in_range(self.suspension_travel as int)
        &&& in_range(self.suspension_length as int)
        &&& in_range(self.friction as int)
        &&& in_range(self.wheel_speed as int)
    }

    /// A 0.35 m wheel on a stiff sport suspension, neither steered nor driven.
    pub fn default() -> (r: Self)
        ensures
            r == default_wheel_spec(),
            r.wf(),
    {
        WheelComponent {
            radius: 350_000,
            width: 250_000,
            position: FixedVec3::new(0, 0, 0),
            suspension_rest_length: 300_000,
            suspension_stiffness: 35000 * ONE,
            suspension_damping: 4500 * ONE,
            suspension_travel: 150_000,
            friction: ONE,
            steering: false,
            powered: false,
            grounded: false,
            suspension_length: 300_000,
            suspension_force: 0,
            wheel_speed: 0,
            slip_ratio: 0,
            slip_angle: 0,
            lateral_force: 0,
            longitudinal_force: 0,
        }
    }
}

/// `a / b` rounded toward zero, for a positive `b`.
pub open spec fn div_trunc(a: int, b: int) -> int {
    if a >= 0 {
        a / b
    } else {
        -((-a) / b)
    }
}

/// Linear interpolation of the torque between samples `p0` and `p1` at
/// `rpm`; a segment that does not advance in rpm gives the torque of `p1`.
pub open spec fn interpolate_spec(p0: (i64, i64), p1: (i64, i64), rpm: int) -> int {
    if p1.0 <= p0.0 {
        p1.1 as int
    } else {
        p0.1 + div_trunc((rpm - p0.0) * (p1.1 - p0.1), p1.0 - p0.0)
    }
}

/// The torque at `rpm`, searching the samples from position `i` on.
pub open spec fn torque_from(c: Seq<(i64, i64)>, rpm: int, i: int) -> int
    decreases c.len() - i,
{
    if i >= c.len() {
        if c.len() == 0 {
            0
        } else {
            c.last().1 as int
        }
    } else if rpm <= c[i].0 {
        if i == 0 {
            c[0].1 as int
        } else {
            interpolate_spec(c[i - 1], c[i], rpm)
        }
    } else {
        torque_from(c, rpm, i + 1)
    }
}

/// The engine torque at `rpm` read off a torque curve: the first sample's
/// torque below the first sample, the last sample's torque above the last,
/// and linear interpolation between neighbouring samples in between. An
/// empty curve gives no torque.
pub open spec fn torque_at_spec(c: Seq<(i64, i64)>, rpm: int) -> int {
    torque_from(c, rpm, 0)
}

/// Linear interpolation between two samples.
fn interpolate(p0: (i64, i64), p1: (i64, i64), rpm: i64) -> (r: i64)
    requires
        in_range(p0.0 as int),
        in_range(p0.1 as int),
        in_range(p1.0 as int),
        in_range(p1.1 as int),
        p0.0 < rpm <= p1.0,
    ensures
        r == interpolate_spec(p0, p1, rpm as int),
        in_range(r as int),
{
    if p1.0 <= p0.0 {
        p1.1
    } else {
        let span: i128 = p1.0 as i128 - p0.0 as i128;
        let dx: i128 = rpm as i128 - p0.0 as i128;
        let dy: i128 = p1.1 as i128 - p0.1 as i128;
        assert(0 < dx <= span <= 2 * LIMIT);
        assert(-2 * LIMIT <= dy <= 2 * LIMIT);
        assert(-4_000_000_000_000_000_000_000_000 <= dx * dy <= 4_000_000_000_000_000_000_000_000)
            by (nonlinear_arith)
            requires
                0 < dx <= 2 * LIMIT,
                -2 * LIMIT <= dy <= 2 * LIMIT,
        ;
        let p: i128 = dx * dy;
        let q: i128 = if p >= 0 {
            p / span
        } else {
            -((-p) / span)
        };
        assert(dy >= 0 ==> 0 <= q <= dy) by (nonlinear_arith)
            requires
                0 < dx <= span,
                p == dx * dy,
                p >= 0 ==> q == (p as int) / (span as int),
                p < 0 ==> q == -((-(p as int)) / (span as int)),
        ;
        assert(dy < 0 ==> dy <= q <= 0) by (nonlinear_arith)
            requires
                0 < dx <= span,
                p == dx * dy,
                p >= 0 ==> q == (p as int) / (span as int),
                p < 0 ==> q == -((-(p as int)) / (span as int)),
        ;
        (p0.1 as i128 + q) as i64
    }
}

/// The engine torque at `rpm` on curve `c`.
pub fn torque_at(c: &Vec<(i64, i64)>, rpm: i64) -> (r: i64)
    requires
        crate::car::curve_in_range(c@),
        in_range(rpm as int),
    ensures
        r == torque_at_spec(c@, rpm as int),
        in_range(r as int),
{
    let n = c.len();
    let mut i: usize = 0;
    while i < n && rpm > c[i].0
        invariant
            n == c@.len(),
            0 <= i <= n,
            torque_from(c@, rpm as int, 0) == torque_from(c@, rpm as int, i as int),
            forall|j: int| 0 <= j < i ==> rpm > c@[j].0,
        decreases n - i,
    {
        i = i + 1;
    }
    if i >= n {
        if n == 0 {
            0
        } else {
            c[n - 1].1
        }
    } else if i == 0 {
        c[0].1
    } else {
        interpolate(c[i - 1], c[i], rpm)
    }
}

/// How far the suspension is compressed, limited to its travel.
pub open spec fn compression_spec(w: WheelComponent) -> int {
    clamp_spec(
        w.suspension_rest_length - w.suspension_length,
        0,
        if w.suspension_travel >= 0 { w.suspension_travel as int } else { 0 },
    )
}

/// The suspension force at the current compression, saturating at `LIMIT`:
/// the damped-spring law `stiffness * compression - damping * rate` with a
/// compression rate of zero. The compression is read from
/// `suspension_length`, which the contact collaborator sets and which the
/// wheel step never changes, so between two steps of the library the
/// compression does not move and the damping term vanishes.
pub open spec fn spring_force_spec(w: WheelComponent) -> int {
    clamp_spec(fixed_mul_spec(w.suspension_stiffness as int, compression_spec(w)), -LIMIT as int, LIMIT as int)
}

/// The gear ratio of the car's current gear; a gear index outside the
/// ratio table is neutral (ratio zero).
pub open spec fn gear_ratio_spec(car: CarComponent) -> int {
    if 0 <= car.current_gear < car.gear_ratios@.len() {
        car.gear_ratios@[car.current_gear as int] as int
    } else {
        0
    }
}

/// Saturating fixed-point product.
pub open spec fn sat_mul_spec(a: int, b: int) -> int {
    clamp_spec(fixed_mul_spec(a, b), -LIMIT as int, LIMIT as int)
}

/// Drive force at the contact patch of a powered wheel: the curve torque at
/// the current rpm, times the gear ratio, the final drive and the throttle,
/// over the wheel radius (each stage saturating at `LIMIT`). A wheel without
/// a positive radius transmits nothing.
pub open spec fn drive_force_spec(car: CarComponent, w: WheelComponent) -> int {
    let t = sat_mul_spec(
        sat_mul_spec(
            sat_mul_spec(torque_at_spec(car.torque_curve@, car.current_rpm as int), gear_ratio_spec(car)),
            car.final_drive_ratio as int,
        ),
        car.throttle as int,
    );
    if w.radius > 0 {
        clamp_spec(div_trunc(t * ONE, w.radius as int), -LIMIT as int, LIMIT as int)
    } else {
        0
    }
}

/// The largest tire force the contact can carry: friction times the normal
/// (suspension) force, never negative.
pub open spec fn grip_spec(w: WheelComponent, normal: int) -> int {
    let g = sat_mul_spec(w.friction as int, normal);
    if g >= 0 { g } else { 0 }
}

/// Below this car speed (0.1 m/s) the slip ratio is taken relative to it
/// instead, so a car at rest gives a finite ratio.
pub const SLIP_SPEED_FLOOR: i64 = 100_000;

/// Longitudinal slip: how much faster the tread moves than the car, as a
/// share of the car's speed (of `SLIP_SPEED_FLOOR` when slower), saturating
/// at `LIMIT`.
pub open spec fn slip_ratio_spec(car: CarComponent, w: WheelComponent) -> int {
    let surface = sat_mul_spec(w.wheel_speed as int, w.radius as int);
    let speed = car.current_speed as int;
    let base = if speed >= 0 { speed } else { -speed };
    let base = if base < SLIP_SPEED_FLOOR { SLIP_SPEED_FLOOR as int } else { base };
    clamp_spec(div_trunc((surface - speed) * ONE, base), -LIMIT as int, LIMIT as int)
}

/// The longitudinal force of a wheel at normal force `normal`: a powered
/// wheel passes on the drive force capped by the grip; others carry none.
pub open spec fn longitudinal_force_spec(car: CarComponent, w: WheelComponent, normal: int) -> int {
    if w.powered {
        clamp_spec(drive_force_spec(car, w), -grip_spec(w, normal), grip_spec(w, normal))
    } else {
        0
    }
}

/// The lateral force of a wheel: it opposes the slip angle (the steering
/// angle for a steered wheel, none for a fixed one) at the grip per radian,
/// and is capped by the grip that the longitudinal force `long` leaves, so
/// both together never exceed the grip.
pub open spec fn lateral_force_spec(car: CarComponent, w: WheelComponent, normal: int, long: int) -> int {
    let grip = grip_spec(w, normal);
    let left = grip - (if long >= 0 { long } else { -long });
    let angle = if w.steering { car.current_steering as int } else { 0 };
    clamp_spec(-sat_mul_spec(grip, angle), -left, left)
}

/// What one physics step makes of wheel `w` of `car`: the suspension force
/// follows the spring law at the current compression, the wheel is grounded
/// while compressed, the longitudinal and lateral forces share the grip
/// (friction times the suspension force) as `longitudinal_force_spec` and
/// `lateral_force_spec` say. The slip ratio compares tread and car speed.
/// The slip angle is the angle between the wheel's heading and its velocity;
/// the model holds no lateral velocity, so a wheel moves along the car's
/// axis and the slip angle is the wheel's heading relative to it: the
/// steering angle for a steered wheel, zero for a fixed one. The remaining
/// fields are kept.
pub open spec fn wheel_step_spec(car: CarComponent, w: WheelComponent) -> WheelComponent {
    let normal = spring_force_spec(w);
    let long = longitudinal_force_spec(car, w, normal);
    WheelComponent {
        slip_ratio: slip_ratio_spec(car, w) as i64,
        slip_angle: if w.steering { car.current_steering } else { 0 },
        grounded: compression_spec(w) > 0,
        suspension_force: normal as i64,
        longitudinal_force: long as i64,
        lateral_force: lateral_force_spec(car, w, normal, long) as i64,
        ..w
    }
}

/// Friction circle: after a wheel step, the lateral and longitudinal forces
/// together stay within the grip, friction times the suspension force (in
/// fixed point, never negative): their absolute values add up to at most the
/// grip, so their squares do as well.
pub proof fn lemma_friction_circle(car: CarComponent, w: WheelComponent)
    requires
        car.wf(),
        w.wf(),
    ensures
        ({
            let s = wheel_step_spec(car, w);
            let grip = grip_spec(w, s.suspension_force as int);
            let lat = s.lateral_force as int;
            let long = s.longitudinal_force as int;
            &&& (if lat >= 0 { lat } else { -lat }) + (if long >= 0 { long } else { -long }) <= grip
            &&& lat * lat + long * long <= grip * grip
        }),
{
    let s = wheel_step_spec(car, w);
    let normal = spring_force_spec(w);
    let grip = grip_spec(w, normal);
    let lat = s.lateral_force as int;
    let long = s.longitudinal_force as int;
    let al = if lat >= 0 { lat } else { -lat };
    let ag = if long >= 0 { long } else { -long };
    assert(0 <= grip <= LIMIT);
    assert(al + ag <= grip);
    assert(lat * lat + long * long <= grip * grip) by (nonlinear_arith)
        requires
            al == (if lat >= 0 { lat } else { -lat }),
            ag == (if long >= 0 { long } else { -long }),
            al + ag <= grip,
    ;
}

fn sat_mul(a: i64, b: i64) -> (r: i64)
    requires
        in_range(a as int),
        in_range(b as int),
    ensures
        r == sat_mul_spec(a as int, b as int),
        in_range(r as int),
{
    clamp(fixed_mul(a, b), -LIMIT, LIMIT)
}

fn gear_ratio(car: &CarComponent) -> (r: i64)
    requires
        car.wf(),
    ensures
        r == gear_ratio_spec(*car),
        in_range(r as int),
{
    if car.current_gear >= 0 && (car.current_gear as usize) < car.gear_ratios.len() {
        car.gear_ratios[car.current_gear as usize]
    } else {
        0
    }
}

/// One physics step for wheel `w` of `car`.
pub fn wheel_step(car: &CarComponent, w: &mut WheelComponent)
    requires
        car.wf(),
        old(w).wf(),
    ensures
        *final(w) == wheel_step_spec(*car, *old(w)),
        final(w).wf(),
{
    let travel: i64 = if w.suspension_travel >= 0 { w.suspension_travel } else { 0 };
    let compression = clamp(w.suspension_rest_length as i128 - w.suspension_length as i128, 0, travel);
    let normal = clamp(fixed_mul(w.suspension_stiffness, compression), -LIMIT, LIMIT);
    let g0 = sat_mul(w.friction, normal);
    let grip: i64 = if g0 >= 0 { g0 } else { 0 };
    let long: i64 = if w.powered {
        let torque = torque_at(&car.torque_curve, car.current_rpm);
        let t = sat_mul(sat_mul(sat_mul(torque, gear_ratio(car)), car.final_drive_ratio), car.throttle);
        let drive: i64 = if w.radius > 0 {
            let num: i128 = t as i128 * ONE as i128;
            let q: i128 = if num >= 0 {
                num / (w.radius as i128)
            } else {
                -((-num) / (w.radius as i128))
            };
            clamp(q, -LIMIT, LIMIT)
        } else {
            0
        };
        clamp(drive as i128, -grip, grip)
    } else {
        0
    };
    let surface = sat_mul(w.wheel_speed, w.radius);
    let speed = car.current_speed;
    let abs_speed: i64 = if speed >= 0 { speed } else { -speed };
    let base: i64 = if abs_speed < SLIP_SPEED_FLOOR { SLIP_SPEED_FLOOR } else { abs_speed };
    let num: i128 = (surface as i128 - speed as i128) * ONE as i128;
    assert(-2 * LIMIT * ONE <= num <= 2 * LIMIT * ONE) by (nonlinear_arith)
        requires
            num == (surface - speed) * ONE,
            in_range(surface as int),
            in_range(speed as int),
    ;
    let q: i128 = if num >= 0 {
        num / (base as i128)
    } else {
        -((-num) / (base as i128))
    };
    w.slip_ratio = clamp(q, -LIMIT, LIMIT);
    w.slip_angle = if w.steering { car.current_steering } else { 0 };
    let abs_long: i64 = if long >= 0 { long } else { -long };
    let left: i64 = grip - abs_long;
    let angle: i64 = if w.steering { car.current_steering } else { 0 };
    let demand = sat_mul(grip, angle);
    w.lateral_force = clamp(-(demand as i128), -left, left);
    w.grounded = compression > 0;
    w.suspension_force = normal;
    w.longitudinal_force = long;
}

} // verus!
