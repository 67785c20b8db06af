use vstd::prelude::*;
use crate::scalar::{in_range, LIMIT, ONE};

verus! {

/// Kinds of weather.
#[derive(Debug, Clone, Copy, PartialEq, Eq, Structural)]
pub enum WeatherType {
    Clear,
    Cloudy,
    Rain,
    Storm,
    Fog,
    Snow,
}

/// The current weather and, while one is under way, a transition toward
/// `target_weather` that completes after `transition_time`. Times are fixed
/// point seconds; `intensity` is a fixed-point intensity.
#[derive(Debug, Clone, Copy, PartialEq, Eq, Structural)]
pub struct WeatherComponent {
    pub weather_type: WeatherType,
    pub intensity: i64,
    pub transition_time: i64,
    pub current_time: i64,
    pub target_weather: Option<WeatherType>,
}

impl WeatherComponent {
    /// The elapsed transition time stays in range.
    pub open spec fn wf(&self) -> bool {
        in_range(self.current_time as int)
    }

    /// Settled weather of type `weather_type` with a ten-second transition
    /// time for later changes.
    pub fn new(weather_type: WeatherType, intensity: i64) -> (r: Self)
        ensures
            r.wf(),
            r.weather_type == weather_type,
            r.intensity == intensity,
            r.transition_time == 10 * ONE,
            r.current_time == 0,
            r.target_weather is None,
    {
        WeatherComponent { weather_type, intensity, transition_time: 10 * ONE, current_time: 0, target_weather: None }
    }
}

/// The weather after a step of `dt`: a transition under way advances its
/// clock, and once the clock reaches the transition time the target becomes
/// the weather, the transition ends and the clock resets. Settled weather is
/// unchanged. The clock saturates at `LIMIT`.
pub open spec fn weather_step_spec(w: WeatherComponent, dt: int) -> WeatherComponent {
    match w.target_weather {
        Some(t) => {
            let now = if w.current_time + dt > LIMIT {
                LIMIT as int
            } else if w.current_time + dt < -LIMIT {
                -LIMIT as int
            } else {
                w.current_time + dt
            };
            if now >= w.transition_time {
                WeatherComponent { weather_type: t, target_weather: None, current_time: 0, ..w }
            } else {
                WeatherComponent { current_time: now as i64, ..w }
            }
        },
        None => w,
    }
}

/// Advances the weather by `dt`.
pub fn weather_step(w: &mut WeatherComponent, dt: i64)
    requires
        old(w).wf(),
        in_range(dt as int),
    ensures
        *final(w) == weather_step_spec(*old(w), dt as int),
        final(w).wf(),
{
    match w.target_weather {
        Some(t) => {
            let sum: i64 = w.current_time + dt;
            let now: i64 = if sum > LIMIT {
                LIMIT
            } else if sum < -LIMIT {
                -LIMIT
            } else {
                sum
            };
            if now >= w.transition_time {
                w.weather_type = t;
                w.target_weather = None;
                w.current_time = 0;
            } else {
                w.current_time = now;
            }
        },
        None => {},
    }
}

/// Minutes in a day, and in an hour.
pub const MINUTES_PER_DAY: i64 = 1440;

pub const MINUTES_PER_HOUR: i64 = 60;

/// Time of day: `hour` in `0..24` and `minute` in `0..60`, both fixed
/// point; a day lasts `day_length` real seconds at a `time_scale` of one.
/// The sun and moon directions follow from hour and minute and are derived
/// by the renderer.
#[derive(Debug, Clone, Copy, PartialEq, Eq, Structural)]
pub struct TimeOfDayComponent {
    pub hour: i64,
    pub minute: i64,
    pub day_length: i64,
    pub time_scale: i64,
}

impl TimeOfDayComponent {
    /// The clock reads a valid time and its rates are in range.
    pub open spec fn wf(&self) -> bool {
        &&& 0 <= self.hour < 24 * ONE
        &&& 0 <= self.minute < 60 * ONE
        &&& in_range(self.day_length as int)
        &&& in_range(self.time_scale as int)
    }

    /// `hour:minute` on a twenty-minute day at normal speed; out-of-range
    /// readings are wrapped into a valid time.
    pub fn new(hour: i64, minute: i64) -> (r: Self)
        ensures
            r.wf(),
            0 <= hour < 24 * ONE ==> r.hour == hour,
            0 <= minute < 60 * ONE ==> r.minute == minute,
            r.day_length == 1200 * ONE,
            r.time_scale == ONE,
    {
        let h = hour % (24 * ONE);
        let m = minute % (60 * ONE);
        TimeOfDayComponent {
            hour: if h < 0 { h + 24 * ONE } else { h },
            minute: if m < 0 { m + 60 * ONE } else { m },
            day_length: 1200 * ONE,
            time_scale: ONE,
        }
    }
}

/// Game minutes (fixed point) that pass during `dt` real seconds: the share
/// of a day that `dt * time_scale` is, in minutes, rounded toward zero and
/// never negative. A non-positive day length stops the clock.
pub open spec fn clock_minutes_spec(t: TimeOfDayComponent, dt: int) -> int {
    let scaled = dt * (t.time_scale as int);
    if t.day_length <= 0 || scaled <= 0 {
        0
    } else {
        scaled * (MINUTES_PER_DAY as int) / (t.day_length as int)
    }
}

/// The clock after `dt`: the passing minutes are added and whole hours and
/// days carried over.
pub open spec fn clock_step_spec(t: TimeOfDayComponent, dt: int) -> TimeOfDayComponent {
    let total = t.minute + (clock_minutes_spec(t, dt) % (MINUTES_PER_DAY * ONE));
    let carried_hours = total / (60 * ONE);
    TimeOfDayComponent {
        minute: (total % (60 * ONE)) as i64,
        hour: ((t.hour + carried_hours * ONE) % (24 * ONE)) as i64,
        ..t
    }
}

/// Advances the clock by `dt` real seconds.
pub fn clock_step(t: &mut TimeOfDayComponent, dt: i64)
    requires
        old(t).wf(),
        in_range(dt as int),
    ensures
        *final(t) == clock_step_spec(*old(t), dt as int),
        final(t).wf(),
{
    assert(-1_000_000_000_000_000_000_000_000 <= dt * t.time_scale <= 1_000_000_000_000_000_000_000_000)
        by (nonlinear_arith)
        requires
            in_range(dt as int),
            in_range(t.time_scale as int),
    ;
    let scaled: i128 = dt as i128 * t.time_scale as i128;
    let minutes: i128 = if t.day_length <= 0 || scaled <= 0 {
        0
    } else {
        assert(scaled * 1440 <= 1_440_000_000_000_000_000_000_000_000) by (nonlinear_arith)
            requires
                0 < scaled <= 1_000_000_000_000_000_000_000_000,
        ;
        scaled * (MINUTES_PER_DAY as i128) / (t.day_length as i128)
    };
    assert(minutes >= 0) by (nonlinear_arith)
        requires
            scaled > 0 && t.day_length > 0 ==> minutes == scaled * 1440 / (t.day_length as int),
            !(scaled > 0 && t.day_length > 0) ==> minutes == 0,
    ;
    let wrapped: i128 = minutes % ((MINUTES_PER_DAY * ONE) as i128);
    let total: i128 = t.minute as i128 + wrapped;
    let carried: i128 = total / ((60 * ONE) as i128);
    assert(carried < 24 * 61);
    t.minute = (total % ((60 * ONE) as i128)) as i64;
    t.hour = ((t.hour as i128 + carried * (ONE as i128)) % ((24 * ONE) as i128)) as i64;
}

/// One stage of visible damage, entered once the health share falls to
/// `health_threshold` (fixed point).
#[derive(Debug)]
pub struct DestructionStage {
    pub health_threshold: i64,
    pub mesh_id: usize,
    pub effects: Vec<String>,
    pub sounds: Vec<String>,
}

/// An object that takes damage: it is destroyed once its health falls to
/// `destruction_threshold`, and passes through its damage stages as its
/// health share falls.
#[derive(Debug)]
pub struct DestructibleComponent {
    pub health: i64,
    pub max_health: i64,
    pub destroyed: bool,
    pub destruction_threshold: i64,
    pub destruction_stages: Vec<DestructionStage>,
    pub current_stage: usize,
}

impl DestructibleComponent {
    pub open spec fn wf(&self) -> bool {
        &&& in_range(self.health as int)
        &&& forall|i: int|
            0 <= i < self.destruction_stages@.len() ==> in_range(
                #[trigger] self.destruction_stages@[i].health_threshold as int,
            )
    }
}

/// Health as a share of maximum health, rounded toward zero; none while the
/// maximum is not positive.
pub open spec fn health_share_spec(d: DestructibleComponent) -> Option<int> {
    if d.max_health > 0 {
        Some(
            if d.health >= 0 {
                d.health * ONE / d.max_health as int
            } else {
                -((-d.health * ONE) / d.max_health as int)
            },
        )
    } else {
        None
    }
}

/// The first stage after the current one whose threshold the health share
/// has reached, searching from position `i`.
pub open spec fn next_stage_from(s: Seq<DestructionStage>, share: int, current: int, i: int) -> Option<int>
    decreases s.len() - i,
{
    if i >= s.len() {
        None
    } else if share <= s[i].health_threshold && i > current {
        Some(i)
    } else {
        next_stage_from(s, share, current, i + 1)
    }
}

/// The damage state after a step: an intact object at or below the
/// destruction threshold is destroyed; otherwise it moves to the first later
/// stage whose threshold its health share has reached, if any. Destroyed
/// objects stay as they are.
pub open spec fn destructible_step_spec(d: DestructibleComponent) -> DestructibleComponent {
    if d.destroyed {
        d
    } else if d.health <= d.destruction_threshold {
        DestructibleComponent { destroyed: true, ..d }
    } else {
        match health_share_spec(d) {
            Some(share) => match next_stage_from(d.destruction_stages@, share, d.current_stage as int, 0) {
                Some(i) => DestructibleComponent { current_stage: i as usize, ..d },
                None => d,
            },
            None => d,
        }
    }
}

/// One damage-state update.
pub fn destructible_step(d: &mut DestructibleComponent)
    requires
        old(d).wf(),
    ensures
        *final(d) == destructible_step_spec(*old(d)),
        final(d).wf(),
{
    if d.destroyed {
        return;
    }
    if d.health <= d.destruction_threshold {
        d.destroyed = true;
        return;
    }
    if d.max_health <= 0 {
        return;
    }
    let share: i128 = if d.health >= 0 {
        d.health as i128 * ONE as i128 / d.max_health as i128
    } else {
        -((-(d.health as i128) * ONE as i128) / d.max_health as i128)
    };
    let n = d.destruction_stages.len();
    let mut i: usize = 0;
    while i < n
        invariant
            n == d.destruction_stages@.len(),
            0 <= i <= n,
            *d == *old(d),
            old(d).wf(),
            !d.destroyed,
            d.health > d.destruction_threshold,
            share == health_share_spec(*d).unwrap(),
            d.max_health > 0,
            next_stage_from(d.destruction_stages@, share as int, d.current_stage as int, 0)
                == next_stage_from(d.destruction_stages@, share as int, d.current_stage as int, i as int),
        decreases n - i,
    {
        if share <= d.destruction_stages[i].health_threshold as i128 && i > d.current_stage {
            d.current_stage = i;
            return;
        }
        i = i + 1;
    }
}

/// Kinds of static scenery.
#[derive(Debug, Clone, PartialEq, Eq)]
pub enum EnvironmentObjectType {
    Tree,
    Rock,
    Building,
    Fence,
    TrafficLight,
    StreetLight,
    Sign,
    Barrier,
    Decoration,
    Custom(String),
}

/// A piece of scenery.
#[derive(Debug, Clone, PartialEq, Eq)]
pub struct EnvironmentObjectComponent {
    pub object_type: EnvironmentObjectType,
    pub can_collide: bool,
    pub is_static: bool,
}

} // verus!
