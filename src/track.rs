use vstd::prelude::*;
use crate::scalar::{FixedVec3, ONE};

verus! {

/// Shapes of track segments.
#[derive(Debug, Clone, Copy, PartialEq, Eq, Structural)]
pub enum TrackSegmentType {
    Straight,
    LeftCurve,
    RightCurve,
    Chicane,
    Jump,
    Banked,
}

/// Road surfaces.
#[derive(Debug, Clone, Copy, PartialEq, Eq, Structural)]
pub enum SurfaceType {
    Asphalt,
    Concrete,
    Dirt,
    Gravel,
    Grass,
    Snow,
    Ice,
    Sand,
}

/// The tire friction coefficient of a surface, fixed point.
pub open spec fn friction_spec(s: SurfaceType) -> i64 {
    match s {
        SurfaceType::Asphalt => ONE,
        SurfaceType::Concrete => 950_000,
        SurfaceType::Dirt => 600_000,
        SurfaceType::Gravel => 400_000,
        SurfaceType::Grass => 300_000,
        SurfaceType::Snow => 200_000,
        SurfaceType::Ice => 100_000,
        SurfaceType::Sand => 400_000,
    }
}

impl SurfaceType {
    /// Asphalt.
    pub fn default() -> (r: Self)
        ensures
            r == SurfaceType::Asphalt,
    {
        SurfaceType::Asphalt
    }

    /// Tire friction on this surface: 1.0 on asphalt down to 0.1 on ice.
    pub fn get_friction_coefficient(&self) -> (r: i64)
        ensures
            r == friction_spec(*self),
    {
        match self {
            SurfaceType::Asphalt => ONE,
            SurfaceType::Concrete => 950_000,
            SurfaceType::Dirt => 600_000,
            SurfaceType::Gravel => 400_000,
            SurfaceType::Grass => 300_000,
            SurfaceType::Snow => 200_000,
            SurfaceType::Ice => 100_000,
            SurfaceType::Sand => 400_000,
        }
    }
}

/// One piece of road. Lengths, curvature and banking are fixed point.
#[derive(Debug, Clone, Copy, PartialEq, Eq, Structural)]
pub struct TrackSegmentComponent {
    pub segment_type: TrackSegmentType,
    pub length: i64,
    pub width: i64,
    pub curvature: i64,
    pub banking: i64,
    pub surface_type: SurfaceType,
    pub friction: i64,
}

/// A whole track: its segment and checkpoint entities and the grid of start
/// positions.
#[derive(Debug)]
pub struct TrackComponent {
    pub name: String,
    pub length: i64,
    pub segments: Vec<u64>,
    pub checkpoints: Vec<u64>,
    pub start_positions: Vec<FixedVec3>,
}

/// A checkpoint line across the track.
#[derive(Debug, Clone, Copy, PartialEq, Eq, Structural)]
pub struct CheckpointComponent {
    pub index: usize,
    pub width: i64,
    pub is_finish_line: bool,
}

/// Kinds of obstacles.
#[derive(Debug, Clone, Copy, PartialEq, Eq, Structural)]
pub enum ObstacleType {
    Barrier,
    Cone,
    Tire,
    Tree,
    Rock,
    Car,
    Custom,
}

/// Something on or beside the track that cars can hit.
#[derive(Debug, Clone, Copy, PartialEq, Eq, Structural)]
pub struct ObstacleComponent {
    pub obstacle_type: ObstacleType,
    pub destructible: bool,
    pub health: i64,
}

} // verus!
