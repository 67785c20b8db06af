use vstd::prelude::*;

verus! {

/// Requests to the audio collaborator. Volumes are fixed-point intensities.
#[derive(Debug, Clone, PartialEq, Eq)]
pub enum AudioEvent {
    PlaySound { name: String, volume: i64, looping: bool },
    StopSound { id: String },
    SetSoundVolume { id: String, volume: i64 },
    PlayMusic { name: String, volume: i64 },
    StopMusic,
    SetMasterVolume { volume: i64 },
}

/// A sound emitted by an entity. Volume, pitch and distances are fixed point.
#[derive(Debug, Clone, PartialEq, Eq)]
pub struct AudioSourceComponent {
    pub sound_id: Option<String>,
    pub sound_name: String,
    pub volume: i64,
    pub pitch: i64,
    pub spatial: bool,
    pub min_distance: i64,
    pub max_distance: i64,
    pub looping: bool,
}

} // verus!
