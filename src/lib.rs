//! A sample-accurate synthesis and sequencing engine: scale quantisation,
//! step sequencers sharing one master clock, a drum machine, ADSR voices with
//! a fixed-point envelope, and the voice lifecycle of a polyphonic synth.
//!
//! Everything here is integer arithmetic. Floating-point signal rendering
//! (waveform shapes, mixing, soft clipping) is left to the host, which reads
//! the phase and level of each voice and the age of each drum hit after
//! every tick.

pub mod clock;
pub mod drums;
pub mod effects;
pub mod keys;
pub mod scale;
pub mod sequencer;
pub mod synth;
pub mod voice;

pub use clock::samples_per_step;
pub use drums::{DrumKind, DrumMachine, Hit, Track};
pub use effects::{AudioEffect, EffectChain};
pub use keys::{key_to_note, AppMode};
pub use scale::{Scale, ScaleQuantizer};
pub use sequencer::{Sequencer, StepEvent};
pub use synth::Synth;
pub use voice::{note_name, EnvelopeParams, EnvelopeStage, Voice, WaveType, LEVEL_ONE};
