//! Waveform chart engine: time/pixel mapping, pointer interaction, ruler
//! ticks and lazily iterated signal samplers.
use vstd::prelude::*;

pub mod arith;
pub mod times;
pub mod chart;
pub mod ruler;
pub mod sampler;
pub mod datastore;
pub mod wavefmt;

pub use chart::{Chart, MouseCursor, MouseRegion, Pos, WaveSeg};
pub use datastore::{DataStore, FileType, LoadError, SigType};
pub use ruler::{ruler_ticks, Tick, TickKind};
pub use sampler::digisig::{DigiSig, DigiSigIo};
pub use sampler::digisiggen::{DigiSigGen, SigGenType};
pub use sampler::Sampler;
pub use times::{fmt_time, fmt_time_unit, Time, TimeRel, TimeScale, TimeUnit};
pub use wavefmt::{FieldInfo, FieldType, NumType, WaveError, WaveFile};

verus! {

/// Lane height of a digital signal, in pixels.
pub const HEIGHT_DIGITAL: i64 = 16;

/// Lane height of an analog signal, in pixels.
pub const HEIGHT_ANALOG: i64 = 48;

} // verus!
