//! Core of a musical-key detection front end.
//!
//! The library owns the PCM audio buffer that a key-detection engine is fed:
//! interleaved samples together with their frame-rate and channel metadata,
//! and the preprocessing transforms (append, mono reduction, decimation) that
//! reduce the engine's workload. It also owns the fixed 25-value
//! classification vocabulary and the decoding of the engine's raw integer
//! result codes. The signal analysis itself is an external engine; the
//! library's job is to hand it a well-formed buffer and to interpret what
//! comes back.

pub mod audio;
pub mod key;

pub use audio::AudioData;
pub use audio::AudioDataView;
pub use key::KeyFinderKey;
