//! Verified core of a pulsed-waveform display pipeline.
//!
//! The library covers the discrete logic of the pipeline: gating a pulsed
//! carrier on and off, parsing and formatting the decimal settings that
//! accompany each frame, resolving frame metadata from a key/value settings
//! store, and assembling the final frame record. Floating-point sample
//! synthesis, the FFT, and file access live outside the library and are fed
//! plain values by it.

pub mod bins;
pub mod frame;
pub mod meta;
pub mod numeral;
pub mod pulse;
pub mod store;
pub mod text;
