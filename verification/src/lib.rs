//! A tempo-matched crossfade pipeline for stereo PCM audio.
//!
//! The library works on plain 16-bit fixed-point samples throughout: an
//! amplitude value `v` stands for the real amplitude `v / 32768`, so the
//! representable range is exactly the canonical `[-1.0, 1.0)` interval of
//! normalized audio. Every stage -- frame normalization, tempo estimation,
//! resampling, and the transition engine -- is specified and verified over
//! this integer model; file decoding and encoding live outside the library.

pub mod errors;
pub mod frame;
pub mod track;
pub mod envelope;
pub mod ratio;
pub mod resample;
pub mod tempo;
pub mod engine;
