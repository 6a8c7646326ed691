//! A two-formant voice-like synthesizer core.
//!
//! The engine keeps three phase accumulators (a fixed-pitch carrier and two
//! formant oscillators), a gated amplitude envelope, and a one-pole low-pass
//! smoothing filter.  All state is held in fixed-point integers so that every
//! step of the sample loop can be specified and proved exactly: phases are
//! 32-bit binary fractions of a cycle, the envelope is a fraction of
//! `ENV_ONE`, and amplitudes are fractions of `AMP_ONE` (full scale, one unit
//! of output amplitude).

pub mod engine;
pub mod mapping;
pub mod wave;
