//! A software sound chip: a bank of oscillator channels driven by commands,
//! with tick-accurate frame accounting.
//!
//! Every single-precision quantity is held as a [`scalar::Scalar`], its IEEE-754
//! bit pattern, and the library performs on it only the operations that are
//! exact on that pattern: ordering, clamping, sign manipulation, flooring and
//! the remainder by one. The rounding arithmetic of synthesis is supplied by
//! the host.

pub mod scalar;
pub mod errors;
pub mod waveform;
pub mod command;
pub mod channel;
pub mod chip;
pub mod laws;

pub use command::Command;
pub use chip::{ChipGenerationData, ChipState};
