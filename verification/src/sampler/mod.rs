//! The samplers of the engine and the messages that steer them.

pub mod mixer;
pub mod oscillator;

pub use mixer::{Mixer, MixerMessage};
pub use oscillator::{Oscillator, OscillatorMessage};
