//! Control logic of a small modular synthesizer: samplers registered by id,
//! mixers and oscillators driven by messages, and the bookkeeping of the
//! windows that edit them. Audio values are carried as IEEE-754 binary32
//! bit patterns (`u32`); the arithmetic on them lives with the audio callback.

pub mod channel;
pub mod frames;
pub mod id;
pub mod keyed;
pub mod look;
pub mod message;
pub mod mixer;
pub mod network;
pub mod oscillator;
pub mod sampler;
pub mod smooth;
pub mod text;
