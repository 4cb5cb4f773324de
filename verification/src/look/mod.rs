//! The control side: the wrapper that names samplers, and the state of the
//! windows that edit mixers and oscillators.

pub mod channels;
pub mod mixer;
pub mod oscillator;
pub mod wrapped_network;

pub use mixer::MixerWindow;
pub use oscillator::OscillatorWindow;
pub use wrapped_network::WrappedNetwork;
