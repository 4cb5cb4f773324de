# vitamin

The control side of a small modular synthesizer, verified with Verus.

- `src/` is the library. Samplers live in a `network::Network` under
  128-bit ids; `sampler::Mixer` and `sampler::Oscillator` change only
  through messages (`MixerMessage`, `OscillatorMessage`) that arrive over
  channels; `look` holds what the editing windows know (names of samplers,
  volumes and frequencies shown) and the messages they send; `frames` lays
  one value per frame out over the channels of an output buffer. Every
  message the library sends goes through a `channel::Outbox` (the sending
  end of an unbounded channel), whose ghost records of the messages handed
  to the channel and of those it took let contracts say which messages a
  window or wrapper sent. The wrapper's own queue is a
  `channel::LocalQueue`, a channel whose two ends it alone holds. Audio
  values (volumes, frequencies, phases) are IEEE-754 binary32 bit patterns.
- `app/` is the program around it: the audio callback and every `f32`
  computation (gliding volumes, sines, mixing), the egui windows and the
  output device.
