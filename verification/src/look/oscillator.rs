use crossbeam_channel::{Receiver, Sender};
use vstd::prelude::*;

use crate::channel::{ChannelError, Outbox};
use crate::id::{is_v4_id, new_sampler_id};
use crate::sampler::oscillator::{Oscillator, OscillatorMessage, OscillatorState};

verus! {

/// Bit pattern of 440.0, the frequency a new oscillator starts at.
pub const START_FREQ: u32 = 0x43dc_0000;

/// What an oscillator window holds: the id of its oscillator, the
/// frequency it shows (an IEEE-754 binary32 bit pattern), every message it
/// handed to its oscillator's channel, and those the channel took, in
/// order.
pub struct OscillatorWindowState {
    pub id: u128,
    pub freq: u32,
    pub attempted: Seq<OscillatorMessage>,
    pub sent: Seq<OscillatorMessage>,
}

/// The state behind the window that sets the frequency of an oscillator.
pub struct OscillatorWindow {
    send: Outbox<OscillatorMessage>,
    id: u128,
    freq: u32,
}

impl View for OscillatorWindow {
    type V = OscillatorWindowState;

    closed spec fn view(&self) -> OscillatorWindowState {
        OscillatorWindowState {
            id: self.id,
            freq: self.freq,
            attempted: self.send.attempted(),
            sent: self.send.delivered(),
        }
    }
}

impl OscillatorWindow {
    /// The sending end of the oscillator's channel.
    pub closed spec fn sender(&self) -> Sender<OscillatorMessage> {
        self.send.end()
    }

    /// The receiving end that the window's messages go to.
    pub closed spec fn destination(&self) -> Receiver<OscillatorMessage> {
        self.send.destination()
    }

    /// A new random id, an oscillator at 440 Hz, and a window for it that shows
    /// that frequency.
    pub fn new() -> (r: (u128, Oscillator, Self))
        ensures
            r.2@.id == r.0,
            is_v4_id(r.0),
            r.2@.freq == START_FREQ,
            r.2@.attempted == Seq::<OscillatorMessage>::empty(),
            r.2@.sent == Seq::<OscillatorMessage>::empty(),
            r.2.destination() == r.1.receiver(),
            r.1@ == (OscillatorState { freq: START_FREQ, phase: 0 }),
    {
        let id = new_sampler_id();
        let (oscillator, send) = Oscillator::new(START_FREQ);
        (id, oscillator, OscillatorWindow { send, id, freq: START_FREQ })
    }

    /// The id of the oscillator.
    pub fn id(&self) -> (id: u128)
        ensures
            id == self@.id,
    {
        self.id
    }

    /// The frequency shown.
    pub fn freq(&self) -> (f: u32)
        ensures
            f == self@.freq,
    {
        self.freq
    }

    /// Shows a new frequency and hands the oscillator `SetFreq(freq)`. The
    /// error says that every receiving end of the oscillator's channel is
    /// gone, and the message was then not taken; the frequency shown is
    /// changed either way.
    pub fn set_freq(&mut self, freq: u32) -> (r: Result<(), ChannelError>)
        ensures
            final(self)@.id == old(self)@.id,
            final(self)@.freq == freq,
            final(self).sender() == old(self).sender(),
            final(self).destination() == old(self).destination(),
            final(self)@.attempted == old(self)@.attempted.push(OscillatorMessage::SetFreq(freq)),
            r is Ok ==> final(self)@.sent == old(self)@.sent.push(OscillatorMessage::SetFreq(freq)),
            r is Err ==> final(self)@.sent == old(self)@.sent,
            r matches Err(e) ==> e == ChannelError::Disconnected,
    {
        self.freq = freq;
        self.send.send(OscillatorMessage::SetFreq(freq))
    }
}

} // verus!
