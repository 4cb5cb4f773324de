use crossbeam_channel::Receiver;
use vstd::prelude::*;

use crate::channel::{open_channel, take_pending, Inbox, Outbox};
use crate::message::{Message, MessageReceiver};

verus! {

/// The changes that can be made to an oscillator. Frequencies are IEEE-754
/// binary32 bit patterns, in hertz.
#[derive(Clone, Copy, Debug, PartialEq, Eq)]
pub enum OscillatorMessage {
    /// Moves the oscillator to a new frequency.
    SetFreq(u32),
}

/// What an oscillator holds: its frequency and the phase reached so far,
/// both IEEE-754 binary32 bit patterns.
#[derive(Clone, Copy, Debug, PartialEq, Eq)]
pub struct OscillatorState {
    pub freq: u32,
    pub phase: u32,
}

/// The frequency after a sequence of messages: the last one sent, or the
/// one before them when there are none.
pub open spec fn frequency_after(freq: u32, msgs: Seq<OscillatorMessage>) -> u32 {
    if msgs.len() == 0 {
        freq
    } else {
        match msgs.last() {
            OscillatorMessage::SetFreq(f) => f,
        }
    }
}

/// Taking in two batches of messages one after the other sets the same
/// frequency as taking them in as one batch.
pub proof fn lemma_frequency_after_concat(freq: u32, a: Seq<OscillatorMessage>, b: Seq<OscillatorMessage>)
    ensures
        frequency_after(freq, a + b) == frequency_after(frequency_after(freq, a), b),
{
    if b.len() == 0 {
        assert(a + b =~= a);
    } else {
        assert((a + b).last() == b.last());
    }
}

/// A sine oscillator.
pub struct Oscillator {
    recv: Inbox<OscillatorMessage>,
    freq: u32,
    last_val: u32,
}

impl View for Oscillator {
    type V = OscillatorState;

    closed spec fn view(&self) -> OscillatorState {
        OscillatorState { freq: self.freq, phase: self.last_val }
    }
}

impl Oscillator {
    /// The receiving end of the oscillator's message channel.
    pub closed spec fn receiver(&self) -> Receiver<OscillatorMessage> {
        self.recv.end()
    }

    /// Every message taken off the oscillator's channel so far, in order.
    pub closed spec fn taken(&self) -> Seq<OscillatorMessage> {
        self.recv.taken()
    }

    /// How many times the messages waiting on the channel were taken in.
    pub closed spec fn rounds(&self) -> nat {
        self.recv.rounds()
    }

    /// An oscillator at `freq`, at phase zero, and the sending end of its
    /// message channel.
    pub fn new(freq: u32) -> (r: (Self, Outbox<OscillatorMessage>))
        ensures
            r.0@ == (OscillatorState { freq, phase: 0 }),
            r.1.attempted() == Seq::<OscillatorMessage>::empty(),
            r.1.delivered() == Seq::<OscillatorMessage>::empty(),
            r.1.destination() == r.0.receiver(),
            r.0.taken() == Seq::<OscillatorMessage>::empty(),
            r.0.rounds() == 0,
    {
        let (send, recv) = open_channel();
        (Oscillator { recv, freq, last_val: 0 }, send)
    }

    /// The frequency.
    pub fn freq(&self) -> (f: u32)
        ensures
            f == self@.freq,
    {
        self.freq
    }

    /// The phase reached so far.
    pub fn phase(&self) -> (p: u32)
        ensures
            p == self@.phase,
    {
        self.last_val
    }

    /// Moves the phase on to `phase`; the frequency stays.
    pub fn set_phase(&mut self, phase: u32)
        ensures
            final(self)@ == (OscillatorState { phase, ..old(self)@ }),
            final(self).receiver() == old(self).receiver(),
            final(self).taken() == old(self).taken(),
            final(self).rounds() == old(self).rounds(),
    {
        self.last_val = phase;
    }

    /// Applies the messages in order.
    pub fn apply_all(&mut self, messages: Vec<OscillatorMessage>)
        ensures
            final(self)@ == (OscillatorState {
                freq: frequency_after(old(self)@.freq, messages@),
                ..old(self)@
            }),
            final(self).receiver() == old(self).receiver(),
            final(self).taken() == old(self).taken(),
            final(self).rounds() == old(self).rounds(),
    {
        let mut i: usize = 0;
        while i < messages.len()
            invariant
                i <= messages.len(),
                self@ == (OscillatorState {
                    freq: frequency_after(old(self)@.freq, messages@.take(i as int)),
                    ..old(self)@
                }),
                self.receiver() == old(self).receiver(),
                self.taken() == old(self).taken(),
                self.rounds() == old(self).rounds(),
            decreases messages.len() - i,
        {
            let msg = messages[i];
            msg.apply(self);
            assert(messages@.take(i + 1).last() == messages@[i as int]);
            i += 1;
        }
        assert(messages@.take(messages.len() as int) == messages@);
    }
}

impl Message for OscillatorMessage {
    type State = Oscillator;

    fn apply(self, state: &mut Oscillator)
        ensures
            final(state)@ == (OscillatorState {
                freq: frequency_after(old(state)@.freq, seq![self]),
                ..old(state)@
            }),
            final(state).receiver() == old(state).receiver(),
            final(state).taken() == old(state).taken(),
            final(state).rounds() == old(state).rounds(),
    {
        match self {
            OscillatorMessage::SetFreq(freq) => state.freq = freq,
        }
    }
}

impl MessageReceiver for Oscillator {
    /// The same channel and phase, the messages waiting on the channel
    /// taken off in one round, and the frequency after every one of them,
    /// in the order taken.
    open spec fn took_in(before: &Oscillator, after: &Oscillator) -> bool {
        &&& after.receiver() == before.receiver()
        &&& after@.phase == before@.phase
        &&& after.rounds() == before.rounds() + 1
        &&& before.taken().is_prefix_of(after.taken())
        &&& after@.freq == frequency_after(before@.freq, after.taken().skip(before.taken().len() as int))
    }

    fn recv(&mut self) {
        let pending = take_pending(&mut self.recv);
        let ghost msgs = pending@;
        self.apply_all(pending);
        assert(self.taken().skip(old(self).taken().len() as int) =~= msgs);
        assert(old(self).taken() =~= self.taken().subrange(0, old(self).taken().len() as int));
    }
}

/// The last message sent sets the frequency, whatever the frequency was
/// and whatever messages came before it.
pub proof fn lemma_last_message_wins(freq: u32, msgs: Seq<OscillatorMessage>, f: u32)
    ensures
        frequency_after(freq, msgs.push(OscillatorMessage::SetFreq(f))) == f,
{
}

/// After taking in messages, the oscillator runs at the frequency of the
/// last message taken off its channel in that call; when it took none, at
/// the frequency it had.
pub proof fn lemma_recv_ends_on_last_taken(before: Oscillator, after: Oscillator)
    requires
        Oscillator::took_in(&before, &after),
    ensures
        after.taken().len() > before.taken().len()
            ==> after.taken().last() == OscillatorMessage::SetFreq(after@.freq),
        after.taken().len() == before.taken().len() ==> after@.freq == before@.freq,
        after@.phase == before@.phase,
{
    let d = after.taken().skip(before.taken().len() as int);
    if after.taken().len() > before.taken().len() {
        assert(d.last() == after.taken().last());
    } else {
        assert(d.len() == 0);
    }
}

} // verus!
