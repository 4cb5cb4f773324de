//! The message channels between the control thread and the audio thread.
//!
//! What a channel hands out depends on what other threads sent and when, so
//! receiving promises nothing about which messages come: the code that uses
//! it is verified for every outcome. Receiving goes through an `Inbox`,
//! which keeps, as a ghost record, every message taken out of it, so that
//! what a receiver does can be stated over exactly the messages it took.
//! Sending goes through an `Outbox`, which keeps, as a ghost record, every
//! message that the channel accepted.

use crossbeam_channel::{Receiver, Sender, TrySendError};
use vstd::prelude::*;

verus! {

#[verifier::external_type_specification]
#[verifier::external_body]
#[verifier::reject_recursive_types(T)]
pub struct ExSender<T>(Sender<T>);

#[verifier::external_type_specification]
#[verifier::external_body]
#[verifier::reject_recursive_types(T)]
pub struct ExReceiver<T>(Receiver<T>);

/// Why a message could not be handed to a channel.
#[derive(Clone, Copy, Debug, PartialEq, Eq)]
pub enum ChannelError {
    /// The channel has room for no more messages.
    Full,
    /// Every receiving end of the channel is gone.
    Disconnected,
}

/// The sending end of an unbounded channel, with two ghost records: every
/// message handed to the channel, and those the channel took, in order; and
/// the receiving end of that channel. Every outbox comes from
/// `open_channel`, over a channel of unlimited capacity.
#[verifier::reject_recursive_types(T)]
pub struct Outbox<T> {
    sender: Sender<T>,
    attempted: Ghost<Seq<T>>,
    delivered: Ghost<Seq<T>>,
    unbounded: Ghost<bool>,
    destination: Ghost<Receiver<T>>,
}

impl<T> Outbox<T> {
    #[verifier::type_invariant]
    spec fn over_unbounded(self) -> bool {
        self.unbounded@
    }

    /// Every message handed to the channel through this outbox, in order,
    /// whether or not the channel took it.
    pub closed spec fn attempted(&self) -> Seq<T> {
        self.attempted@
    }

    /// The messages the channel took through this outbox, in order.
    pub closed spec fn delivered(&self) -> Seq<T> {
        self.delivered@
    }

    /// The channel behind this outbox has unlimited capacity.
    pub closed spec fn unbounded(&self) -> bool {
        self.unbounded@
    }

    /// The sending end that the messages go through.
    pub closed spec fn end(&self) -> Sender<T> {
        self.sender
    }

    /// The receiving end of this outbox's channel: where the messages go.
    pub closed spec fn destination(&self) -> Receiver<T> {
        self.destination@
    }

    /// Hands `msg` to the channel, waiting for nothing: the channel has
    /// unlimited capacity. The error says that every receiving end is gone;
    /// the message was then not taken.
    pub fn send(&mut self, msg: T) -> (r: Result<(), ChannelError>)
        ensures
            final(self).end() == old(self).end(),
            final(self).destination() == old(self).destination(),
            final(self).attempted() == old(self).attempted().push(msg),
            r is Ok ==> final(self).delivered() == old(self).delivered().push(msg),
            r is Err ==> final(self).delivered() == old(self).delivered(),
            r matches Err(e) ==> e == ChannelError::Disconnected,
    {
        proof {
            use_type_invariant(&*self);
        }
        send_message(self, msg)
    }

    /// Hands `msg` to the channel as `try_send` does; the channel has
    /// unlimited capacity, so it is never full, and the one error says that
    /// every receiving end is gone: the message was then not taken.
    pub fn try_send(&mut self, msg: T) -> (r: Result<(), ChannelError>)
        ensures
            final(self).end() == old(self).end(),
            final(self).destination() == old(self).destination(),
            final(self).attempted() == old(self).attempted().push(msg),
            r is Ok ==> final(self).delivered() == old(self).delivered().push(msg),
            r is Err ==> final(self).delivered() == old(self).delivered(),
            r matches Err(e) ==> e == ChannelError::Disconnected,
    {
        proof {
            use_type_invariant(&*self);
        }
        try_send_message(self, msg)
    }
}

/// Calls `crossbeam_channel::unbounded`: a fresh channel of unlimited
/// capacity. Its sending end comes wrapped in an outbox that has handed on
/// nothing yet, its receiving end in an inbox that has taken nothing yet,
/// and the outbox's destination is that inbox's receiving end.
#[verifier::external_body]
pub(crate) fn open_channel<T>() -> (r: (Outbox<T>, Inbox<T>))
    ensures
        r.0.attempted() == Seq::<T>::empty(),
        r.0.delivered() == Seq::<T>::empty(),
        r.0.unbounded(),
        r.0.destination() == r.1.end(),
        r.1.taken() == Seq::<T>::empty(),
        r.1.rounds() == 0,
{
    let (sender, receiver) = crossbeam_channel::unbounded();
    let destination = Ghost(receiver);
    (
        Outbox {
            sender,
            attempted: Ghost(Seq::empty()),
            delivered: Ghost(Seq::empty()),
            unbounded: Ghost(true),
            destination,
        },
        Inbox { receiver, taken: Ghost(Seq::empty()), rounds: Ghost(0) },
    )
}

/// The receiving end of a channel, with a ghost record of every message
/// taken out through it, in the order the channel handed them out, and of
/// how many times it was emptied.
#[verifier::reject_recursive_types(T)]
pub struct Inbox<T> {
    receiver: Receiver<T>,
    taken: Ghost<Seq<T>>,
    rounds: Ghost<nat>,
}

impl<T> Inbox<T> {
    /// The receiving end that the messages come out of.
    pub closed spec fn end(&self) -> Receiver<T> {
        self.receiver
    }

    /// Every message taken out through this inbox so far, in order.
    pub closed spec fn taken(&self) -> Seq<T> {
        self.taken@
    }

    /// How many times the pending messages were taken out so far.
    pub closed spec fn rounds(&self) -> nat {
        self.rounds@
    }
}

/// Calls `Receiver::try_iter` and collects it: every message that can be
/// received without blocking, in the order the channel hands them out. They
/// join the inbox's record of what was taken, right after what was taken
/// before, and the inbox counts one more round. Which messages these are
/// depends on the senders, so nothing more is stated.
#[verifier::external_body]
pub(crate) fn take_pending<T>(inbox: &mut Inbox<T>) -> (v: Vec<T>)
    ensures
        final(inbox).end() == old(inbox).end(),
        final(inbox).taken() == old(inbox).taken() + v@,
        final(inbox).rounds() == old(inbox).rounds() + 1,
{
    inbox.receiver.try_iter().collect()
}

/// Calls `Sender::send` on the outbox's sending end, which on a channel of
/// unlimited capacity waits for nothing. The message is handed to the
/// channel in any case; when the call reports success the channel took it.
/// Its one error is that every receiving end is gone, and then the message
/// was not taken. Which of the two comes back depends on the receivers, so
/// that is not stated.
#[verifier::external_body]
pub(crate) fn send_message<T>(out: &mut Outbox<T>, msg: T) -> (r: Result<(), ChannelError>)
    requires
        old(out).unbounded(),
    ensures
        final(out).end() == old(out).end(),
        final(out).destination() == old(out).destination(),
        final(out).unbounded() == old(out).unbounded(),
        final(out).attempted() == old(out).attempted().push(msg),
        r is Ok ==> final(out).delivered() == old(out).delivered().push(msg),
        r is Err ==> final(out).delivered() == old(out).delivered(),
        r matches Err(e) ==> e == ChannelError::Disconnected,
{
    match out.sender.send(msg) {
        Ok(()) => Ok(()),
        Err(_) => Err(ChannelError::Disconnected),
    }
}

/// Calls `Sender::try_send` on the outbox's sending end, telling its two
/// errors apart. The message is handed to the channel in any case; when the
/// call reports success the channel took it, on an error it did not. A
/// channel of unlimited capacity is never full, so its one error is that
/// every receiving end is gone. Which result comes back depends on the
/// receivers, so that is not stated.
#[verifier::external_body]
pub(crate) fn try_send_message<T>(out: &mut Outbox<T>, msg: T) -> (r: Result<(), ChannelError>)
    ensures
        final(out).end() == old(out).end(),
        final(out).destination() == old(out).destination(),
        final(out).unbounded() == old(out).unbounded(),
        final(out).attempted() == old(out).attempted().push(msg),
        r is Ok ==> final(out).delivered() == old(out).delivered().push(msg),
        r is Err ==> final(out).delivered() == old(out).delivered(),
        old(out).unbounded() && r is Err ==> r matches Err(ChannelError::Disconnected),
{
    match out.sender.try_send(msg) {
        Ok(()) => Ok(()),
        Err(TrySendError::Full(_)) => Err(ChannelError::Full),
        Err(TrySendError::Disconnected(_)) => Err(ChannelError::Disconnected),
    }
}

/// A channel whose two ends are both held here and nowhere else, used as a
/// queue by its one owner: what it holds is exactly what was pushed and
/// not yet drained.
#[verifier::reject_recursive_types(T)]
pub struct LocalQueue<T> {
    sender: Sender<T>,
    receiver: Receiver<T>,
    pending: Ghost<Seq<T>>,
    destination: Ghost<Receiver<T>>,
}

impl<T> LocalQueue<T> {
    #[verifier::type_invariant]
    spec fn one_channel(self) -> bool {
        self.destination@ == self.receiver
    }

    /// The sending end's channel delivers to the receiving end held here.
    pub closed spec fn paired(&self) -> bool {
        self.destination@ == self.receiver
    }

    /// The messages pushed and not yet drained, in order.
    pub closed spec fn pending(&self) -> Seq<T> {
        self.pending@
    }

    /// An empty queue over a fresh channel of unlimited capacity.
    pub fn new() -> (q: Self)
        ensures
            q.pending() == Seq::<T>::empty(),
    {
        let (out, inbox) = open_channel();
        let Outbox { sender, destination, .. } = out;
        let Inbox { receiver, .. } = inbox;
        LocalQueue { sender, receiver, pending: Ghost(Seq::empty()), destination }
    }

    /// Adds `msg` after the pending messages; it always goes in.
    pub fn push(&mut self, msg: T)
        ensures
            final(self).pending() == old(self).pending().push(msg),
    {
        proof {
            use_type_invariant(&*self);
        }
        let _ = queue_push(self, msg);
    }

    /// Takes out every pending message, in the order pushed.
    pub fn drain(&mut self) -> (v: Vec<T>)
        ensures
            v@ == old(self).pending(),
            final(self).pending() == Seq::<T>::empty(),
    {
        proof {
            use_type_invariant(&*self);
        }
        queue_drain(self)
    }
}

/// Calls `Sender::try_send` on the queue's own sending end. The channel has
/// unlimited capacity and its one receiving end is held by the same queue,
/// so the call always succeeds and the message joins the pending ones.
#[verifier::external_body]
pub(crate) fn queue_push<T>(q: &mut LocalQueue<T>, msg: T) -> (r: Result<(), ChannelError>)
    requires
        old(q).paired(),
    ensures
        r is Ok,
        final(q).paired(),
        final(q).pending() == old(q).pending().push(msg),
{
    match q.sender.try_send(msg) {
        Ok(()) => Ok(()),
        Err(TrySendError::Full(_)) => Err(ChannelError::Full),
        Err(TrySendError::Disconnected(_)) => Err(ChannelError::Disconnected),
    }
}

/// Calls `Receiver::try_iter` on the queue's own receiving end and collects
/// it. Only the queue sends on its channel, so this is exactly the pending
/// messages, in the order pushed, and none remain.
#[verifier::external_body]
pub(crate) fn queue_drain<T>(q: &mut LocalQueue<T>) -> (v: Vec<T>)
    requires
        old(q).paired(),
    ensures
        final(q).paired(),
        v@ == old(q).pending(),
        final(q).pending() == Seq::<T>::empty(),
{
    q.receiver.try_iter().collect()
}

} // verus!
