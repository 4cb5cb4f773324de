use vstd::prelude::*;

verus! {

/// A part of the engine that takes in the messages waiting for it.
pub trait MessageReceiver {
    /// `after` is what taking in messages that had arrived can make of
    /// `before`. A receiver that says nothing more admits any change.
    open spec fn took_in(before: &Self, after: &Self) -> bool {
        true
    }

    /// Applies every message that has arrived since the last call.
    fn recv(&mut self)
        ensures
            Self::took_in(old(self), final(self)),
    ;
}

/// A change to be made to some state, sent from the control side.
pub trait Message {
    /// The state that the message changes.
    type State;

    /// Makes the change.
    fn apply(self, state: &mut Self::State);
}

} // verus!
