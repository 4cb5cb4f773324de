use std::collections::HashMap;

use vstd::prelude::*;

use crate::channel::{ChannelError, LocalQueue, Outbox};
use crate::keyed::key_list;
use crate::network::{register_run, Network};

verus! {

broadcast use vstd::std_specs::hash::group_hash_axioms;

/// The id and name of each arrival, in order.
pub open spec fn names_of<S>(arrivals: Seq<(u128, String, S)>) -> Seq<(u128, String)> {
    arrivals.map_values(|a: (u128, String, S)| (a.0, a.1))
}

/// The id and sampler of each arrival, in order: what is handed on to the
/// network.
pub open spec fn handed_on<S>(arrivals: Seq<(u128, String, S)>) -> Seq<(u128, S)> {
    arrivals.map_values(|a: (u128, String, S)| (a.0, a.2))
}

/// The control side of a network: it queues samplers, hands them on to the
/// network and keeps their names, for the windows to show.
#[verifier::reject_recursive_types(S)]
pub struct WrappedNetwork<S> {
    queue: LocalQueue<(u128, String, S)>,
    delegate: Outbox<(u128, S)>,
    samplers: HashMap<u128, String>,
}

impl<S> View for WrappedNetwork<S> {
    type V = Map<u128, String>;

    /// The name of each sampler handed on so far, under its id.
    closed spec fn view(&self) -> Map<u128, String> {
        self.samplers@
    }
}

impl<S> WrappedNetwork<S> {
    /// The samplers queued and not yet handed on, in order.
    pub closed spec fn queued(&self) -> Seq<(u128, String, S)> {
        self.queue.pending()
    }

    /// The outbox by which samplers go to the network.
    pub closed spec fn delegate(&self) -> Outbox<(u128, S)> {
        self.delegate
    }

    /// A wrapper with no names, that has queued and handed on nothing, and
    /// the network it hands samplers to.
    pub fn new() -> (r: (Self, Network<S>))
        ensures
            r.0@ == Map::<u128, String>::empty(),
            r.0.queued() == Seq::<(u128, String, S)>::empty(),
            r.0.delegate().attempted() == Seq::<(u128, S)>::empty(),
            r.0.delegate().delivered() == Seq::<(u128, S)>::empty(),
            r.1@ == Map::<u128, S>::empty(),
            r.0.delegate().destination() == r.1.receiver(),
    {
        let (network, delegate) = Network::new();
        (WrappedNetwork { queue: LocalQueue::new(), delegate, samplers: HashMap::new() }, network)
    }

    /// Queues a sampler under its id and name; it is handed on by the next
    /// `recv`. The queue always takes it: both its ends are held here and
    /// it has no limit. Names and what was handed on stay as they were.
    pub fn add_sampler(&mut self, id: u128, name: String, sampler: S) -> (r: Result<(), ChannelError>)
        ensures
            r is Ok,
            final(self)@ == old(self)@,
            final(self).delegate() == old(self).delegate(),
            final(self).queued() == old(self).queued().push((id, name, sampler)),
    {
        self.queue.push((id, name, sampler));
        Ok(())
    }

    /// Hands the samplers on to the network in order, keeping each name.
    /// On the first one that the network's channel refuses, stops with its
    /// error: those before it were handed on and named, that one was handed
    /// to the channel but not taken, and those after it were not handed on.
    pub fn forward_all(&mut self, arrivals: Vec<(u128, String, S)>) -> (r: Result<(), ChannelError>)
        ensures
            final(self).queued() == old(self).queued(),
            final(self).delegate().end() == old(self).delegate().end(),
            final(self).delegate().destination() == old(self).delegate().destination(),
            r is Ok ==> {
                &&& final(self)@ == register_run(old(self)@, names_of(arrivals@))
                &&& final(self).delegate().attempted() == old(self).delegate().attempted() + handed_on(arrivals@)
                &&& final(self).delegate().delivered() == old(self).delegate().delivered() + handed_on(arrivals@)
            },
            r matches Err(e) ==> e == ChannelError::Disconnected,
            r is Err ==> exists|k: int| {
                &&& 0 <= k < arrivals@.len()
                &&& final(self)@ == register_run(old(self)@, names_of(#[trigger] arrivals@.take(k)))
                &&& final(self).delegate().attempted() == old(self).delegate().attempted() + handed_on(arrivals@.take(k + 1))
                &&& final(self).delegate().delivered() == old(self).delegate().delivered() + handed_on(arrivals@.take(k))
            },
    {
        let ghost all = arrivals@;
        for arrival in it: arrivals.into_iter()
            invariant
                it.seq() == all,
                self.queued() == old(self).queued(),
                self.delegate().end() == old(self).delegate().end(),
                self.delegate().destination() == old(self).delegate().destination(),
                self@ == register_run(old(self)@, names_of(all.take(it.index()))),
                self.delegate().attempted() == old(self).delegate().attempted() + handed_on(all.take(it.index())),
                self.delegate().delivered() == old(self).delegate().delivered() + handed_on(all.take(it.index())),
        {
            let ghost k = it.index();
            let ghost before = self.delegate().delivered();
            let ghost tried = self.delegate().attempted();
            let (id, name, sampler) = arrival;
            assert(handed_on(all.take(k + 1)) =~= handed_on(all.take(k)).push((id, sampler)));
            assert(tried + handed_on(all.take(k + 1)) =~= (tried + handed_on(all.take(k))).push((id, sampler)));
            assert(before + handed_on(all.take(k + 1)) =~= (before + handed_on(all.take(k))).push((id, sampler)));
            match self.delegate.try_send((id, sampler)) {
                Ok(()) => {},
                Err(e) => {
                    assert(0 <= k < all.len());
                    return Err(e);
                },
            }
            assert(names_of(all.take(k + 1)).drop_last() =~= names_of(all.take(k)));
            assert(names_of(all.take(k + 1)).last() == (id, name));
            self.samplers.insert(id, name);
        }
        assert(all.take(all.len() as int) == all);
        Ok(())
    }

    /// The name of the sampler under `id`, if one was handed on.
    pub fn name_of(&self, id: u128) -> (r: Option<&String>)
        ensures
            r is Some <==> self@.contains_key(id),
            r matches Some(name) ==> *name == self@[id],
    {
        self.samplers.get(&id)
    }

    /// The ids of the samplers handed on so far, each once.
    pub fn sampler_ids(&self) -> (ids: Vec<u128>)
        ensures
            ids@.no_duplicates(),
            forall|id: u128| ids@.contains(id) <==> self@.contains_key(id),
    {
        key_list(&self.samplers)
    }

    /// Hands on every sampler queued so far, as `forward_all` does: the
    /// queue is drained, and its samplers go to the network in the order
    /// they were queued, their names kept, up to the first one the
    /// network's channel refuses, if any.
    pub fn recv(&mut self) -> (r: Result<(), ChannelError>)
        ensures
            final(self).queued() == Seq::<(u128, String, S)>::empty(),
            final(self).delegate().end() == old(self).delegate().end(),
            final(self).delegate().destination() == old(self).delegate().destination(),
            r is Ok ==> {
                &&& final(self)@ == register_run(old(self)@, names_of(old(self).queued()))
                &&& final(self).delegate().attempted() == old(self).delegate().attempted() + handed_on(old(self).queued())
                &&& final(self).delegate().delivered() == old(self).delegate().delivered() + handed_on(old(self).queued())
            },
            r matches Err(e) ==> e == ChannelError::Disconnected,
            r is Err ==> exists|k: int| {
                &&& 0 <= k < old(self).queued().len()
                &&& final(self)@ == register_run(old(self)@, names_of(#[trigger] old(self).queued().take(k)))
                &&& final(self).delegate().attempted() == old(self).delegate().attempted() + handed_on(old(self).queued().take(k + 1))
                &&& final(self).delegate().delivered() == old(self).delegate().delivered() + handed_on(old(self).queued().take(k))
            },
    {
        let pending = self.queue.drain();
        let ghost all = pending@;
        let r = self.forward_all(pending);
        proof {
            if r is Err {
                let k = choose|k: int| {
                    &&& 0 <= k < all.len()
                    &&& self@ == register_run(old(self)@, names_of(#[trigger] all.take(k)))
                    &&& self.delegate().attempted() == old(self).delegate().attempted() + handed_on(all.take(k + 1))
                    &&& self.delegate().delivered() == old(self).delegate().delivered() + handed_on(all.take(k))
                };
                assert(self@ == register_run(old(self)@, names_of(old(self).queued().take(k))));
            }
        }
        r
    }
}

} // verus!
