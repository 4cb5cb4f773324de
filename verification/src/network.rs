use std::collections::HashMap;

use crossbeam_channel::Receiver;
use vstd::prelude::*;
use vstd::std_specs::iter::IteratorSpec;

use crate::channel::{open_channel, take_pending, Inbox, Outbox};
use crate::keyed::{key_list, update_each};
use crate::message::MessageReceiver;

verus! {

broadcast use vstd::std_specs::hash::group_hash_axioms;

/// The registry after samplers arrive in order: each arrival is registered
/// under its id, a later one replacing an earlier one under the same id.
pub open spec fn register_run<S>(samplers: Map<u128, S>, arrivals: Seq<(u128, S)>) -> Map<u128, S>
    decreases arrivals.len(),
{
    if arrivals.len() == 0 {
        samplers
    } else {
        register_run(samplers, arrivals.drop_last()).insert(arrivals.last().0, arrivals.last().1)
    }
}

/// Registering keeps every sampler already there unless an arrival
/// replaces it, registers every arrival's id, and registers nothing else;
/// under each id stands the last sampler that arrived with it.
pub proof fn lemma_register_run<S>(samplers: Map<u128, S>, arrivals: Seq<(u128, S)>)
    ensures
        forall|id: u128| #[trigger] register_run(samplers, arrivals).contains_key(id) <==> (
            samplers.contains_key(id) || exists|k: int| 0 <= k < arrivals.len() && arrivals[k].0 == id),
        arrivals.len() > 0 ==> register_run(samplers, arrivals)[arrivals.last().0] == arrivals.last().1,
        forall|id: u128| #[trigger] samplers.contains_key(id)
            && (forall|k: int| 0 <= k < arrivals.len() ==> arrivals[k].0 != id)
            ==> register_run(samplers, arrivals)[id] == samplers[id],
    decreases arrivals.len(),
{
    if arrivals.len() > 0 {
        let rest = arrivals.drop_last();
        lemma_register_run(samplers, rest);
        assert forall|id: u128| #[trigger] register_run(samplers, arrivals).contains_key(id) <==> (
            samplers.contains_key(id) || exists|k: int| 0 <= k < arrivals.len() && arrivals[k].0 == id) by {
            assert(register_run(samplers, arrivals) == register_run(samplers, rest).insert(arrivals.last().0, arrivals.last().1));
            assert(register_run(samplers, rest).contains_key(id) <==> (samplers.contains_key(id)
                || exists|k: int| 0 <= k < rest.len() && rest[k].0 == id));
            if exists|k: int| 0 <= k < arrivals.len() && arrivals[k].0 == id {
                let k = choose|k: int| 0 <= k < arrivals.len() && arrivals[k].0 == id;
                if k < rest.len() {
                    assert(rest[k].0 == id);
                }
            }
            if exists|k: int| 0 <= k < rest.len() && rest[k].0 == id {
                let k = choose|k: int| 0 <= k < rest.len() && rest[k].0 == id;
                assert(arrivals[k].0 == id);
            }
        }
        assert forall|id: u128| #[trigger] samplers.contains_key(id)
            && (forall|k: int| 0 <= k < arrivals.len() ==> arrivals[k].0 != id)
            implies register_run(samplers, arrivals)[id] == samplers[id] by {
            assert(arrivals[arrivals.len() - 1].0 != id);
            assert(register_run(samplers, arrivals)[id] == register_run(samplers, rest)[id]);
            assert forall|k: int| 0 <= k < rest.len() implies rest[k].0 != id by {
                assert(arrivals[k].0 != id);
            }
        }
    }
}

/// The samplers of the engine, each under its id, and the channel by which
/// new ones arrive.
#[verifier::reject_recursive_types(S)]
pub struct Network<S> {
    recv: Inbox<(u128, S)>,
    samplers: HashMap<u128, S>,
}

impl<S> View for Network<S> {
    type V = Map<u128, S>;

    closed spec fn view(&self) -> Map<u128, S> {
        self.samplers@
    }
}

impl<S> Network<S> {
    /// The receiving end by which samplers arrive.
    pub closed spec fn receiver(&self) -> Receiver<(u128, S)> {
        self.recv.end()
    }

    /// Every sampler taken off the network's channel so far, with its id,
    /// in order.
    pub closed spec fn taken(&self) -> Seq<(u128, S)> {
        self.recv.taken()
    }

    /// How many times the samplers waiting on the channel were taken in.
    pub closed spec fn rounds(&self) -> nat {
        self.recv.rounds()
    }

    /// An empty network, and the sending end by which samplers are added.
    pub fn new() -> (r: (Self, Outbox<(u128, S)>))
        ensures
            r.0@ == Map::<u128, S>::empty(),
            r.1.attempted() == Seq::<(u128, S)>::empty(),
            r.1.delivered() == Seq::<(u128, S)>::empty(),
            r.1.destination() == r.0.receiver(),
            r.0.taken() == Seq::<(u128, S)>::empty(),
            r.0.rounds() == 0,
    {
        let (send, recv) = open_channel();
        (Network { recv, samplers: HashMap::new() }, send)
    }

    /// Registers the samplers in order.
    pub fn register_all(&mut self, arrivals: Vec<(u128, S)>)
        ensures
            final(self)@ == register_run(old(self)@, arrivals@),
            final(self).receiver() == old(self).receiver(),
            final(self).taken() == old(self).taken(),
            final(self).rounds() == old(self).rounds(),
    {
        let ghost all = arrivals@;
        for arrival in it: arrivals.into_iter()
            invariant
                it.seq() == all,
                self@ == register_run(old(self)@, all.take(it.index())),
                self.receiver() == old(self).receiver(),
                self.taken() == old(self).taken(),
                self.rounds() == old(self).rounds(),
        {
            let ghost k = it.index();
            assert(all.take(k + 1).drop_last() == all.take(k));
            let (id, sampler) = arrival;
            self.samplers.insert(id, sampler);
        }
        assert(all.take(all.len() as int) == all);
    }

    /// The sampler registered under `id`, if any.
    pub fn get(&self, id: u128) -> (r: Option<&S>)
        ensures
            r is Some <==> self@.contains_key(id),
            r matches Some(s) ==> *s == self@[id],
    {
        self.samplers.get(&id)
    }

    /// The ids of the registered samplers, each once.
    pub fn sampler_ids(&self) -> (ids: Vec<u128>)
        ensures
            ids@.no_duplicates(),
            forall|id: u128| ids@.contains(id) <==> self@.contains_key(id),
    {
        key_list(&self.samplers)
    }

    /// Replaces every sampler by what one call of `f` makes of it; no
    /// sampler comes or goes.
    pub fn update_all<F: Fn(S) -> S>(&mut self, f: F)
        requires
            forall|s: S| #[trigger] f.requires((s,)),
        ensures
            final(self)@.dom() == old(self)@.dom(),
            forall|id: u128| #[trigger]
                old(self)@.contains_key(id) ==> f.ensures((old(self)@[id],), final(self)@[id]),
            final(self).receiver() == old(self).receiver(),
            final(self).taken() == old(self).taken(),
            final(self).rounds() == old(self).rounds(),
    {
        update_each(&mut self.samplers, f);
    }
}

/// Lets one sampler take in the messages waiting for it.
pub fn poll<S: MessageReceiver>(sampler: S) -> (r: S)
    ensures
        S::took_in(&sampler, &r),
{
    let mut sampler = sampler;
    sampler.recv();
    sampler
}

/// What one `recv` of a network does: on the same channel, the samplers
/// waiting are taken off it in one round, each is registered in the order taken, and
/// then every registered sampler is what taking in its messages
/// (`took_in`) made of the one registered under its id.
pub open spec fn took_in_arrivals<S: MessageReceiver>(before: &Network<S>, after: &Network<S>) -> bool {
    let arrivals = after.taken().skip(before.taken().len() as int);
    &&& after.receiver() == before.receiver()
    &&& after.rounds() == before.rounds() + 1
    &&& before.taken().is_prefix_of(after.taken())
    &&& after@.dom() == register_run(before@, arrivals).dom()
    &&& forall|id: u128| #[trigger] after@.contains_key(id)
        ==> S::took_in(&register_run(before@, arrivals)[id], &after@[id])
}

impl<S: MessageReceiver> Network<S> {
    /// Registers, in order, the samplers that have arrived, then lets every
    /// registered sampler take in its own messages: each sampler afterwards
    /// is what taking in its messages (`took_in`) made of the one
    /// registered under its id.
    pub fn recv(&mut self)
        ensures
            final(self).receiver() == old(self).receiver(),
            took_in_arrivals(old(self), final(self)),
    {
        let arrivals = take_pending(&mut self.recv);
        let ghost all = arrivals@;
        self.register_all(arrivals);
        let ghost registered = self@;
        self.update_all(poll::<S>);
        assert(registered == register_run(old(self)@, all));
        assert(self.taken().skip(old(self).taken().len() as int) =~= all);
        assert(old(self).taken() =~= self.taken().subrange(0, old(self).taken().len() as int));
        assert forall|id: u128| #[trigger] self@.contains_key(id)
            implies S::took_in(&registered[id], &self@[id]) by {
            assert(registered.contains_key(id));
        }
    }
}

/// Every sampler taken off the network's channel in one `recv` is
/// registered, none is lost, and nothing else comes or goes: afterwards the
/// registered ids are those from before and those of the samplers taken in
/// that call.
pub proof fn lemma_recv_registers_every_arrival<S: MessageReceiver>(before: Network<S>, after: Network<S>)
    requires
        took_in_arrivals(&before, &after),
    ensures
        forall|id: u128| #[trigger] after@.contains_key(id) <==> (before@.contains_key(id)
            || exists|k: int| before.taken().len() <= k < after.taken().len() && after.taken()[k].0 == id),
{
    let n = before.taken().len() as int;
    let d = after.taken().skip(n);
    lemma_register_run(before@, d);
    assert forall|id: u128| #[trigger] after@.contains_key(id) <==> (before@.contains_key(id)
        || exists|k: int| n <= k < after.taken().len() && after.taken()[k].0 == id) by {
        assert(after@.contains_key(id) == register_run(before@, d).contains_key(id));
        if exists|k: int| n <= k < after.taken().len() && after.taken()[k].0 == id {
            let k = choose|k: int| n <= k < after.taken().len() && after.taken()[k].0 == id;
            assert(d[k - n] == after.taken()[k]);
        }
        if exists|k: int| 0 <= k < d.len() && d[k].0 == id {
            let k = choose|k: int| 0 <= k < d.len() && d[k].0 == id;
            assert(d[k] == after.taken()[k + n]);
        }
    }
}

} // verus!
