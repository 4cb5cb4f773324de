use std::collections::HashMap;

use crossbeam_channel::Receiver;
use vstd::prelude::*;

use crate::channel::{open_channel, take_pending, Inbox, Outbox};
use crate::keyed::{key_list, update_each};
use crate::message::{Message, MessageReceiver};
use crate::smooth::SmoothNum;

verus! {

broadcast use vstd::std_specs::hash::group_hash_axioms;

/// Bit pattern of 0.0001, the step by which the volumes of a mixer glide.
pub const VOLUME_STEP: u32 = 0x38d1_b717;

/// The changes that can be made to a mixer. Ids name samplers; volumes are
/// IEEE-754 binary32 bit patterns.
#[derive(Clone, Copy, Debug, PartialEq, Eq)]
pub enum MixerMessage {
    /// Mixes in a sampler at a volume, at rest there.
    AddSource(u128, u32),
    /// Stops mixing in a sampler.
    RemoveSource(u128),
    /// Lets the volume of a sampler that is mixed in glide to a new value.
    SetVolume(u128, u32),
}

/// The sources of a mixer after one message.
pub open spec fn mixer_step(sources: Map<u128, SmoothNum>, msg: MixerMessage) -> Map<u128, SmoothNum> {
    match msg {
        MixerMessage::AddSource(id, volume) => sources.insert(
            id,
            SmoothNum { current: volume, target: volume, step: VOLUME_STEP },
        ),
        MixerMessage::RemoveSource(id) => sources.remove(id),
        MixerMessage::SetVolume(id, volume) => if sources.contains_key(id) {
            sources.insert(id, SmoothNum { target: volume, ..sources[id] })
        } else {
            sources
        },
    }
}

/// The sources of a mixer after a sequence of messages, applied in order.
pub open spec fn mixer_run(sources: Map<u128, SmoothNum>, msgs: Seq<MixerMessage>) -> Map<u128, SmoothNum>
    decreases msgs.len(),
{
    if msgs.len() == 0 {
        sources
    } else {
        mixer_step(mixer_run(sources, msgs.drop_last()), msgs.last())
    }
}

/// The volume each source glides towards.
pub open spec fn targets(sources: Map<u128, SmoothNum>) -> Map<u128, u32> {
    sources.map_values(|n: SmoothNum| n.target)
}

/// Applying two batches of messages one after the other is applying them as
/// one batch.
pub proof fn lemma_mixer_run_concat(sources: Map<u128, SmoothNum>, a: Seq<MixerMessage>, b: Seq<MixerMessage>)
    ensures
        mixer_run(sources, a + b) == mixer_run(mixer_run(sources, a), b),
    decreases b.len(),
{
    if b.len() == 0 {
        assert(a + b =~= a);
    } else {
        lemma_mixer_run_concat(sources, a, b.drop_last());
        assert((a + b).drop_last() =~= a + b.drop_last());
        assert((a + b).last() == b.last());
    }
}

/// Removing a source that was just added, where there was none under that
/// id before, leaves the sources as they were.
pub proof fn lemma_remove_undoes_add(sources: Map<u128, SmoothNum>, id: u128, volume: u32)
    requires
        !sources.contains_key(id),
    ensures
        mixer_run(sources, seq![MixerMessage::AddSource(id, volume), MixerMessage::RemoveSource(id)]) == sources,
{
    let msgs = seq![MixerMessage::AddSource(id, volume), MixerMessage::RemoveSource(id)];
    let first = seq![MixerMessage::AddSource(id, volume)];
    assert(msgs.drop_last() =~= first);
    assert(first.drop_last() =~= Seq::<MixerMessage>::empty());
    assert(mixer_run(sources, first.drop_last()) == sources);
    assert(first.last() == MixerMessage::AddSource(id, volume));
    assert(mixer_run(sources, first) == mixer_step(sources, MixerMessage::AddSource(id, volume)));
    assert(mixer_run(sources, msgs) =~= sources);
}

/// A new volume never adds or removes a source, and never moves a current
/// value or a step: only the target of that one source changes.
pub proof fn lemma_set_volume_moves_only_target(sources: Map<u128, SmoothNum>, id: u128, volume: u32)
    ensures
        mixer_step(sources, MixerMessage::SetVolume(id, volume)).dom() == sources.dom(),
        forall|k: u128| #[trigger] sources.contains_key(k) ==> {
            let n = mixer_step(sources, MixerMessage::SetVolume(id, volume))[k];
            &&& n.current == sources[k].current
            &&& n.step == sources[k].step
            &&& n.target == if k == id { volume } else { sources[k].target }
        },
{
    assert(mixer_step(sources, MixerMessage::SetVolume(id, volume)).dom() =~= sources.dom());
}

/// A source that is added starts at rest: its current value is its target.
pub proof fn lemma_added_source_at_rest(sources: Map<u128, SmoothNum>, id: u128, volume: u32)
    ensures
        ({
            let n = mixer_step(sources, MixerMessage::AddSource(id, volume))[id];
            n.current == volume && n.target == volume && n.step == VOLUME_STEP
        }),
{
}

/// A mixer whose targets are the volumes a window shows keeps them so when
/// it takes in a message that makes the same change to the window: a
/// source added at a volume, a new volume for a source shown, or a source
/// dropped.
pub proof fn lemma_targets_follow_window(
    sources: Map<u128, SmoothNum>,
    shown: Map<u128, u32>,
    msg: MixerMessage,
)
    requires
        targets(sources) == shown,
        msg matches MixerMessage::SetVolume(id, _) ==> shown.contains_key(id),
    ensures
        targets(mixer_step(sources, msg)) == match msg {
            MixerMessage::AddSource(id, volume) => shown.insert(id, volume),
            MixerMessage::SetVolume(id, volume) => shown.insert(id, volume),
            MixerMessage::RemoveSource(id) => shown.remove(id),
        },
{
    match msg {
        MixerMessage::AddSource(id, volume) => {
            assert(targets(mixer_step(sources, msg)) =~= shown.insert(id, volume));
        },
        MixerMessage::SetVolume(id, volume) => {
            assert(sources.contains_key(id));
            assert(targets(mixer_step(sources, msg)) =~= shown.insert(id, volume));
        },
        MixerMessage::RemoveSource(id) => {
            assert(targets(mixer_step(sources, msg)) =~= shown.remove(id));
        },
    }
}

/// Mixes samplers, each at its own gliding volume.
pub struct Mixer {
    recv: Inbox<MixerMessage>,
    sources: HashMap<u128, SmoothNum>,
}

impl View for Mixer {
    type V = Map<u128, SmoothNum>;

    /// Each mixed-in sampler's id, with its volume.
    closed spec fn view(&self) -> Map<u128, SmoothNum> {
        self.sources@
    }
}

impl Mixer {
    /// The receiving end of the mixer's message channel.
    pub closed spec fn receiver(&self) -> Receiver<MixerMessage> {
        self.recv.end()
    }

    /// Every message taken off the mixer's channel so far, in order.
    pub closed spec fn taken(&self) -> Seq<MixerMessage> {
        self.recv.taken()
    }

    /// How many times the messages waiting on the channel were taken in.
    pub closed spec fn rounds(&self) -> nat {
        self.recv.rounds()
    }

    /// A mixer with no sources, and the sending end of its message channel.
    pub fn new() -> (r: (Self, Outbox<MixerMessage>))
        ensures
            r.0@ == Map::<u128, SmoothNum>::empty(),
            r.1.attempted() == Seq::<MixerMessage>::empty(),
            r.1.delivered() == Seq::<MixerMessage>::empty(),
            r.1.destination() == r.0.receiver(),
            r.0.taken() == Seq::<MixerMessage>::empty(),
            r.0.rounds() == 0,
    {
        let (send, recv) = open_channel();
        (Mixer { recv, sources: HashMap::new() }, send)
    }

    /// Applies the messages in order.
    pub fn apply_all(&mut self, messages: Vec<MixerMessage>)
        ensures
            final(self)@ == mixer_run(old(self)@, messages@),
            final(self).receiver() == old(self).receiver(),
            final(self).taken() == old(self).taken(),
            final(self).rounds() == old(self).rounds(),
    {
        let mut i: usize = 0;
        while i < messages.len()
            invariant
                i <= messages.len(),
                self@ == mixer_run(old(self)@, messages@.take(i as int)),
                self.receiver() == old(self).receiver(),
                self.taken() == old(self).taken(),
                self.rounds() == old(self).rounds(),
            decreases messages.len() - i,
        {
            let msg = messages[i];
            msg.apply(self);
            assert(messages@.take(i + 1).drop_last() == messages@.take(i as int));
            i += 1;
        }
        assert(messages@.take(messages.len() as int) == messages@);
    }

    /// The volume of a mixed-in sampler, if it is one.
    pub fn source(&self, id: u128) -> (r: Option<SmoothNum>)
        ensures
            r is Some <==> self@.contains_key(id),
            r matches Some(n) ==> n == self@[id],
    {
        match self.sources.get(&id) {
            Some(n) => Some(*n),
            None => None,
        }
    }

    /// The ids of the mixed-in samplers, each once.
    pub fn source_ids(&self) -> (ids: Vec<u128>)
        ensures
            ids@.no_duplicates(),
            forall|id: u128| ids@.contains(id) <==> self@.contains_key(id),
    {
        key_list(&self.sources)
    }

    /// Moves every volume's current value to what one call of `advance`
    /// makes of that volume; targets and steps stay, and no source comes or
    /// goes.
    pub fn tick_sources<F: Fn(SmoothNum) -> u32>(&mut self, advance: F)
        requires
            forall|n: SmoothNum| #[trigger] advance.requires((n,)),
        ensures
            final(self)@.dom() == old(self)@.dom(),
            forall|id: u128| #[trigger] old(self)@.contains_key(id) ==> {
                &&& advance.ensures((old(self)@[id],), final(self)@[id].current)
                &&& final(self)@[id].target == old(self)@[id].target
                &&& final(self)@[id].step == old(self)@[id].step
            },
            final(self).receiver() == old(self).receiver(),
            final(self).taken() == old(self).taken(),
            final(self).rounds() == old(self).rounds(),
    {
        let advance = &advance;
        let step = |n: SmoothNum| -> (r: SmoothNum)
            requires
                advance.requires((n,)),
            ensures
                advance.ensures((n,), r.current),
                r.target == n.target,
                r.step == n.step,
        {
            n.with_current(advance(n))
        };
        update_each(&mut self.sources, step);
    }

    /// The sources whose current volume is not zero, each once, with that volume.
    #[verifier::spinoff_prover]
    pub fn audible_sources(&self) -> (r: Vec<(u128, u32)>)
        ensures
            forall|k: int| 0 <= k < r.len() ==> {
                &&& self@.contains_key(#[trigger] r@[k].0)
                &&& r@[k].1 == self@[r@[k].0].current
                &&& !is_silent(r@[k].1)
            },
            forall|id: u128| #[trigger] self@.contains_key(id) && !is_silent(self@[id].current)
                ==> exists|k: int| 0 <= k < r.len() && r@[k].0 == id,
            forall|a: int, b: int| 0 <= a < b < r.len() ==> r@[a].0 != r@[b].0,
    {
        let ids = self.source_ids();
        let mut r: Vec<(u128, u32)> = Vec::new();
        let mut i: usize = 0;
        while i < ids.len()
            invariant
                i <= ids.len(),
                ids@.no_duplicates(),
                forall|id: u128| ids@.contains(id) <==> self@.contains_key(id),
                forall|k: int| 0 <= k < r.len() ==> {
                    &&& self@.contains_key(#[trigger] r@[k].0)
                    &&& r@[k].1 == self@[r@[k].0].current
                    &&& !is_silent(r@[k].1)
                    &&& exists|j: int| 0 <= j < i && ids@[j] == r@[k].0
                },
                forall|j: int| 0 <= j < i && !is_silent(self@[#[trigger] ids@[j]].current)
                    ==> exists|k: int| 0 <= k < r.len() && r@[k].0 == ids@[j],
                forall|a: int, b: int| 0 <= a < b < r.len() ==> r@[a].0 != r@[b].0,
            decreases ids.len() - i,
        {
            let id = ids[i];
            assert(ids@.contains(id));
            let volume = self.sources.get(&id).unwrap().current;
            assert(self@.contains_key(id) && volume == self@[id].current);
            let ghost before = r@;
            if !(volume == 0 || volume == 0x8000_0000) {
                assert forall|k: int| 0 <= k < r.len() implies r@[k].0 != id by {
                    let j = choose|j: int| 0 <= j < i && ids@[j] == r@[k].0;
                    assert(ids@[j] != ids@[i as int]);
                }
                r.push((id, volume));
                assert(r@[r.len() - 1].0 == ids@[i as int]);
                assert(r@[r.len() - 1] == (id, volume));
            }
            assert forall|k: int| 0 <= k < r.len() implies exists|j: int| 0 <= j < i + 1 && ids@[j] == #[trigger] r@[k].0 by {
                if k < before.len() {
                    let j = choose|j: int| 0 <= j < i && ids@[j] == before[k].0;
                    assert(r@[k] == before[k]);
                    assert(ids@[j] == r@[k].0);
                } else {
                    assert(ids@[i as int] == r@[k].0);
                }
            }
            assert forall|j: int| 0 <= j < i + 1 && !is_silent(self@[#[trigger] ids@[j]].current)
                implies exists|k: int| 0 <= k < r.len() && r@[k].0 == ids@[j] by {
                if j < i {
                    let k = choose|k: int| 0 <= k < before.len() && before[k].0 == ids@[j];
                    assert(r@[k] == before[k]);
                } else {
                    assert(r@[r.len() - 1].0 == ids@[j]);
                }
            }
            i += 1;
        }
        assert forall|id: u128| #[trigger] self@.contains_key(id) && !is_silent(self@[id].current)
            implies exists|k: int| 0 <= k < r.len() && r@[k].0 == id by {
            assert(ids@.contains(id));
            let j = ids@.index_of(id);
            assert(ids@[j] == id);
        }
        r
    }
}

/// The bit patterns of +0.0 and -0.0: the volumes that compare equal to zero.
pub open spec fn is_silent(volume: u32) -> bool {
    volume == 0 || volume == 0x8000_0000
}

/// A volume is silent exactly when it is a floating-point zero of either
/// sign: all its exponent and fraction bits are clear. Every other volume,
/// however small or large (1.0 among them), is heard.
pub proof fn lemma_silent_is_float_zero(volume: u32)
    ensures
        is_silent(volume) <==> (volume & 0x7fff_ffff) == 0,
{
    assert((volume == 0 || volume == 0x8000_0000) <==> (volume & 0x7fff_ffff) == 0) by (bit_vector);
}

/// The sources that `audible_sources` lists are exactly those whose
/// current volume is not a floating-point zero: a source at any other
/// volume is never dropped from the mix, and a silent one never listed.
pub proof fn lemma_audible_exactly_nonzero(sources: Map<u128, SmoothNum>, r: Seq<(u128, u32)>)
    requires
        forall|k: int| 0 <= k < r.len() ==> {
            &&& sources.contains_key(#[trigger] r[k].0)
            &&& r[k].1 == sources[r[k].0].current
            &&& !is_silent(r[k].1)
        },
        forall|id: u128| #[trigger] sources.contains_key(id) && !is_silent(sources[id].current)
            ==> exists|k: int| 0 <= k < r.len() && r[k].0 == id,
    ensures
        forall|id: u128| #[trigger] sources.contains_key(id) ==> (
            (exists|k: int| 0 <= k < r.len() && r[k].0 == id)
                <==> (sources[id].current & 0x7fff_ffff) != 0),
{
    assert forall|id: u128| #[trigger] sources.contains_key(id) implies (
        (exists|k: int| 0 <= k < r.len() && r[k].0 == id)
            <==> (sources[id].current & 0x7fff_ffff) != 0) by {
        lemma_silent_is_float_zero(sources[id].current);
        if exists|k: int| 0 <= k < r.len() && r[k].0 == id {
            let k = choose|k: int| 0 <= k < r.len() && r[k].0 == id;
            assert(!is_silent(r[k].1));
        }
    }
}

impl Message for MixerMessage {
    type State = Mixer;

    fn apply(self, state: &mut Mixer)
        ensures
            final(state)@ == mixer_step(old(state)@, self),
            final(state).receiver() == old(state).receiver(),
            final(state).taken() == old(state).taken(),
            final(state).rounds() == old(state).rounds(),
    {
        match self {
            MixerMessage::AddSource(id, volume) => {
                state.sources.insert(id, SmoothNum::new(volume, VOLUME_STEP));
            },
            MixerMessage::RemoveSource(id) => {
                state.sources.remove(&id);
            },
            MixerMessage::SetVolume(id, volume) => {
                match state.sources.get(&id) {
                    Some(source) => {
                        let mut source = *source;
                        source.set(volume);
                        state.sources.insert(id, source);
                    },
                    None => {},
                }
            },
        }
    }
}

impl MessageReceiver for Mixer {
    /// The same channel, the messages waiting on it taken off in one round,
    /// and the sources after every one of those messages, applied in the
    /// order taken.
    open spec fn took_in(before: &Mixer, after: &Mixer) -> bool {
        &&& after.receiver() == before.receiver()
        &&& after.rounds() == before.rounds() + 1
        &&& before.taken().is_prefix_of(after.taken())
        &&& after@ == mixer_run(before@, after.taken().skip(before.taken().len() as int))
    }

    fn recv(&mut self) {
        let pending = take_pending(&mut self.recv);
        let ghost msgs = pending@;
        self.apply_all(pending);
        assert(self.taken().skip(old(self).taken().len() as int) =~= msgs);
        assert(old(self).taken() =~= self.taken().subrange(0, old(self).taken().len() as int));
    }
}

/// A source added by a message of a batch, and not removed by any later
/// message of that batch, is mixed after the batch, whatever came before.
pub proof fn lemma_added_source_stays(
    sources: Map<u128, SmoothNum>,
    msgs: Seq<MixerMessage>,
    k: int,
    id: u128,
    volume: u32,
)
    requires
        0 <= k < msgs.len(),
        msgs[k] == MixerMessage::AddSource(id, volume),
        forall|j: int| k < j < msgs.len() ==> msgs[j] != MixerMessage::RemoveSource(id),
    ensures
        mixer_run(sources, msgs).contains_key(id),
    decreases msgs.len(),
{
    if k < msgs.len() - 1 {
        let rest = msgs.drop_last();
        assert forall|j: int| k < j < rest.len() implies rest[j] != MixerMessage::RemoveSource(id) by {
            assert(rest[j] == msgs[j]);
        }
        lemma_added_source_stays(sources, rest, k, id, volume);
        assert(msgs.last() == msgs[msgs.len() - 1]);
    }
}

/// A source removed by a message of a batch, and not added again by any
/// later message of that batch, is not mixed after the batch.
pub proof fn lemma_removed_source_gone(sources: Map<u128, SmoothNum>, msgs: Seq<MixerMessage>, k: int, id: u128)
    requires
        0 <= k < msgs.len(),
        msgs[k] == MixerMessage::RemoveSource(id),
        forall|j: int, v: u32| k < j < msgs.len() ==> msgs[j] != MixerMessage::AddSource(id, v),
    ensures
        !mixer_run(sources, msgs).contains_key(id),
    decreases msgs.len(),
{
    if k < msgs.len() - 1 {
        let rest = msgs.drop_last();
        assert forall|j: int, v: u32| k < j < rest.len() implies rest[j] != MixerMessage::AddSource(id, v) by {
            assert(rest[j] == msgs[j]);
        }
        lemma_removed_source_gone(sources, rest, k, id);
        let last = msgs[msgs.len() - 1];
        assert(msgs.last() == last);
        if let MixerMessage::AddSource(i, v) = last {
            assert(last != MixerMessage::AddSource(id, v));
        }
    }
}

/// A source that no message of a batch names keeps its volume, untouched.
pub proof fn lemma_unnamed_source_kept(sources: Map<u128, SmoothNum>, msgs: Seq<MixerMessage>, id: u128)
    requires
        forall|j: int| 0 <= j < msgs.len() ==> names(#[trigger] msgs[j]) != id,
    ensures
        mixer_run(sources, msgs).contains_key(id) == sources.contains_key(id),
        sources.contains_key(id) ==> mixer_run(sources, msgs)[id] == sources[id],
    decreases msgs.len(),
{
    if msgs.len() > 0 {
        let rest = msgs.drop_last();
        assert forall|j: int| 0 <= j < rest.len() implies names(#[trigger] rest[j]) != id by {
            assert(rest[j] == msgs[j]);
        }
        lemma_unnamed_source_kept(sources, rest, id);
        assert(names(msgs[msgs.len() - 1]) != id);
    }
}

/// The sampler a mixer message is about.
pub open spec fn names(msg: MixerMessage) -> u128 {
    match msg {
        MixerMessage::AddSource(id, _) => id,
        MixerMessage::RemoveSource(id) => id,
        MixerMessage::SetVolume(id, _) => id,
    }
}

/// Taking in messages loses none of them: after `recv`, every source that
/// a message taken in this call added, and no later message taken removed,
/// is mixed; every source such a message removed, and none later added
/// again, is not; and a source no message taken names is as it was.
pub proof fn lemma_recv_applies_every_message_taken(before: Mixer, after: Mixer, id: u128)
    requires
        Mixer::took_in(&before, &after),
    ensures
        forall|k: int, volume: u32|
            before.taken().len() <= k < after.taken().len()
            && after.taken()[k] == MixerMessage::AddSource(id, volume)
            && (forall|j: int| k < j < after.taken().len() ==> after.taken()[j] != MixerMessage::RemoveSource(id))
            ==> after@.contains_key(id),
        forall|k: int|
            before.taken().len() <= k < after.taken().len()
            && after.taken()[k] == MixerMessage::RemoveSource(id)
            && (forall|j: int, v: u32| k < j < after.taken().len() ==> after.taken()[j] != MixerMessage::AddSource(id, v))
            ==> !after@.contains_key(id),
        (forall|k: int| before.taken().len() <= k < after.taken().len() ==> names(#[trigger] after.taken()[k]) != id)
            ==> after@.contains_key(id) == before@.contains_key(id)
                && (before@.contains_key(id) ==> after@[id] == before@[id]),
{
    let n = before.taken().len() as int;
    let d = after.taken().skip(n);
    assert forall|k: int, volume: u32|
        n <= k < after.taken().len()
        && after.taken()[k] == MixerMessage::AddSource(id, volume)
        && (forall|j: int| k < j < after.taken().len() ==> after.taken()[j] != MixerMessage::RemoveSource(id))
        implies after@.contains_key(id) by {
        assert(d[k - n] == after.taken()[k]);
        assert forall|j: int| k - n < j < d.len() implies d[j] != MixerMessage::RemoveSource(id) by {
            assert(d[j] == after.taken()[j + n]);
        }
        lemma_added_source_stays(before@, d, k - n, id, volume);
    }
    assert forall|k: int|
        n <= k < after.taken().len()
        && after.taken()[k] == MixerMessage::RemoveSource(id)
        && (forall|j: int, v: u32| k < j < after.taken().len() ==> after.taken()[j] != MixerMessage::AddSource(id, v))
        implies !after@.contains_key(id) by {
        assert(d[k - n] == after.taken()[k]);
        assert forall|j: int, v: u32| k - n < j < d.len() implies d[j] != MixerMessage::AddSource(id, v) by {
            assert(d[j] == after.taken()[j + n]);
        }
        lemma_removed_source_gone(before@, d, k - n, id);
    }
    if forall|k: int| n <= k < after.taken().len() ==> names(#[trigger] after.taken()[k]) != id {
        assert forall|j: int| 0 <= j < d.len() implies names(#[trigger] d[j]) != id by {
            assert(d[j] == after.taken()[j + n]);
        }
        lemma_unnamed_source_kept(before@, d, id);
    }
}

} // verus!
