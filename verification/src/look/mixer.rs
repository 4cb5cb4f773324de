use std::collections::HashMap;

use crossbeam_channel::{Receiver, Sender};
use vstd::prelude::*;

use crate::channel::{ChannelError, Outbox};
use crate::id::{is_v4_id, new_sampler_id};
use crate::keyed::key_list;
use crate::look::wrapped_network::WrappedNetwork;
use crate::sampler::mixer::{Mixer, MixerMessage};
use crate::text::{contains_text, has_infix};

verus! {

broadcast use vstd::std_specs::hash::group_hash_axioms;

/// What a mixer window holds: the id of its mixer, the volume it shows for
/// each source (IEEE-754 binary32 bit patterns), every message it handed to
/// its mixer's channel, and those the channel took, in order.
pub struct MixerWindowState {
    pub id: u128,
    pub sources: Map<u128, u32>,
    pub attempted: Seq<MixerMessage>,
    pub sent: Seq<MixerMessage>,
}

/// `ids` names, once each, every source that `after` shows and `before`
/// did not.
pub open spec fn lists_new(ids: Seq<u128>, before: Map<u128, u32>, after: Map<u128, u32>) -> bool {
    &&& ids.no_duplicates()
    &&& forall|k: u128| ids.contains(k) <==> (after.contains_key(k) && !before.contains_key(k))
}

/// The message that adds each of `ids` to a mixer at volume zero, in order.
pub open spec fn add_messages(ids: Seq<u128>) -> Seq<MixerMessage> {
    ids.map_values(|id: u128| MixerMessage::AddSource(id, 0))
}

/// A named sampler that a mixer window takes on as a source: one that is
/// not the mixer itself, not yet a source, and not an output channel
/// (a name holding "Channel").
pub open spec fn takes_on(own: u128, sources: Map<u128, u32>, names: Map<u128, String>, id: u128) -> bool {
    &&& names.contains_key(id)
    &&& id != own
    &&& !sources.contains_key(id)
    &&& !has_infix(names[id]@, "Channel"@)
}

/// The sources of a mixer window once every named sampler has been looked
/// at: the ones it had, and at volume zero each one it takes on.
pub open spec fn discovered(own: u128, sources: Map<u128, u32>, names: Map<u128, String>) -> Map<u128, u32> {
    Map::new(
        |id: u128| sources.contains_key(id) || takes_on(own, sources, names, id),
        |id: u128| if sources.contains_key(id) { sources[id] } else { 0u32 },
    )
}

/// Looking at the same names a second time takes on nothing more.
pub proof fn lemma_discovery_idempotent(own: u128, sources: Map<u128, u32>, names: Map<u128, String>)
    ensures
        discovered(own, discovered(own, sources, names), names) == discovered(own, sources, names),
{
    assert(discovered(own, discovered(own, sources, names), names) =~= discovered(own, sources, names));
}

/// A mixer window never takes on its own mixer, nor an output channel, nor
/// an id without a name; the volumes it had stay as they were, and each
/// source taken on starts at zero.
pub proof fn lemma_discovery_bounds(own: u128, sources: Map<u128, u32>, names: Map<u128, String>, id: u128)
    ensures
        !sources.contains_key(id) && (id == own || !names.contains_key(id)
            || has_infix(names[id]@, "Channel"@)) ==> !discovered(own, sources, names).contains_key(id),
        sources.contains_key(id) ==> discovered(own, sources, names)[id] == sources[id],
        !sources.contains_key(id) && discovered(own, sources, names).contains_key(id)
            ==> discovered(own, sources, names)[id] == 0,
{
}

/// The state behind the window that sets the volumes of a mixer.
pub struct MixerWindow {
    send: Outbox<MixerMessage>,
    id: u128,
    sources: HashMap<u128, u32>,
}

impl View for MixerWindow {
    type V = MixerWindowState;

    closed spec fn view(&self) -> MixerWindowState {
        MixerWindowState {
            id: self.id,
            sources: self.sources@,
            attempted: self.send.attempted(),
            sent: self.send.delivered(),
        }
    }
}

impl MixerWindow {
    /// The sending end of the mixer's channel.
    pub closed spec fn sender(&self) -> Sender<MixerMessage> {
        self.send.end()
    }

    /// The receiving end that the window's messages go to.
    pub closed spec fn destination(&self) -> Receiver<MixerMessage> {
        self.send.destination()
    }

    /// A new random id, a mixer with no sources, and a window for it that shows
    /// none.
    pub fn new() -> (r: (u128, Mixer, Self))
        ensures
            r.2@.id == r.0,
            is_v4_id(r.0),
            r.2@.sources == Map::<u128, u32>::empty(),
            r.2@.attempted == Seq::<MixerMessage>::empty(),
            r.2@.sent == Seq::<MixerMessage>::empty(),
            r.2.destination() == r.1.receiver(),
            r.1@ == Map::<u128, crate::smooth::SmoothNum>::empty(),
    {
        let id = new_sampler_id();
        let (mixer, send) = Mixer::new();
        (id, mixer, MixerWindow { id, send, sources: HashMap::new() })
    }

    /// The id of the mixer.
    pub fn id(&self) -> (id: u128)
        ensures
            id == self@.id,
    {
        self.id
    }

    /// The ids of the sources shown, each once.
    pub fn source_ids(&self) -> (ids: Vec<u128>)
        ensures
            ids@.no_duplicates(),
            forall|id: u128| ids@.contains(id) <==> self@.sources.contains_key(id),
    {
        key_list(&self.sources)
    }

    /// The volume shown for a source, if it is one.
    pub fn volume_of(&self, id: u128) -> (r: Option<u32>)
        ensures
            r is Some <==> self@.sources.contains_key(id),
            r matches Some(v) ==> v == self@.sources[id],
    {
        match self.sources.get(&id) {
            Some(v) => Some(*v),
            None => None,
        }
    }

    /// Looks at every named sampler of the network and takes on, at volume
    /// zero, each one that `takes_on` admits, handing the mixer one
    /// `AddSource(id, 0)` for each, in the order they are taken on, and no
    /// other message. If the mixer's channel refuses a message, stops with
    /// that error: the refused source is shown but its message was not
    /// taken, and the sources after it are not looked at. Where there is
    /// nothing to take on, nothing changes, no message is sent, and it
    /// succeeds.
    pub fn discover_sources<S>(&mut self, network: &WrappedNetwork<S>) -> (r: Result<(), ChannelError>)
        ensures
            final(self)@.id == old(self)@.id,
            final(self).sender() == old(self).sender(),
            final(self).destination() == old(self).destination(),
            r is Ok ==> final(self)@.sources == discovered(old(self)@.id, old(self)@.sources, network@),
            r is Ok ==> exists|ids: Seq<u128>| {
                &&& #[trigger] lists_new(ids, old(self)@.sources, final(self)@.sources)
                &&& final(self)@.attempted == old(self)@.attempted + add_messages(ids)
                &&& final(self)@.sent == old(self)@.sent + add_messages(ids)
            },
            r is Err ==> exists|ids: Seq<u128>, refused: u128| {
                &&& #[trigger] lists_new(ids.push(refused), old(self)@.sources, final(self)@.sources)
                &&& final(self)@.attempted == old(self)@.attempted + add_messages(ids.push(refused))
                &&& final(self)@.sent == old(self)@.sent + add_messages(ids)
            },
            r matches Err(e) ==> e == ChannelError::Disconnected,
            discovered(old(self)@.id, old(self)@.sources, network@) == old(self)@.sources
                ==> r is Ok && final(self)@ == old(self)@,
            old(self)@.sources.submap_of(final(self)@.sources),
            final(self)@.sources.submap_of(discovered(old(self)@.id, old(self)@.sources, network@)),
    {
        let ids = network.sampler_ids();
        let ghost own = self.id;
        let ghost start = self.sources@;
        let ghost start_sent = self@.sent;
        let ghost start_tried = self@.attempted;
        let ghost names = network@;
        let ghost full = discovered(own, start, names);
        let ghost mut added: Seq<u128> = Seq::empty();
        let mut i: usize = 0;
        while i < ids.len()
            invariant
                i <= ids.len(),
                own == self.id,
                own == old(self)@.id,
                start == old(self)@.sources,
                start_sent == old(self)@.sent,
                start_tried == old(self)@.attempted,
                self.sender() == old(self).sender(),
                self.destination() == old(self).destination(),
                full == discovered(own, start, names),
                names == network@,
                ids@.no_duplicates(),
                forall|id: u128| ids@.contains(id) <==> names.contains_key(id),
                self.sources@ == Map::new(
                    |id: u128| start.contains_key(id) || (ids@.take(i as int).contains(id) && takes_on(own, start, names, id)),
                    |id: u128| if start.contains_key(id) { start[id] } else { 0u32 },
                ),
                lists_new(added, start, self.sources@),
                self@.sent == start_sent + add_messages(added),
                self@.attempted == start_tried + add_messages(added),
            decreases ids.len() - i,
        {
            let id = ids[i];
            assert(ids@.contains(id));
            assert(ids@.take(i + 1) == ids@.take(i as int).push(id));
            assert(!ids@.take(i as int).contains(id)) by {
                if ids@.take(i as int).contains(id) {
                    let j = ids@.take(i as int).index_of(id);
                    assert(ids@[j] == ids@[i as int]);
                }
            }
            let ghost seen = ids@.take(i as int);
            assert forall|k: u128| #[trigger] ids@.take(i + 1).contains(k) <==> (seen.contains(k) || k == id) by {
                if ids@.take(i + 1).contains(k) {
                    let j = ids@.take(i + 1).index_of(k);
                    if j < i {
                        assert(seen[j] == k);
                    }
                }
                if seen.contains(k) {
                    let j = seen.index_of(k);
                    assert(ids@.take(i + 1)[j] == k);
                }
                if k == id {
                    assert(ids@.take(i + 1)[i as int] == k);
                }
            }
            let name = network.name_of(id).unwrap();
            if id != self.id && !self.sources.contains_key(&id) && !contains_text(name.as_str(), "Channel") {
                assert(!start.contains_key(id));
                assert(takes_on(own, start, names, id));
                assert(!added.contains(id));
                self.sources.insert(id, 0);
                let ghost sent_before = self@.sent;
                let sent = self.send.send(MixerMessage::AddSource(id, 0));
                i += 1;
                assert(self.sources@ =~= Map::new(
                    |id: u128| start.contains_key(id) || (ids@.take(i as int).contains(id) && takes_on(own, start, names, id)),
                    |id: u128| if start.contains_key(id) { start[id] } else { 0u32 },
                ));
                assert forall|k: u128| #[trigger] added.push(id).contains(k)
                    <==> (self.sources@.contains_key(k) && !start.contains_key(k)) by {
                    if added.push(id).contains(k) && k != id {
                        let j = added.push(id).index_of(k);
                        assert(added[j] == k);
                    }
                    if added.contains(k) {
                        let j = added.index_of(k);
                        assert(added.push(id)[j] == k);
                    }
                    if k == id {
                        assert(added.push(id)[added.len() as int] == k);
                    }
                }
                assert(lists_new(added.push(id), start, self.sources@));
                assert(add_messages(added.push(id)) =~= add_messages(added).push(MixerMessage::AddSource(id, 0)));
                assert(start_sent + add_messages(added.push(id)) =~= (start_sent + add_messages(added)).push(MixerMessage::AddSource(id, 0)));
                assert(start_tried + add_messages(added.push(id)) =~= (start_tried + add_messages(added)).push(MixerMessage::AddSource(id, 0)));
                if sent.is_err() {
                    assert forall|k: u128| #[trigger] self.sources@.contains_key(k)
                        implies full.contains_key(k) && self.sources@[k] == full[k] by {}
                    assert(self.sources@.submap_of(full));
                    assert(start.submap_of(self.sources@));
                    assert(self@.sent == start_sent + add_messages(added));
                    assert(lists_new(added.push(id), old(self)@.sources, self@.sources));
                    return sent;
                }
                proof {
                    added = added.push(id);
                }
            } else {
                i += 1;
                assert(self.sources@ =~= Map::new(
                    |id: u128| start.contains_key(id) || (ids@.take(i as int).contains(id) && takes_on(own, start, names, id)),
                    |id: u128| if start.contains_key(id) { start[id] } else { 0u32 },
                ));
            }
        }
        assert(ids@.take(ids.len() as int) == ids@);
        assert(self.sources@ =~= full);
        assert(lists_new(added, old(self)@.sources, self@.sources));
        proof {
            if full == start {
                if added.len() > 0 {
                    assert(added.contains(added[0]));
                }
                assert(added =~= Seq::<u128>::empty());
                assert(self@.sent =~= start_sent);
                assert(self@.attempted =~= start_tried);
            }
        }
        Ok(())
    }

    /// Shows a new volume for a source and hands the mixer
    /// `SetVolume(id, volume)`. The error says that every receiving end of
    /// the mixer's channel is gone, and the message was then not taken; the
    /// volume shown is changed either way.
    pub fn set_volume(&mut self, id: u128, volume: u32) -> (r: Result<(), ChannelError>)
        ensures
            final(self)@.id == old(self)@.id,
            final(self).sender() == old(self).sender(),
            final(self).destination() == old(self).destination(),
            final(self)@.sources == old(self)@.sources.insert(id, volume),
            final(self)@.attempted == old(self)@.attempted.push(MixerMessage::SetVolume(id, volume)),
            r is Ok ==> final(self)@.sent == old(self)@.sent.push(MixerMessage::SetVolume(id, volume)),
            r is Err ==> final(self)@.sent == old(self)@.sent,
            r matches Err(e) ==> e == ChannelError::Disconnected,
    {
        self.sources.insert(id, volume);
        self.send.try_send(MixerMessage::SetVolume(id, volume))
    }
}

} // verus!
