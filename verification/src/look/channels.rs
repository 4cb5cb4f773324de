use vstd::prelude::*;

use crate::look::mixer::{discovered, MixerWindow};
use crate::look::wrapped_network::WrappedNetwork;
use crate::sampler::mixer::{Mixer, MixerMessage};
use crate::smooth::SmoothNum;
use crate::text::{decimal, has_infix, lemma_prefix_is_infix, numbered};

verus! {

/// The name of output channel `i`: "Channel", a space, and its number.
pub open spec fn channel_name(i: nat) -> Seq<char> {
    "Channel"@ + " "@ + decimal(i)
}

/// No mixer window takes on an output channel's mixer as a source: a
/// sampler named as a channel is never added by discovery.
pub proof fn lemma_channel_never_source(
    own: u128,
    sources: Map<u128, u32>,
    names: Map<u128, String>,
    id: u128,
    i: nat,
)
    requires
        names.contains_key(id),
        names[id]@ == channel_name(i),
        !sources.contains_key(id),
    ensures
        !discovered(own, sources, names).contains_key(id),
{
    lemma_prefix_is_infix("Channel"@, " "@ + decimal(i));
    assert("Channel"@ + " "@ + decimal(i) =~= "Channel"@ + (" "@ + decimal(i)));
}

impl<S> WrappedNetwork<S> {
    /// Sets up one mixer per output channel: for channel `i`, a fresh mixer
    /// and its window, the mixer queued (as `wrap` makes it a sampler)
    /// under the window's id and the name `channel_name(i)`, in channel
    /// order. Returns the channels' ids and windows, in the same order.
    pub fn add_channel_mixers<F: Fn(Mixer) -> S>(&mut self, count: usize, wrap: F) -> (r: (Vec<u128>, Vec<MixerWindow>))
        requires
            forall|m: Mixer| #[trigger] wrap.requires((m,)),
        ensures
            r.0@.len() == count,
            r.1@.len() == count,
            forall|i: int| 0 <= i < count ==> {
                &&& (#[trigger] r.1@[i])@.id == r.0@[i]
                &&& r.1@[i]@.sources == Map::<u128, u32>::empty()
                &&& r.1@[i]@.attempted == Seq::<MixerMessage>::empty()
                &&& r.1@[i]@.sent == Seq::<MixerMessage>::empty()
            },
            final(self)@ == old(self)@,
            final(self).delegate() == old(self).delegate(),
            final(self).queued().len() == old(self).queued().len() + count,
            final(self).queued().take(old(self).queued().len() as int) == old(self).queued(),
            forall|i: int| 0 <= i < count ==> {
                let q = #[trigger] final(self).queued()[old(self).queued().len() + i];
                &&& q.0 == r.0@[i]
                &&& q.1@ == channel_name(i as nat)
                &&& exists|m: Mixer| {
                    &&& m@ == Map::<u128, SmoothNum>::empty()
                    &&& m.receiver() == r.1@[i].destination()
                    &&& #[trigger] wrap.ensures((m,), q.2)
                }
            },
    {
        let ghost start = self.queued();
        let mut ids: Vec<u128> = Vec::new();
        let mut windows: Vec<MixerWindow> = Vec::new();
        let mut i: usize = 0;
        while i < count
            invariant
                i <= count,
                forall|m: Mixer| #[trigger] wrap.requires((m,)),
                ids@.len() == i,
                windows@.len() == i,
                forall|j: int| 0 <= j < i ==> {
                    &&& (#[trigger] windows@[j])@.id == ids@[j]
                    &&& windows@[j]@.sources == Map::<u128, u32>::empty()
                    &&& windows@[j]@.attempted == Seq::<MixerMessage>::empty()
                    &&& windows@[j]@.sent == Seq::<MixerMessage>::empty()
                },
                self@ == old(self)@,
                self.delegate() == old(self).delegate(),
                start == old(self).queued(),
                self.queued().len() == start.len() + i,
                self.queued().take(start.len() as int) == start,
                forall|j: int| 0 <= j < i ==> {
                    let q = #[trigger] self.queued()[start.len() + j];
                    &&& q.0 == ids@[j]
                    &&& q.1@ == channel_name(j as nat)
                    &&& exists|m: Mixer| {
                        &&& m@ == Map::<u128, SmoothNum>::empty()
                        &&& m.receiver() == windows@[j].destination()
                        &&& #[trigger] wrap.ensures((m,), q.2)
                    }
                },
            decreases count - i,
        {
            let (id, mixer, window) = MixerWindow::new();
            let ghost fresh = mixer;
            let sampler = wrap(mixer);
            let name = numbered("Channel", i);
            let ghost before = self.queued();
            let ghost name_view = name@;
            self.add_sampler(id, name, sampler);
            assert(self.queued()[start.len() + i as int].2 == sampler);
            assert(wrap.ensures((fresh,), sampler));
            assert(fresh.receiver() == window.destination());
            assert forall|j: int| 0 <= j < i + 1 implies {
                let q = #[trigger] self.queued()[start.len() + j];
                &&& q.0 == (if j < i { ids@[j] } else { id })
                &&& q.1@ == channel_name(j as nat)
                &&& exists|m: Mixer| {
                    &&& m@ == Map::<u128, SmoothNum>::empty()
                    &&& m.receiver() == (if j < i { windows@[j].destination() } else { window.destination() })
                    &&& #[trigger] wrap.ensures((m,), q.2)
                }
            } by {
                if j < i {
                    assert(self.queued()[start.len() + j] == before[start.len() + j]);
                } else {
                    assert(name_view == channel_name(i as nat));
                }
            }
            assert(self.queued().take(start.len() as int) =~= start) by {
                assert(before.take(start.len() as int) == start);
            }
            ids.push(id);
            windows.push(window);
            i += 1;
        }
        (ids, windows)
    }
}

} // verus!
