//! Walking the entries of a map keyed by sampler id.

use std::collections::HashMap;

use vstd::prelude::*;
use vstd::std_specs::iter::IteratorSpec;

verus! {

broadcast use vstd::std_specs::hash::group_hash_axioms;

/// The keys of `m`, each once, in the order the map yields them.
pub fn key_list<V>(m: &HashMap<u128, V>) -> (ids: Vec<u128>)
    ensures
        ids@.no_duplicates(),
        forall|id: u128| ids@.contains(id) <==> m@.contains_key(id),
{
    let mut ids: Vec<u128> = Vec::new();
    let ghost keys = vstd::std_specs::hash::spec_keys_iter(m).remaining();
    for id in it: m.keys()
        invariant
            it.seq() == keys,
            keys.unref().to_set() == m@.dom(),
            keys.no_duplicates(),
            ids@ == keys.take(it.index()).unref(),
    {
        ids.push(*id);
        assert(keys.take(it.index() + 1).unref() == keys.take(it.index()).unref().push(*id));
    }
    assert(ids@ == keys.unref());
    assert forall|id: u128| ids@.contains(id) <==> m@.contains_key(id) by {
        assert(ids@.to_set().contains(id) <==> ids@.contains(id));
    }
    ids
}

/// Replaces every value of `m` by what one call of `f` makes of it; no key
/// comes or goes.
pub fn update_each<V, F: Fn(V) -> V>(m: &mut HashMap<u128, V>, f: F)
    requires
        forall|v: V| #[trigger] f.requires((v,)),
    ensures
        final(m)@.dom() == old(m)@.dom(),
        forall|id: u128| #[trigger]
            old(m)@.contains_key(id) ==> f.ensures((old(m)@[id],), final(m)@[id]),
{
    let ids = key_list(m);
    let ghost start = m@;
    let mut i: usize = 0;
    while i < ids.len()
        invariant
            i <= ids.len(),
            ids@.no_duplicates(),
            forall|id: u128| ids@.contains(id) <==> start.contains_key(id),
            forall|v: V| #[trigger] f.requires((v,)),
            m@.dom() == start.dom(),
            forall|j: int| 0 <= j < i ==> f.ensures((start[ids@[j]],), #[trigger] m@[ids@[j]]),
            forall|j: int| i <= j < ids.len() ==> #[trigger] m@[ids@[j]] == start[ids@[j]],
        decreases ids.len() - i,
    {
        let id = ids[i];
        assert(ids@.contains(id));
        let value = m.remove(&id).unwrap();
        let next = f(value);
        m.insert(id, next);
        assert forall|j: int| i < j < ids.len() implies #[trigger] m@[ids@[j]] == start[ids@[j]] by {
            assert(ids@[j] != ids@[i as int]);
        }
        assert forall|j: int| 0 <= j < i implies f.ensures((start[ids@[j]],), #[trigger] m@[ids@[j]]) by {
            assert(ids@[j] != ids@[i as int]);
        }
        assert(m@.dom() =~= start.dom());
        i += 1;
    }
    assert forall|id: u128| #[trigger] start.contains_key(id) implies f.ensures((start[id],), m@[id]) by {
        assert(ids@.contains(id));
        let j = ids@.index_of(id);
        assert(ids@[j] == id);
    }
}

} // verus!
