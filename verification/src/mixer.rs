//! A mixer that owns its samplers, each under a name and at a volume.

use vstd::prelude::*;

verus! {

/// Bit pattern of 0.5, the volume a newly added sampler starts at.
pub const START_VOLUME: u32 = 0x3f00_0000;

/// A sampler in a mixer: its name, the sampler, and its volume (an
/// IEEE-754 binary32 bit pattern).
pub struct Input<S> {
    name: String,
    sample: S,
    volume: u32,
}

impl<S> Input<S> {
    /// The name of the input.
    pub closed spec fn name_view(&self) -> String {
        self.name
    }

    /// The sampler of the input.
    pub closed spec fn sampler_view(&self) -> S {
        self.sample
    }

    /// The volume of the input.
    pub closed spec fn volume_view(&self) -> u32 {
        self.volume
    }

    /// The name, to be read or changed in place.
    pub fn name(&mut self) -> (r: &mut String)
        ensures
            *r == old(self).name_view(),
            final(self).name_view() == *final(r),
            final(self).sampler_view() == old(self).sampler_view(),
            final(self).volume_view() == old(self).volume_view(),
    {
        &mut self.name
    }

    /// The sampler, to be used or changed in place.
    pub fn sampler(&mut self) -> (r: &mut S)
        ensures
            *r == old(self).sampler_view(),
            final(self).sampler_view() == *final(r),
            final(self).name_view() == old(self).name_view(),
            final(self).volume_view() == old(self).volume_view(),
    {
        &mut self.sample
    }

    /// The volume, to be read or changed in place.
    pub fn volume(&mut self) -> (r: &mut u32)
        ensures
            *r == old(self).volume_view(),
            final(self).volume_view() == *final(r),
            final(self).name_view() == old(self).name_view(),
            final(self).sampler_view() == old(self).sampler_view(),
    {
        &mut self.volume
    }
}

/// Samplers mixed at their own volumes.
pub struct Mixer<S> {
    sources: Vec<Input<S>>,
}

impl<S> Mixer<S> {
    /// The inputs, in the order they were added.
    pub closed spec fn inputs(&self) -> Seq<Input<S>> {
        self.sources@
    }

    /// The inputs, to be read or changed in place.
    pub fn sources(&mut self) -> (r: &mut Vec<Input<S>>)
        ensures
            r@ == old(self).inputs(),
            final(self).inputs() == final(r)@,
    {
        &mut self.sources
    }

    /// Adds a sampler under `name` at the starting volume, after the others.
    pub fn add(&mut self, name: String, sample: S)
        ensures
            final(self).inputs().len() == old(self).inputs().len() + 1,
            final(self).inputs().drop_last() == old(self).inputs(),
            final(self).inputs().last().name_view() == name,
            final(self).inputs().last().sampler_view() == sample,
            final(self).inputs().last().volume_view() == START_VOLUME,
    {
        self.sources.push(Input { name, sample, volume: START_VOLUME });
    }
}

impl<S> Default for Mixer<S> {
    /// A mixer with no inputs.
    fn default() -> (m: Self)
        ensures
            m.inputs().len() == 0,
    {
        Mixer { sources: Vec::new() }
    }
}

} // verus!
