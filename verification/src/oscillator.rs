//! A free-running sine oscillator.

use vstd::prelude::*;

verus! {

/// A sine oscillator at a fixed frequency (an IEEE-754 binary32 bit
/// pattern, in hertz).
pub struct Oscillator {
    freq: u32,
}

impl Oscillator {
    /// The frequency.
    pub closed spec fn freq_view(&self) -> u32 {
        self.freq
    }

    /// An oscillator at `freq`.
    pub fn new(freq: u32) -> (o: Self)
        ensures
            o.freq_view() == freq,
    {
        Oscillator { freq }
    }

    /// The frequency.
    pub fn freq(&self) -> (f: u32)
        ensures
            f == self.freq_view(),
    {
        self.freq
    }
}

} // verus!
