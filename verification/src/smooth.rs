use vstd::prelude::*;

verus! {

/// A value that glides towards a target in steps of at most `step`.
///
/// All three numbers are IEEE-754 binary32 bit patterns.
#[derive(Clone, Copy, Debug, PartialEq, Eq)]
pub struct SmoothNum {
    /// The value reached so far.
    pub current: u32,
    /// The value that `current` moves towards.
    pub target: u32,
    /// The largest change of `current` in one tick.
    pub step: u32,
}

impl SmoothNum {
    /// A value at rest at `val`.
    pub fn new(val: u32, step: u32) -> (n: Self)
        ensures
            n.current == val,
            n.target == val,
            n.step == step,
    {
        SmoothNum { current: val, target: val, step }
    }

    /// Moves the target; the current value is left where it is.
    pub fn set(&mut self, new: u32)
        ensures
            final(self).target == new,
            final(self).current == old(self).current,
            final(self).step == old(self).step,
    {
        self.target = new;
    }

    /// The same value with its current value moved to `current`; the
    /// target and the step stay.
    pub fn with_current(self, current: u32) -> (n: Self)
        ensures
            n.current == current,
            n.target == self.target,
            n.step == self.step,
    {
        SmoothNum { current, ..self }
    }

    /// The value reached so far.
    pub fn get(&self) -> (v: u32)
        ensures
            v == self.current,
    {
        self.current
    }
}

} // verus!
