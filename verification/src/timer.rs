//! Cooldown timers: an accumulator held against a threshold.

use vstd::prelude::*;

verus! {

/// The view of a [`Cooldown`]: accumulated time and threshold, in microseconds.
pub struct CooldownView {
    pub elapsed: nat,
    pub threshold: nat,
}

impl CooldownView {
    /// After `dt` more microseconds the accumulated time has reached the threshold.
    pub open spec fn fires(self, dt: nat) -> bool {
        self.elapsed + dt >= self.threshold
    }

    /// The timer after `dt` more microseconds: back at zero if it fired, else further along.
    pub open spec fn advanced(self, dt: nat) -> CooldownView {
        if self.fires(dt) {
            CooldownView { elapsed: 0, threshold: self.threshold }
        } else {
            CooldownView { elapsed: self.elapsed + dt, threshold: self.threshold }
        }
    }
}

/// A cooldown timer. It fires when the accumulated time reaches the threshold,
/// and starts again from zero when it has fired.
#[derive(Clone, Copy, Debug, PartialEq, Eq)]
pub struct Cooldown {
    pub elapsed: u64,
    pub threshold: u64,
}

impl View for Cooldown {
    type V = CooldownView;

    open spec fn view(&self) -> CooldownView {
        CooldownView { elapsed: self.elapsed as nat, threshold: self.threshold as nat }
    }
}

impl Cooldown {
    /// A timer at zero with the given threshold.
    pub fn new(threshold: u64) -> (timer: Cooldown)
        ensures
            timer@ == (CooldownView { elapsed: 0, threshold: threshold as nat }),
    {
        Cooldown { elapsed: 0, threshold }
    }

    /// Lets `dt` microseconds pass and says whether the timer fired.
    pub fn advance(&mut self, dt: u32) -> (fired: bool)
        ensures
            fired == old(self)@.fires(dt as nat),
            final(self)@ == old(self)@.advanced(dt as nat),
    {
        if self.elapsed >= self.threshold || dt as u64 >= self.threshold - self.elapsed {
            self.elapsed = 0;
            true
        } else {
            self.elapsed = self.elapsed + dt as u64;
            false
        }
    }
}

} // verus!
