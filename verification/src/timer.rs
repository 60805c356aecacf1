//! The countdown timers. A timer counts at 60 ticks a second, whatever the
//! rate at which instructions run, so it keeps the time that is left, not
//! the ticks: time is measured in units of 1/60000 of a second, of which a
//! tick has a thousand and a millisecond sixty. Small steps then add up
//! without loss.

use vstd::prelude::*;

verus! {

/// The number of time units in one timer tick, a sixtieth of a second.
pub const UNITS_PER_TICK: u32 = 1000;

/// The number of time units in one millisecond.
pub const UNITS_PER_MILLISECOND: u32 = 60;

/// The time left after `elapsed` units have passed, never below zero.
pub open spec fn time_left_after(left: nat, elapsed: nat) -> nat {
    if elapsed >= left {
        0
    } else {
        (left - elapsed) as nat
    }
}

/// Two steps in a row leave what one step of their sum leaves.
pub proof fn lemma_steps_add_up(left: nat, first: nat, second: nat)
    ensures
        time_left_after(time_left_after(left, first), second) == time_left_after(
            left,
            first + second,
        ),
{
}

/// A countdown timer.
#[derive(Debug)]
pub struct Timer {
    left: u32,
}

impl View for Timer {
    type V = nat;

    /// The time that is left, in units of 1/60000 of a second.
    closed spec fn view(&self) -> nat {
        self.left as nat
    }
}

impl Timer {
    /// The time left is at most 255 ticks.
    #[verifier::type_invariant]
    spec fn wf(&self) -> bool {
        self.left <= 255 * UNITS_PER_TICK
    }

    /// The ticks that the timer shows: the whole ticks in the time left.
    pub open spec fn ticks(&self) -> nat {
        self@ / (UNITS_PER_TICK as nat)
    }

    /// A timer with no time left.
    pub fn new() -> (r: Timer)
        ensures
            r@ == 0,
    {
        Timer { left: 0 }
    }

    /// Lets `elapsed` units of time pass. The time left does not go below
    /// zero.
    pub fn step(&mut self, elapsed: u32)
        ensures
            final(self)@ == time_left_after(old(self)@, elapsed as nat),
    {
        proof {
            use_type_invariant(&*self);
        }
        let left: u32 = if elapsed >= self.left {
            0
        } else {
            self.left - elapsed
        };
        self.left = left;
    }

    /// The ticks that are left, rounded down.
    pub fn get(&self) -> (ticks: u8)
        ensures
            ticks == self.ticks(),
            self@ <= 255 * UNITS_PER_TICK,
    {
        proof {
            use_type_invariant(self);
        }
        (self.left / UNITS_PER_TICK) as u8
    }

    /// Sets the time left to `ticks` whole ticks.
    pub fn set(&mut self, ticks: u8)
        ensures
            final(self)@ == ticks * UNITS_PER_TICK,
            final(self).ticks() == ticks,
    {
        self.left = ticks as u32 * UNITS_PER_TICK;
    }
}

} // verus!
