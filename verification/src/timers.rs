//! The delay and sound timers: two independent 8-bit down-counters that the
//! host ticks at 60 Hz, whatever the instruction rate.

use vstd::prelude::*;

verus! {

/// The value a counter holds after one tick: one less, stopping at zero.
pub open spec fn ticked(value: u8) -> u8 {
    if value > 0 {
        (value - 1) as u8
    } else {
        0
    }
}

/// The value a counter holds after `n` ticks.
pub open spec fn ticked_n(value: u8, n: nat) -> u8
    decreases n,
{
    if n == 0 {
        value
    } else {
        ticked(ticked_n(value, (n - 1) as nat))
    }
}

/// The pair of hardware timers.
#[derive(Clone, Copy, Debug, PartialEq, Eq, Structural)]
pub struct Timers {
    pub delay: u8,
    pub sound: u8,
}

impl Timers {
    /// Both timers at rest.
    pub fn new() -> (timers: Timers)
        ensures
            timers.delay == 0,
            timers.sound == 0,
    {
        Timers { delay: 0, sound: 0 }
    }

    /// The timers after one 60 Hz tick.
    pub open spec fn tick_spec(self) -> Timers {
        Timers { delay: ticked(self.delay), sound: ticked(self.sound) }
    }

    /// Advances both timers by one 60 Hz tick.
    pub fn tick(&mut self)
        ensures
            *final(self) == old(self).tick_spec(),
    {
        if self.delay > 0 {
            self.delay = self.delay - 1;
        }
        if self.sound > 0 {
            self.sound = self.sound - 1;
        }
    }

    /// Whether the host should be sounding the tone.
    pub fn tone_active(&self) -> (active: bool)
        ensures
            active == (self.sound > 0),
    {
        self.sound > 0
    }
}

/// A counter that has been ticked `n` times holds what is left of its value,
/// and nothing once `n` reaches that value.
pub proof fn lemma_ticked_n(value: u8, n: nat)
    ensures
        ticked_n(value, n) == if n >= value { 0 } else { value - n },
    decreases n,
{
    if n > 0 {
        lemma_ticked_n(value, (n - 1) as nat);
    }
}

/// Starting from `value`, a counter reads zero after `value` ticks and stays
/// at zero however many ticks follow.
pub proof fn lemma_timer_runs_down(value: u8, extra: nat)
    ensures
        ticked_n(value, value as nat) == 0,
        ticked_n(value, value as nat + extra) == 0,
{
    lemma_ticked_n(value, value as nat);
    lemma_ticked_n(value, value as nat + extra);
}

} // verus!
