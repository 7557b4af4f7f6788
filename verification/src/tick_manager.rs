//! The clock of the engine: a count of ticks. The thread that makes it tick
//! belongs to the program around the library.

use vstd::prelude::*;

verus! {

/// The clock.
#[derive(Debug, PartialEq, Eq, Clone, Copy, Structural)]
pub struct TickManager {
    pub current_tick: u64,
    /// Whether a tick has come that the engine has not yet dealt with.
    pub ticked: bool,
    /// Whether the clock has been told to stop.
    pub stop_signal: bool,
}

impl TickManager {
    /// A clock at tick 0 that has not been told to stop.
    pub fn new() -> (r: Self)
        ensures
            r == (TickManager { current_tick: 0, ticked: false, stop_signal: false }),
    {
        TickManager { current_tick: 0, ticked: false, stop_signal: false }
    }

    /// One tick more.
    pub fn increment(&mut self)
        requires
            old(self).current_tick < u64::MAX,
        ensures
            *final(self) == (TickManager {
                current_tick: (old(self).current_tick + 1) as u64,
                ..*old(self)
            }),
    {
        self.current_tick += 1;
    }

    /// One tick of a running clock: one tick more, to be dealt with. A clock
    /// that has been told to stop takes note of it and does not tick.
    pub fn tick(&mut self) -> (ticking: bool)
        requires
            old(self).current_tick < u64::MAX,
        ensures
            ticking == !old(self).stop_signal,
            ticking ==> *final(self) == (TickManager {
                current_tick: (old(self).current_tick + 1) as u64,
                ticked: true,
                ..*old(self)
            }),
            !ticking ==> *final(self) == (TickManager { stop_signal: false, ..*old(self) }),
    {
        if self.stop_signal {
            self.stop_signal = false;
            false
        } else {
            self.current_tick += 1;
            self.ticked = true;
            true
        }
    }

    /// Whether the clock stands at `tick`.
    pub fn current_tick_equals(&self, tick: u64) -> (r: bool)
        ensures
            r == (self.current_tick == tick),
    {
        self.current_tick == tick
    }

    /// The tick at which the clock stands.
    pub fn get_current_tick(&self) -> (r: u64)
        ensures
            r == self.current_tick,
    {
        self.current_tick
    }

    /// Back to tick 0.
    pub fn reset(&mut self)
        ensures
            *final(self) == (TickManager { current_tick: 0, ..*old(self) }),
    {
        self.current_tick = 0;
    }

    /// Tells the clock to stop.
    pub fn stop(&mut self)
        ensures
            *final(self) == (TickManager { stop_signal: true, ..*old(self) }),
    {
        self.stop_signal = true;
    }
}

} // verus!
