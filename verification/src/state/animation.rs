//! The animation clock that drives animated edges.

use vstd::prelude::*;
use crate::state::Flow;

verus! {

/// The clock after advancing `clock` by `elapsed` milliseconds: the sum,
/// wrapping round at 2^64, folded back into one cycle of `cycle`
/// milliseconds once it reaches a full cycle.
pub open spec fn advanced_clock(clock: u64, elapsed: u64, cycle: int) -> int {
    let t = (clock + elapsed) % 0x1_0000_0000_0000_0000;
    if t >= cycle { t % cycle } else { t }
}

/// The length of one animation cycle: the pattern length times the speed
/// (at least 1 ms per step).
pub open spec fn cycle_ms(pattern_length: u64, speed_ms: u64) -> int {
    pattern_length * if speed_ms >= 1 { speed_ms as int } else { 1 }
}

impl<N, E> Flow<N, E> {
    /// The animation clock in milliseconds.
    pub fn animation_elapsed_ms(&self) -> (r: u64)
        ensures
            r == self.animation_clock(),
    {
        self.animation_elapsed_ms
    }

    /// Advances the animation clock by `elapsed_ms` milliseconds, keeping it
    /// within one cycle of `pattern_length` steps of the animation speed.
    pub fn tick_animation(&mut self, elapsed_ms: u64, pattern_length: u64)
        requires
            pattern_length > 0,
            cycle_ms(pattern_length, old(self).speed()) <= u64::MAX,
        ensures
            final(self).animation_clock() == advanced_clock(old(self).animation_clock(), elapsed_ms,
                cycle_ms(pattern_length, old(self).speed())),
            *final(self) == old(self).with_clock(final(self).animation_clock()),
            final(self).animation_clock() < cycle_ms(pattern_length, old(self).speed()),
    {
        let t = self.animation_elapsed_ms.wrapping_add(elapsed_ms);
        let speed = if self.animation_speed_ms >= 1 { self.animation_speed_ms } else { 1 };
        assert(pattern_length * speed >= 1) by (nonlinear_arith)
            requires pattern_length > 0, speed >= 1;
        let cycle = pattern_length * speed;
        self.animation_elapsed_ms = if t >= cycle { t % cycle } else { t };
    }
}

} // verus!
