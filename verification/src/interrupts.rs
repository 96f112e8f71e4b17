//! The interrupt counters: timer ticks, the fallback clock that polling
//! keeps when no timer interrupt ever arrives, and a count per device.
use vstd::prelude::*;

verus! {

/// How many polls make one fallback tick.
pub const FALLBACK_SPINS_PER_TICK: u64 = 0x1000;

/// A snapshot of the interrupt counters.
#[derive(Clone, Copy, Debug, PartialEq, Eq, Structural)]
pub struct InterruptStats {
    pub ticks: u64,
    pub keyboard_irqs: u64,
    pub mouse_irqs: u64,
    pub network_irqs: u64,
}

/// The counters the interrupt handlers and the polling loops advance.
/// Each wraps around at 64 bits, as an atomic increment does.
pub struct InterruptCounters {
    pub hardware_ticks: u64,
    pub fallback_ticks: u64,
    pub fallback_spins: u64,
    pub keyboard_irqs: u64,
    pub mouse_irqs: u64,
    pub network_irqs: u64,
}

/// One more, wrapping at 64 bits.
pub open spec fn bump(v: u64) -> u64 {
    if v == u64::MAX { 0 } else { (v + 1) as u64 }
}

/// The clock: the timer's ticks once one has arrived, else the fallback.
pub open spec fn spec_ticks(c: InterruptCounters) -> u64 {
    if c.hardware_ticks > 0 { c.hardware_ticks } else { c.fallback_ticks }
}

impl InterruptCounters {
    pub fn new() -> (r: Self)
        ensures
            r.hardware_ticks == 0 && r.fallback_ticks == 0 && r.fallback_spins == 0,
            r.keyboard_irqs == 0 && r.mouse_irqs == 0 && r.network_irqs == 0,
    {
        InterruptCounters {
            hardware_ticks: 0,
            fallback_ticks: 0,
            fallback_spins: 0,
            keyboard_irqs: 0,
            mouse_irqs: 0,
            network_irqs: 0,
        }
    }

    pub fn ticks(&self) -> (r: u64)
        ensures
            r == spec_ticks(*self),
    {
        if self.hardware_ticks > 0 {
            self.hardware_ticks
        } else {
            self.fallback_ticks
        }
    }

    /// One poll of a waiting loop: while no timer interrupt has arrived,
    /// every `FALLBACK_SPINS_PER_TICK`-th poll advances the fallback clock.
    /// Returns the clock afterwards.
    pub fn poll_fallback_tick(&mut self) -> (r: u64)
        ensures
            old(self).hardware_ticks == 0 ==> {
                &&& final(self).fallback_spins == bump(old(self).fallback_spins)
                &&& final(self).fallback_ticks == if final(self).fallback_spins % FALLBACK_SPINS_PER_TICK == 0 {
                    bump(old(self).fallback_ticks)
                } else {
                    old(self).fallback_ticks
                }
            },
            old(self).hardware_ticks != 0 ==> final(self).fallback_spins == old(self).fallback_spins
                && final(self).fallback_ticks == old(self).fallback_ticks,
            final(self).hardware_ticks == old(self).hardware_ticks,
            final(self).keyboard_irqs == old(self).keyboard_irqs,
            final(self).mouse_irqs == old(self).mouse_irqs,
            final(self).network_irqs == old(self).network_irqs,
            r == spec_ticks(*final(self)),
    {
        if self.hardware_ticks == 0 {
            let spins = self.fallback_spins.wrapping_add(1);
            self.fallback_spins = spins;
            let low: u64 = spins & 0x0fff;
            assert(low == spins % 0x1000) by (bit_vector)
                requires
                    low == spins & 0x0fff,
            ;
            if low == 0 {
                self.fallback_ticks = self.fallback_ticks.wrapping_add(1);
            }
        }
        self.ticks()
    }

    /// A timer interrupt.
    pub fn record_timer(&mut self)
        ensures
            final(self).hardware_ticks == bump(old(self).hardware_ticks),
            final(self).fallback_ticks == old(self).fallback_ticks,
            final(self).fallback_spins == old(self).fallback_spins,
            final(self).keyboard_irqs == old(self).keyboard_irqs,
            final(self).mouse_irqs == old(self).mouse_irqs,
            final(self).network_irqs == old(self).network_irqs,
    {
        self.hardware_ticks = self.hardware_ticks.wrapping_add(1);
    }

    /// A keyboard interrupt.
    pub fn record_keyboard(&mut self)
        ensures
            final(self).keyboard_irqs == bump(old(self).keyboard_irqs),
            final(self).hardware_ticks == old(self).hardware_ticks,
            final(self).fallback_ticks == old(self).fallback_ticks,
            final(self).fallback_spins == old(self).fallback_spins,
            final(self).mouse_irqs == old(self).mouse_irqs,
            final(self).network_irqs == old(self).network_irqs,
    {
        self.keyboard_irqs = self.keyboard_irqs.wrapping_add(1);
    }

    /// A mouse interrupt.
    pub fn record_mouse(&mut self)
        ensures
            final(self).mouse_irqs == bump(old(self).mouse_irqs),
            final(self).hardware_ticks == old(self).hardware_ticks,
            final(self).fallback_ticks == old(self).fallback_ticks,
            final(self).fallback_spins == old(self).fallback_spins,
            final(self).keyboard_irqs == old(self).keyboard_irqs,
            final(self).network_irqs == old(self).network_irqs,
    {
        self.mouse_irqs = self.mouse_irqs.wrapping_add(1);
    }

    /// A network interrupt.
    pub fn record_network(&mut self)
        ensures
            final(self).network_irqs == bump(old(self).network_irqs),
            final(self).hardware_ticks == old(self).hardware_ticks,
            final(self).fallback_ticks == old(self).fallback_ticks,
            final(self).fallback_spins == old(self).fallback_spins,
            final(self).keyboard_irqs == old(self).keyboard_irqs,
            final(self).mouse_irqs == old(self).mouse_irqs,
    {
        self.network_irqs = self.network_irqs.wrapping_add(1);
    }

    pub fn stats(&self) -> (r: InterruptStats)
        ensures
            r == (InterruptStats {
                ticks: spec_ticks(*self),
                keyboard_irqs: self.keyboard_irqs,
                mouse_irqs: self.mouse_irqs,
                network_irqs: self.network_irqs,
            }),
    {
        InterruptStats {
            ticks: self.ticks(),
            keyboard_irqs: self.keyboard_irqs,
            mouse_irqs: self.mouse_irqs,
            network_irqs: self.network_irqs,
        }
    }
}

} // verus!
