use genos::interrupts::{InterruptCounters, InterruptStats, FALLBACK_SPINS_PER_TICK};

#[test]
fn fallback_clock_advances_every_spin_block() {
    let mut c = InterruptCounters::new();
    for _ in 0..FALLBACK_SPINS_PER_TICK - 1 {
        assert_eq!(c.poll_fallback_tick(), 0);
    }
    assert_eq!(c.poll_fallback_tick(), 1);
    assert_eq!(c.fallback_spins, FALLBACK_SPINS_PER_TICK);
}

#[test]
fn timer_ticks_replace_fallback_clock() {
    let mut c = InterruptCounters::new();
    c.fallback_ticks = 7;
    assert_eq!(c.ticks(), 7);
    c.record_timer();
    assert_eq!(c.ticks(), 1);
    let spins = c.fallback_spins;
    assert_eq!(c.poll_fallback_tick(), 1);
    assert_eq!(c.fallback_spins, spins);
}

#[test]
fn counters_wrap_at_64_bits() {
    let mut c = InterruptCounters::new();
    c.fallback_spins = u64::MAX;
    c.poll_fallback_tick();
    assert_eq!(c.fallback_spins, 0);
    assert_eq!(c.fallback_ticks, 1);
}

#[test]
fn stats_report_each_device() {
    let mut c = InterruptCounters::new();
    c.record_keyboard();
    c.record_keyboard();
    c.record_mouse();
    c.record_network();
    c.record_timer();
    assert_eq!(
        c.stats(),
        InterruptStats { ticks: 1, keyboard_irqs: 2, mouse_irqs: 1, network_irqs: 1 }
    );
}
