use synclock::timers::TickDivider;
use synclock::triggers::{Triggers, PULSE_WIDTH_TICKS, TRIGGER1_MASK, TRIGGER3_MASK, TRIGGER4_MASK};

#[test]
fn pulse_ends_after_width() {
    let mut t = Triggers::new();
    assert_eq!(t.started(), 0);
    t.fire(TRIGGER1_MASK);
    assert_eq!(t.started(), TRIGGER1_MASK);
    for _ in 0..PULSE_WIDTH_TICKS - 1 {
        assert_eq!(t.on_timer_tick(), 0);
        assert_eq!(t.started(), TRIGGER1_MASK);
    }
    assert_eq!(t.on_timer_tick(), TRIGGER1_MASK);
    assert_eq!(t.started(), 0);
    assert_eq!(t.on_timer_tick(), 0);
}

#[test]
fn refire_restarts_window() {
    let mut t = Triggers::new();
    t.fire(TRIGGER1_MASK);
    for _ in 0..3 {
        assert_eq!(t.on_timer_tick(), 0);
    }
    t.fire(TRIGGER1_MASK | TRIGGER3_MASK);
    for _ in 0..4 {
        assert_eq!(t.on_timer_tick(), 0);
        assert_eq!(t.started(), TRIGGER1_MASK | TRIGGER3_MASK);
    }
    assert_eq!(t.on_timer_tick(), TRIGGER1_MASK | TRIGGER3_MASK);
}

#[test]
fn channels_end_independently() {
    let mut t = Triggers::new();
    t.fire(TRIGGER1_MASK);
    t.on_timer_tick();
    t.on_timer_tick();
    t.fire(TRIGGER4_MASK | 0xF0);
    assert_eq!(t.started(), TRIGGER1_MASK | TRIGGER4_MASK);
    let ended: Vec<u8> = (0..6).map(|_| t.on_timer_tick()).collect();
    assert_eq!(ended, vec![0, 0, TRIGGER1_MASK, 0, TRIGGER4_MASK, 0]);
}

#[test]
fn divider_fires_every_limit_plus_one() {
    let mut d = TickDivider::new(2);
    let fired: Vec<bool> = (0..7).map(|_| d.tick()).collect();
    assert_eq!(fired, vec![false, false, true, false, false, true, false]);
    let mut zero = TickDivider::new(0);
    assert!(zero.tick() && zero.tick());
    d.set_limit(0);
    assert!(d.tick());
}
