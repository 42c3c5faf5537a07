use synclock::buttons::{buttons_on_timer_tick, Buttons, BUTTON1_MASK, BUTTON2_MASK, DEBOUNCE_TIMER_TICKS};
use synclock::timers::TickDivider;

#[test]
fn fewer_than_four_samples_report_nothing() {
    let mut b = Buttons::new();
    for _ in 0..3 {
        b.sample(BUTTON1_MASK);
        assert_eq!(b.on_change(), None);
    }
}

#[test]
fn four_samples_report_exactly_once() {
    let mut b = Buttons::new();
    for _ in 0..4 {
        b.sample(BUTTON1_MASK);
    }
    assert_eq!(b.on_change(), Some((BUTTON1_MASK, BUTTON1_MASK)));
    assert_eq!(b.on_change(), None);
    for _ in 0..10 {
        b.sample(BUTTON1_MASK);
        assert_eq!(b.on_change(), None);
    }
}

#[test]
fn bounce_restarts_the_count() {
    let mut b = Buttons::new();
    b.sample(BUTTON1_MASK);
    b.sample(BUTTON1_MASK);
    b.sample(BUTTON1_MASK);
    b.sample(0);
    b.sample(BUTTON1_MASK);
    b.sample(BUTTON1_MASK);
    b.sample(BUTTON1_MASK);
    assert_eq!(b.on_change(), None);
    b.sample(BUTTON1_MASK);
    assert_eq!(b.on_change(), Some((BUTTON1_MASK, BUTTON1_MASK)));
}

#[test]
fn release_is_debounced_too() {
    let mut b = Buttons::new();
    for _ in 0..4 {
        b.sample(BUTTON2_MASK);
    }
    assert_eq!(b.on_change(), Some((BUTTON2_MASK, BUTTON2_MASK)));
    for _ in 0..3 {
        b.sample(0);
    }
    assert_eq!(b.on_change(), None);
    b.sample(0);
    assert_eq!(b.on_change(), Some((BUTTON2_MASK, 0)));
}

#[test]
fn buttons_settle_independently() {
    let mut b = Buttons::new();
    b.sample(BUTTON1_MASK);
    b.sample(BUTTON1_MASK | BUTTON2_MASK);
    b.sample(BUTTON1_MASK | BUTTON2_MASK);
    b.sample(BUTTON1_MASK | BUTTON2_MASK);
    assert_eq!(b.on_change(), Some((BUTTON1_MASK, BUTTON1_MASK | BUTTON2_MASK)));
    b.sample(BUTTON1_MASK | BUTTON2_MASK);
    assert_eq!(b.on_change(), Some((BUTTON2_MASK, BUTTON1_MASK | BUTTON2_MASK)));
}

#[test]
fn timer_samples_once_per_period() {
    let mut b = Buttons::new();
    let mut d = TickDivider::new(DEBOUNCE_TIMER_TICKS);
    let mut samples = 0;
    for _ in 0..(DEBOUNCE_TIMER_TICKS as usize + 1) * 4 - 1 {
        if buttons_on_timer_tick(&mut b, &mut d, BUTTON1_MASK) {
            samples += 1;
        }
    }
    assert_eq!(samples, 3);
    assert_eq!(b.on_change(), None);
    assert!(buttons_on_timer_tick(&mut b, &mut d, BUTTON1_MASK));
    assert_eq!(b.on_change(), Some((BUTTON1_MASK, BUTTON1_MASK)));
}
