use synclock::encoder::{get_transition, Encoder, EncoderState};

/// Feeds two-bit readings by the pin edges that produce them.
fn feed(e: &mut Encoder, readings: &[u8], mut last: u8) -> u8 {
    for &r in readings {
        let changed = last ^ r;
        let pin1 = if changed & 1 != 0 { Some(r & 1 != 0) } else { None };
        let pin2 = if changed & 2 != 0 { Some(r & 2 != 0) } else { None };
        e.on_interrupt(pin1, pin2);
        last = r;
    }
    last
}

#[test]
fn clockwise_detent_counts_up() {
    let mut e = Encoder::new();
    feed(&mut e, &[2, 3, 1, 0], 0);
    assert_eq!(e.on_change(), Some(1));
    assert_eq!(e.on_change(), None);
}

#[test]
fn counter_clockwise_detent_counts_down() {
    let mut e = Encoder::new();
    feed(&mut e, &[1, 3, 2, 0], 0);
    assert_eq!(e.on_change(), Some(-1));
}

#[test]
fn interrupted_detent_counts_nothing() {
    let mut e = Encoder::new();
    feed(&mut e, &[2, 3, 0], 0);
    assert_eq!(e.on_change(), None);
    assert_eq!(get_transition(EncoderState::CwStep1, 0), EncoderState::Undefined);
    // from Undefined a full detent counts again
    feed(&mut e, &[2, 3, 1, 0], 0);
    assert_eq!(e.on_change(), Some(1));
}

#[test]
fn several_detents_add_up() {
    let mut e = Encoder::new();
    for _ in 0..3 {
        feed(&mut e, &[2, 3, 1, 0], 0);
    }
    feed(&mut e, &[1, 3, 2, 0], 0);
    assert_eq!(e.on_change(), Some(2));
}

#[test]
fn transition_table() {
    assert_eq!(get_transition(EncoderState::Undefined, 2), EncoderState::CwStart);
    assert_eq!(get_transition(EncoderState::CwFinal, 1), EncoderState::CcwStart);
    assert_eq!(get_transition(EncoderState::CwStep2, 0), EncoderState::CwFinal);
    assert_eq!(get_transition(EncoderState::CcwStep2, 0), EncoderState::CcwFinal);
    assert_eq!(get_transition(EncoderState::CwStep2, 3), EncoderState::Undefined);
    assert_eq!(get_transition(EncoderState::CwStep1, 2), EncoderState::Undefined);
    assert_eq!(get_transition(EncoderState::CcwStep1, 3), EncoderState::Undefined);
    assert_eq!(get_transition(EncoderState::Undefined, 0), EncoderState::Undefined);
}

#[test]
fn reversed_detent_counts_nothing() {
    let mut e = Encoder::new();
    // clockwise half way, then back the way it came
    feed(&mut e, &[2, 3, 2, 0], 0);
    assert_eq!(e.on_change(), None);
    feed(&mut e, &[2, 3, 1, 3, 1, 0], 0);
    assert_eq!(e.on_change(), None);
    feed(&mut e, &[1, 3, 1, 0], 0);
    assert_eq!(e.on_change(), None);
    feed(&mut e, &[2, 3, 1, 0], 0);
    assert_eq!(e.on_change(), Some(1));
}
