use synclock::clock::Clock;
use synclock::controller::{on_button_press, on_encoder_change, on_state_change};
use synclock::midi::{midi_ctrl_msg, MidiMessage, MIDI_UART};
use synclock::statemachine::{ClockSource, RunState, State, Statemachine, MAX_BPM, MIN_BPM};
use synclock::triggers::TRIGGER4_MASK;

#[test]
fn starts_with_defaults_and_reports_once() {
    let mut m = Statemachine::new();
    let s = m.on_change().expect("initial state is reported");
    assert_eq!(s.bpm, 120);
    assert_eq!(s.clock_divisions, [1, 4]);
    assert_eq!(s.clock_trigger_multiplier, 4);
    assert_eq!(s.clock_bar_length, 4);
    assert!(!s.clock_sync);
    assert_eq!(s.clock_source, ClockSource::Internal);
    assert_eq!(s.running, RunState::Running);
    assert!(m.on_change().is_none());
}

#[test]
fn bpm_stays_in_range() {
    let mut m = Statemachine::new();
    m.encoder_turn(i16::MAX);
    assert_eq!(m.get_state().bpm, MAX_BPM);
    m.encoder_turn(1);
    assert_eq!(m.get_state().bpm, MAX_BPM);
    m.encoder_turn(i16::MIN);
    assert_eq!(m.get_state().bpm, MIN_BPM);
    m.encoder_turn(-1);
    assert_eq!(m.get_state().bpm, MIN_BPM);
    m.encoder_turn(5);
    assert_eq!(m.get_state().bpm, 35);
    for step in [-300i16, 7, 400, -1, 1000, -20] {
        m.encoder_turn(step);
        let bpm = m.get_state().bpm;
        assert!(MIN_BPM <= bpm && bpm <= MAX_BPM);
    }
}

#[test]
fn buttons_drive_run_state() {
    let mut m = Statemachine::new();
    m.on_change();
    m.button1_pressed(false);
    assert!(m.on_change().is_none());
    m.button1_pressed(true);
    assert_eq!(m.get_state().running, RunState::Paused);
    m.button1_pressed(true);
    assert_eq!(m.get_state().running, RunState::Running);
    m.button2_pressed(true);
    assert_eq!(m.get_state().running, RunState::Stopping);
    m.button2_pressed(false);
    assert_eq!(m.get_state().running, RunState::Stopped);
    m.button1_pressed(true);
    assert_eq!(m.get_state().running, RunState::Running);
    m.button3_pressed(true);
    assert!(m.get_state().clock_sync);
    m.button3_pressed(false);
    assert!(!m.get_state().clock_sync);
    m.encoder_pressed(true);
    assert!(m.on_change().is_some());
}

#[test]
fn restores_stored_state_or_defaults() {
    let mut stored = Statemachine::new().get_state();
    stored.bpm = 90;
    assert_eq!(Statemachine::from_stored(Some(stored)).get_state().bpm, 90);
    stored.bpm = 0;
    assert_eq!(Statemachine::from_stored(Some(stored)).get_state().bpm, 120);
    assert_eq!(Statemachine::from_stored(None).get_state().bpm, 120);
}

#[test]
fn button_masks_dispatch() {
    let mut m = Statemachine::new();
    on_button_press(&mut m, 0b0001, 0b0001);
    assert_eq!(m.get_state().running, RunState::Paused);
    on_button_press(&mut m, 0b0110, 0b0100);
    assert_eq!(m.get_state().running, RunState::Stopped);
    assert!(m.get_state().clock_sync);
    on_button_press(&mut m, 0b1001, 0b1000);
    assert_eq!(m.get_state().running, RunState::Stopped);
    on_encoder_change(&mut m, -10);
    assert_eq!(m.get_state().bpm, 110);
}

#[test]
fn midi_messages() {
    assert_eq!(MidiMessage::Start.byte(), 0xFA);
    assert_eq!(MidiMessage::TimingClock.byte(), 0xF8);
    assert_eq!(MidiMessage::Continue.byte(), 0xFB);
    assert_eq!(MidiMessage::Stop.byte(), 0xFC);
    assert_eq!(MIDI_UART, 2);
    assert_eq!(midi_ctrl_msg(RunState::Running).message, MidiMessage::Continue);
    assert_eq!(midi_ctrl_msg(RunState::Paused).message, MidiMessage::Stop);
    assert_eq!(midi_ctrl_msg(RunState::Stopping).message, MidiMessage::Stop);
    let stop = midi_ctrl_msg(RunState::Stopped);
    assert_eq!(stop.message, MidiMessage::Start);
    assert_eq!(stop.triggers, TRIGGER4_MASK);
    assert_eq!(midi_ctrl_msg(RunState::Running).triggers, 0);
}

#[test]
fn state_changes_reach_the_clock() {
    let mut m = Statemachine::new();
    let first: State = m.on_change().unwrap();
    let mut clock = Clock::new(&first);
    let mut prev: Option<State> = None;
    let e = on_state_change(&mut prev, &first, &mut clock);
    assert!(e.ctrl.is_none() && !e.redraw);
    m.encoder_turn(120);
    m.button1_pressed(true);
    let next = m.on_change().unwrap();
    let e = on_state_change(&mut prev, &next, &mut clock);
    assert!(e.redraw);
    assert_eq!(e.ctrl.unwrap().message, MidiMessage::Stop);
    assert_eq!(clock.bpm(), 240);
    assert!(!clock.is_running());
    let e = on_state_change(&mut prev, &next, &mut clock);
    assert!(e.ctrl.is_none() && e.redraw);
}
