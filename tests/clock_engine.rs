use synclock::clock::{Clock, ClockSettings, ClockTick, TICK_COUNTER_PERIOD};
use synclock::statemachine::{ClockSource, RunState, State};
use synclock::triggers::{TRIGGER1_MASK, TRIGGER2_MASK, TRIGGER3_MASK, TRIGGER4_MASK};

fn state(divisions: [u8; 2], multiplier: u8, bar_length: u8, running: RunState) -> State {
    State {
        bpm: 120,
        clock_trigger_multiplier: multiplier,
        clock_divisions: divisions,
        clock_bar_length: bar_length,
        clock_sync: false,
        clock_source: ClockSource::Internal,
        running,
    }
}

fn ticks(clock: &mut Clock, n: usize) -> Vec<ClockTick> {
    (0..n).map(|_| clock.on_timer_tick()).collect()
}

fn fired_at(ticks: &[ClockTick], mask: u8) -> Vec<usize> {
    ticks.iter().enumerate().filter(|(_, t)| t.triggers & mask != 0).map(|(i, _)| i).collect()
}

#[test]
fn end_to_end_two_quarter_notes() {
    let mut clock = Clock::new(&state([1, 4], 4, 4, RunState::Running));
    assert_eq!(clock.bpm(), 120);
    assert_eq!(clock.interval_us(), 20833);
    assert!(clock.is_running());
    let t = ticks(&mut clock, 48);
    assert_eq!(fired_at(&t, TRIGGER1_MASK), vec![0, 24]);
    assert_eq!(fired_at(&t, TRIGGER2_MASK), vec![0]);
    assert_eq!(fired_at(&t, TRIGGER3_MASK), vec![0, 6, 12, 18, 24, 30, 36, 42]);
    assert_eq!(fired_at(&t, TRIGGER4_MASK), Vec::<usize>::new());
    assert!(t.iter().all(|x| x.triggers & 0xF0 == 0));
    // sub-tick rate outputs: every tick for division 1, every fourth for division 4
    assert!(t.iter().all(|x| x.midi_outs[0]));
    let midi1: Vec<usize> = t.iter().enumerate().filter(|(_, x)| x.midi_outs[1]).map(|(i, _)| i).collect();
    assert_eq!(midi1, (0..48).step_by(4).collect::<Vec<usize>>());
}

#[test]
fn division_fires_on_multiples_over_full_period() {
    for d in [1u8, 3, 7, 32] {
        let mut clock = Clock::new(&state([d, 1], 1, 1, RunState::Running));
        for t in 0..TICK_COUNTER_PERIOD as usize {
            let tick = clock.on_timer_tick();
            let expected = t % (d as usize * 24) == 0;
            assert_eq!(tick.triggers & TRIGGER1_MASK != 0, expected, "d={} t={}", d, t);
        }
        // the counter wrapped: the next tick is tick zero again
        assert!(clock.on_timer_tick().triggers & TRIGGER1_MASK != 0);
    }
}

#[test]
fn zero_divisor_is_raised_to_one() {
    let mut clock = Clock::new(&state([0, 0], 0, 0, RunState::Running));
    let t = ticks(&mut clock, 25);
    assert_eq!(fired_at(&t, TRIGGER1_MASK), vec![0, 24]);
    // ppq raised to 1: one trigger per quarter note; bar raised to 1
    assert_eq!(fired_at(&t, TRIGGER3_MASK), vec![0, 24]);
    clock.set_divisions([0, 2]);
    let t = ticks(&mut clock, 48);
    // counter is at 25 now; division 1 fires at 48 and 72, division 2 at 48 only
    assert_eq!(fired_at(&t, TRIGGER1_MASK), vec![23, 47]);
    assert_eq!(fired_at(&t, TRIGGER2_MASK), vec![23]);
}

#[test]
fn sync_fires_once_at_next_bar() {
    let mut clock = Clock::new(&state([1, 1], 4, 4, RunState::Running));
    ticks(&mut clock, 10);
    clock.sync(true);
    let t = ticks(&mut clock, 400);
    // counter 10 + k reaches 96 at k = 86; later boundaries do not fire again
    assert_eq!(fired_at(&t, TRIGGER4_MASK), vec![86]);
}

#[test]
fn sync_taken_up_survives_release_and_rearms() {
    let mut clock = Clock::new(&state([1, 1], 4, 2, RunState::Running));
    clock.sync(true);
    let first = clock.on_timer_tick();
    // tick zero is a bar boundary
    assert!(first.triggers & TRIGGER4_MASK != 0);
    clock.sync(true);
    ticks(&mut clock, 3);
    clock.sync(false);
    let t = ticks(&mut clock, 200);
    // counter is at 4; the next boundary of a two-quarter bar is 48
    assert_eq!(fired_at(&t, TRIGGER4_MASK), vec![44]);
}

#[test]
fn stop_restarts_phase_and_pause_keeps_it() {
    let mut clock = Clock::new(&state([1, 1], 1, 1, RunState::Running));
    ticks(&mut clock, 5);
    clock.set_runstate(RunState::Paused);
    let idle = clock.on_timer_tick();
    assert_eq!(idle.triggers, 0);
    assert!(!idle.midi_outs[0] && !idle.midi_outs[1]);
    clock.set_runstate(RunState::Running);
    let t = ticks(&mut clock, 20);
    assert_eq!(fired_at(&t, TRIGGER1_MASK), vec![19]);
    clock.set_runstate(RunState::Stopped);
    clock.set_runstate(RunState::Stopped);
    assert!(!clock.is_running());
    clock.set_runstate(RunState::Running);
    assert!(clock.on_timer_tick().triggers & TRIGGER1_MASK != 0);
}

#[test]
fn bpm_change_keeps_phase_and_is_clamped() {
    let mut clock = Clock::new(&state([1, 1], 1, 1, RunState::Running));
    ticks(&mut clock, 10);
    clock.set_bpm(240);
    assert_eq!(clock.interval_us(), 10416);
    let t = ticks(&mut clock, 14);
    assert_eq!(fired_at(&t, TRIGGER1_MASK), vec![]);
    assert!(clock.on_timer_tick().triggers & TRIGGER1_MASK != 0);
    clock.set_bpm(0);
    assert_eq!(clock.bpm(), 30);
    assert_eq!(clock.interval_us(), 83333);
    clock.set_bpm(1000);
    assert_eq!(clock.bpm(), 320);
    assert_eq!(clock.interval_us(), 7812);
}

#[test]
fn trigger_multiplier_and_bar_length_are_clamped() {
    let mut clock = Clock::new(&state([1, 1], 4, 4, RunState::Running));
    clock.set_trigger_multiplier(200);
    clock.set_bar_length(99);
    clock.sync(true);
    let t = ticks(&mut clock, 400);
    assert_eq!(fired_at(&t, TRIGGER3_MASK).len(), 400);
    assert_eq!(fired_at(&t, TRIGGER4_MASK), vec![0]);
}

#[test]
fn settings_word_round_trip() {
    let s = ClockSettings { divisions: [7, 32], triggers_ppq: 24, bar_length: 15, reset: true, sync: false };
    let w = ClockSettings::store(&s);
    assert_eq!(w, 0x1F18_2007);
    let (r, back) = ClockSettings::read(w, false);
    assert_eq!(back, w);
    assert_eq!(r.divisions, [7, 32]);
    assert_eq!(r.triggers_ppq, 24);
    assert_eq!(r.bar_length, 15);
    assert!(r.reset);
    assert!(!r.sync);
    let (_, taken) = ClockSettings::read(w | 0x2000_0000, true);
    assert_eq!(taken, 0x0F18_2007);
    assert_eq!(ClockSettings::store_reset(0x0F18_2007, true), w);
    assert_eq!(ClockSettings::store_reset(w, false), 0x0F18_2007);
}
