use vstd::prelude::*;
use crate::bits::{bit, has_bit};
use crate::buttons::{BUTTON1_MASK, BUTTON2_MASK, BUTTON3_MASK, BUTTON4_MASK};
use crate::clock::{Clock, ClockModel, at_least_one, clamp_bpm, clamp_u8, interval_for, CLOCK_TICKS_PER_QUARTER_NOTE, MAX_BAR_LENGTH};
use crate::midi::{CtrlMessage, midi_ctrl_msg, ctrl_message, midi_ctrl_msg_triggers};
use crate::statemachine::{State, Statemachine, RunState, turned};

verus! {

/// State after the button events `changes` (with pressed levels `levels`).
pub open spec fn after_buttons(s: State, changes: u8, levels: u8) -> State {
    let s1 = if bit(changes, 0) && bit(levels, 0) {
        State {
            running: if s.running != RunState::Running {
                RunState::Running
            } else {
                RunState::Paused
            },
            ..s
        }
    } else {
        s
    };
    let s2 = if bit(changes, 1) {
        State {
            running: if bit(levels, 1) { RunState::Stopping } else { RunState::Stopped },
            ..s1
        }
    } else {
        s1
    };
    if bit(changes, 2) {
        State { clock_sync: bit(levels, 2), ..s2 }
    } else {
        s2
    }
}

/// Hands each reported button change to the state machine: button 1
/// toggles run/pause on press, button 2 stops, button 3 requests a resync,
/// button 4 is the encoder's push button.
pub fn on_button_press(statemachine: &mut Statemachine, changes: u8, state: u8)
    requires
        old(statemachine).wf(),
    ensures
        final(statemachine).wf(),
        final(statemachine).current() == after_buttons(old(statemachine).current(), changes, state),
        final(statemachine).pending() == (old(statemachine).pending() || (bit(changes, 0) && bit(
            state,
            0,
        )) || bit(changes, 1) || bit(changes, 2)),
{
    assert(BUTTON1_MASK == 1u8 << 0u8 && BUTTON2_MASK == 1u8 << 1u8 && BUTTON3_MASK == 1u8 << 2u8
        && BUTTON4_MASK == 1u8 << 3u8) by (bit_vector);
    if has_bit(changes, 0) {
        statemachine.button1_pressed(has_bit(state, 0));
    }
    if has_bit(changes, 1) {
        statemachine.button2_pressed(has_bit(state, 1));
    }
    if has_bit(changes, 2) {
        statemachine.button3_pressed(has_bit(state, 2));
    }
    if has_bit(changes, 3) {
        statemachine.encoder_pressed(has_bit(state, 3));
    }
}

/// Hands an encoder movement to the state machine as a tempo change.
pub fn on_encoder_change(statemachine: &mut Statemachine, rotation: i16)
    ensures
        final(statemachine).wf(),
        final(statemachine).current() == (State {
            bpm: turned(old(statemachine).current().bpm as int, rotation) as u16,
            ..old(statemachine).current()
        }),
        final(statemachine).pending(),
{
    statemachine.encoder_turn(rotation);
}

/// The clock after the fields that differ between `prev` and `s` are applied.
pub open spec fn applied(c: ClockModel, prev: State, s: State) -> ClockModel {
    let run_changed = prev.running != s.running;
    let bpm_changed = prev.bpm != s.bpm;
    let div_changed = prev.clock_divisions[0] != s.clock_divisions[0] || prev.clock_divisions[1]
        != s.clock_divisions[1];
    ClockModel {
        bpm: if bpm_changed { clamp_bpm(s.bpm) } else { c.bpm },
        interval_us: if bpm_changed { interval_for(clamp_bpm(s.bpm)) } else { c.interval_us },
        running: if run_changed { s.running == RunState::Running } else { c.running },
        division0: if div_changed { at_least_one(s.clock_divisions[0]) } else { c.division0 },
        division1: if div_changed { at_least_one(s.clock_divisions[1]) } else { c.division1 },
        triggers_ppq: if prev.clock_trigger_multiplier != s.clock_trigger_multiplier {
            clamp_u8(s.clock_trigger_multiplier, 1, CLOCK_TICKS_PER_QUARTER_NOTE as u8)
        } else {
            c.triggers_ppq
        },
        bar_length: if prev.clock_bar_length != s.clock_bar_length {
            clamp_u8(s.clock_bar_length, 1, MAX_BAR_LENGTH)
        } else {
            c.bar_length
        },
        reset_requested: c.reset_requested || (run_changed && s.running == RunState::Stopped),
        sync_requested: if prev.clock_sync != s.clock_sync { s.clock_sync } else { c.sync_requested },
        ..c
    }
}

/// What a state change asks of the outputs.
#[derive(Clone, Copy, Debug)]
pub struct StateEffects {
    /// Control message to send (and triggers to fire) when the run state changed.
    pub ctrl: Option<CtrlMessage>,
    /// The display should show the new state.
    pub redraw: bool,
}

/// Applies a new state to the clock, field by field where it differs from the
/// previously applied state, and remembers it. The first state only sets the
/// baseline: the clock was already built from it.
pub fn on_state_change(prev: &mut Option<State>, state: &State, clock: &mut Clock) -> (r: StateEffects)
    requires
        old(clock).wf(),
    ensures
        final(clock).wf(),
        *final(prev) == Some(*state),
        match *old(prev) {
            None => {
                &&& final(clock).view() == old(clock).view()
                &&& r.ctrl is None
                &&& !r.redraw
            },
            Some(p) => {
                &&& final(clock).view() == applied(old(clock).view(), p, *state)
                &&& r.redraw
                &&& if p.running != state.running {
                    &&& r.ctrl is Some
                    &&& r.ctrl.unwrap().message == ctrl_message(state.running)
                    &&& r.ctrl.unwrap().triggers == midi_ctrl_msg_triggers(state.running)
                } else {
                    r.ctrl is None
                }
            },
        },
{
    let mut effects = StateEffects { ctrl: None, redraw: false };
    match *prev {
        Some(p) => {
            if p.running != state.running {
                clock.set_runstate(state.running);
                effects.ctrl = Some(midi_ctrl_msg(state.running));
            }
            if p.bpm != state.bpm {
                clock.set_bpm(state.bpm);
            }
            if p.clock_trigger_multiplier != state.clock_trigger_multiplier {
                clock.set_trigger_multiplier(state.clock_trigger_multiplier);
            }
            if p.clock_divisions[0] != state.clock_divisions[0] || p.clock_divisions[1]
                != state.clock_divisions[1] {
                clock.set_divisions(state.clock_divisions);
            }
            if p.clock_bar_length != state.clock_bar_length {
                clock.set_bar_length(state.clock_bar_length);
            }
            if p.clock_sync != state.clock_sync {
                clock.sync(state.clock_sync);
            }
            effects.redraw = true;
        },
        None => {},
    }
    *prev = Some(*state);
    effects
}

} // verus!
