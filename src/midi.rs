use vstd::prelude::*;
use crate::statemachine::RunState;
use crate::triggers::TRIGGER4_MASK;

verus! {

/// Serial port that carries the MIDI output.
pub const MIDI_UART: u8 = 2;

/// MIDI realtime messages the controller sends.
#[derive(Clone, Copy, PartialEq, Eq, Structural, Debug)]
pub enum MidiMessage {
    Start,
    TimingClock,
    Continue,
    Stop,
}

impl MidiMessage {
    pub open spec fn spec_byte(&self) -> u8 {
        match self {
            MidiMessage::Start => 0xFA,
            MidiMessage::TimingClock => 0xF8,
            MidiMessage::Continue => 0xFB,
            MidiMessage::Stop => 0xFC,
        }
    }

    /// The status byte on the wire.
    pub fn byte(&self) -> (b: u8)
        ensures
            b == self.spec_byte(),
    {
        match self {
            MidiMessage::Start => 0xFA,
            MidiMessage::TimingClock => 0xF8,
            MidiMessage::Continue => 0xFB,
            MidiMessage::Stop => 0xFC,
        }
    }
}

/// What a change of run state sends: a MIDI message, and the trigger outputs to fire.
#[derive(Clone, Copy, Debug)]
pub struct CtrlMessage {
    pub message: MidiMessage,
    pub triggers: u8,
}

pub open spec fn ctrl_message(current: RunState) -> MidiMessage {
    match current {
        RunState::Running => MidiMessage::Continue,
        RunState::Paused => MidiMessage::Stop,
        RunState::Stopping => MidiMessage::Stop,
        RunState::Stopped => MidiMessage::Start,
    }
}

pub open spec fn midi_ctrl_msg_triggers(current: RunState) -> u8 {
    if current == RunState::Stopped { TRIGGER4_MASK } else { 0 }
}

/// Resuming continues, pausing or stopping stops, and a completed stop sends
/// start together with the sync reset trigger, so the next run begins in phase.
pub fn midi_ctrl_msg(current: RunState) -> (r: CtrlMessage)
    ensures
        r.message == ctrl_message(current),
        r.triggers == midi_ctrl_msg_triggers(current),
{
    match current {
        RunState::Running => CtrlMessage { message: MidiMessage::Continue, triggers: 0 },
        RunState::Paused => CtrlMessage { message: MidiMessage::Stop, triggers: 0 },
        RunState::Stopping => CtrlMessage { message: MidiMessage::Stop, triggers: 0 },
        RunState::Stopped => CtrlMessage { message: MidiMessage::Start, triggers: TRIGGER4_MASK },
    }
}

} // verus!
