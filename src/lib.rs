//! Timing and event core of a MIDI/trigger clock controller: tempo clock with
//! per-channel divisions, quadrature decoder, vertical-counter button debouncer,
//! trigger pulse scheduler and the sequencer state machine that ties them together.

pub mod bits;
pub mod buttons;
pub mod clock;
pub mod controller;
pub mod display;
pub mod eeprom;
pub mod encoder;
pub mod memory;
pub mod midi;
pub mod statemachine;
pub mod timers;
pub mod triggers;
pub mod utils;
