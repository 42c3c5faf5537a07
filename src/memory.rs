use vstd::prelude::*;
use crate::eeprom::{Eeprom, Transfer, address_bytes, u16_bytes, u16_from_bytes};
use crate::statemachine::{State, MIN_BPM, MAX_BPM};

verus! {

/// Where the tempo is stored.
pub const BPM_ADDRESS: u16 = 0x0004;

#[derive(Clone, Copy, PartialEq, Eq, Structural, Debug)]
pub enum MemoryError {
    ReadError,
}

/// Persists the sequencer state in the EEPROM.
pub struct Memory {
    eeprom: Eeprom,
}

impl Memory {
    pub closed spec fn device_address(&self) -> u8 {
        self.eeprom.device_address()
    }

    pub fn new(eeprom: Eeprom) -> (m: Memory)
        ensures
            m.device_address() == eeprom.device_address(),
    {
        Memory { eeprom }
    }

    /// The read that fetches the stored state.
    pub fn load_request(&self) -> (t: Transfer)
        ensures
            t.address == self.device_address(),
            t.write@ == address_bytes(BPM_ADDRESS),
            t.read_len == 2,
    {
        self.eeprom.read_u16(BPM_ADDRESS)
    }

    /// The state held by the bytes that `load_request` read back: the stored
    /// tempo with every other setting at its default. A failed read, or a
    /// tempo out of range (blank or corrupt memory), gives `None`.
    pub fn load_state(&self, received: Result<[u8; 2], MemoryError>) -> (s: Option<State>)
        ensures
            match received {
                Err(_) => s is None,
                Ok(bytes) => {
                    let bpm = bytes[0] * 256 + bytes[1];
                    if MIN_BPM <= bpm <= MAX_BPM {
                        &&& s is Some
                        &&& s.unwrap().bpm == bpm
                        &&& s.unwrap().has_default_settings()
                    } else {
                        s is None
                    }
                },
            },
    {
        match received {
            Err(_) => None,
            Ok(bytes) => {
                let bpm = u16_from_bytes(bytes);
                if MIN_BPM <= bpm && bpm <= MAX_BPM {
                    Some(State::with_bpm(bpm))
                } else {
                    None
                }
            },
        }
    }

    /// The write that stores `state`.
    pub fn write_state(&self, state: &State) -> (t: Transfer)
        ensures
            t.address == self.device_address(),
            t.write@ == address_bytes(BPM_ADDRESS) + u16_bytes(state.bpm),
            t.read_len == 0,
    {
        self.eeprom.write_u16(BPM_ADDRESS, state.bpm)
    }
}

} // verus!
