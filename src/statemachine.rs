use vstd::prelude::*;

verus! {

/// Slowest tempo the sequencer accepts.
pub const MIN_BPM: u16 = 30;

/// Fastest tempo the sequencer accepts.
pub const MAX_BPM: u16 = 320;

/// Tempo a fresh sequencer starts with.
pub const DEFAULT_BPM: u16 = 120;

#[derive(Clone, Copy, PartialEq, Eq, Structural, Debug)]
pub enum RunState {
    Stopped,
    Stopping,
    Running,
    Paused,
}

#[derive(Clone, Copy, PartialEq, Eq, Structural, Debug)]
pub enum ClockSource {
    Internal,
    MidiIn,
    TriggerIn,
}

/// Snapshot of the sequencer configuration, copied between contexts.
#[derive(Clone, Copy, Debug)]
pub struct State {
    pub bpm: u16,
    /// Trigger pulses per quarter note on the dedicated trigger channel.
    pub clock_trigger_multiplier: u8,
    /// Divisor of each output channel.
    pub clock_divisions: [u8; 2],
    /// Quarter notes per resync bar.
    pub clock_bar_length: u8,
    pub clock_sync: bool,
    pub clock_source: ClockSource,
    pub running: RunState,
}

/// `v` limited to the closed range `[lo, hi]`.
pub open spec fn clamp(v: int, lo: int, hi: int) -> int {
    if v < lo {
        lo
    } else if v > hi {
        hi
    } else {
        v
    }
}

/// Tempo after one encoder turn of `steps`.
pub open spec fn turned(bpm: int, steps: i16) -> int {
    clamp(bpm + steps, MIN_BPM as int, MAX_BPM as int)
}

/// Tempo after a series of encoder turns, first to last.
pub open spec fn turned_all(bpm: int, turns: Seq<i16>) -> int
    decreases turns.len(),
{
    if turns.len() == 0 {
        bpm
    } else {
        turned(turned_all(bpm, turns.drop_last()), turns.last())
    }
}

/// BPM clamp: however many encoder turns are applied to a tempo in range, the
/// tempo stays within `[MIN_BPM, MAX_BPM]`, and a further step up at
/// `MAX_BPM` (or down at `MIN_BPM`) leaves it where it is.
pub proof fn lemma_bpm_clamp(bpm: int, turns: Seq<i16>)
    requires
        MIN_BPM <= bpm <= MAX_BPM,
    ensures
        MIN_BPM <= turned_all(bpm, turns) <= MAX_BPM,
        turned(MAX_BPM as int, 1i16) == MAX_BPM,
        turned(MIN_BPM as int, -1i16) == MIN_BPM,
    decreases turns.len(),
{
    if turns.len() > 0 {
        lemma_bpm_clamp(bpm, turns.drop_last());
    }
}

impl State {
    /// The tempo lies in the accepted range.
    pub open spec fn valid(&self) -> bool {
        MIN_BPM <= self.bpm <= MAX_BPM
    }

    /// Every field but the tempo holds its boot-time value.
    pub open spec fn has_default_settings(&self) -> bool {
        &&& self.clock_trigger_multiplier == 4
        &&& self.clock_divisions@ == seq![1u8, 4u8]
        &&& self.clock_bar_length == 4
        &&& !self.clock_sync
        &&& self.clock_source == ClockSource::Internal
        &&& self.running == RunState::Running
    }

    /// The boot-time configuration with the given tempo.
    pub fn with_bpm(bpm: u16) -> (s: State)
        ensures
            s.bpm == bpm,
            s.has_default_settings(),
    {
        let s = State {
            bpm,
            clock_trigger_multiplier: 4,
            clock_divisions: [1, 4],
            clock_bar_length: 4,
            clock_sync: false,
            clock_source: ClockSource::Internal,
            running: RunState::Running,
        };
        assert(s.clock_divisions@ =~= seq![1u8, 4u8]);
        s
    }
}

/// Owner of the sequencer state; records whether it changed since last polled.
pub struct Statemachine {
    state: State,
    changed: bool,
}

impl Statemachine {
    pub closed spec fn current(&self) -> State {
        self.state
    }

    /// Whether a change is waiting to be picked up by `on_change`.
    pub closed spec fn pending(&self) -> bool {
        self.changed
    }

    pub open spec fn wf(&self) -> bool {
        self.current().valid()
    }

    pub fn new() -> (m: Statemachine)
        ensures
            m.wf(),
            m.current().bpm == DEFAULT_BPM,
            m.current().has_default_settings(),
            m.pending(),
    {
        Statemachine { state: State::with_bpm(DEFAULT_BPM), changed: true }
    }

    /// Starts from a state loaded from storage, or from the defaults where none
    /// was loaded or the loaded one is out of range.
    pub fn from_stored(stored: Option<State>) -> (m: Statemachine)
        ensures
            m.wf(),
            m.pending(),
            match stored {
                Some(s) if s.valid() => m.current() == s,
                _ => m.current().bpm == DEFAULT_BPM && m.current().has_default_settings(),
            },
    {
        match stored {
            Some(s) => {
                if MIN_BPM <= s.bpm && s.bpm <= MAX_BPM {
                    Statemachine { state: s, changed: true }
                } else {
                    Statemachine::new()
                }
            },
            None => Statemachine::new(),
        }
    }

    /// Hands out the state once after each change.
    pub fn on_change(&mut self) -> (r: Option<State>)
        ensures
            r == (if old(self).pending() { Some(old(self).current()) } else { None::<State> }),
            final(self).current() == old(self).current(),
            !final(self).pending(),
    {
        if self.changed {
            let state = self.state;
            self.changed = false;
            Some(state)
        } else {
            None
        }
    }

    pub fn get_state(&self) -> (s: State)
        ensures
            s == self.current(),
    {
        self.state
    }

    /// Moves the tempo by `steps`, held within `[MIN_BPM, MAX_BPM]`.
    pub fn encoder_turn(&mut self, steps: i16)
        ensures
            final(self).current().bpm == turned(old(self).current().bpm as int, steps),
            final(self).current() == (State { bpm: final(self).current().bpm, ..old(self).current() }),
            final(self).wf(),
            final(self).pending(),
    {
        let target: i32 = self.state.bpm as i32 + steps as i32;
        let bpm: u16 = if target < MIN_BPM as i32 {
            MIN_BPM
        } else if target > MAX_BPM as i32 {
            MAX_BPM
        } else {
            target as u16
        };
        self.state.bpm = bpm;
        self.changed = true;
    }

    /// Run/pause button: a press toggles between running and paused.
    pub fn button1_pressed(&mut self, pressed: bool)
        requires
            old(self).wf(),
        ensures
            final(self).wf(),
            pressed ==> final(self).current() == (State {
                running: if old(self).current().running != RunState::Running {
                    RunState::Running
                } else {
                    RunState::Paused
                },
                ..old(self).current()
            }),
            pressed ==> final(self).pending(),
            !pressed ==> *final(self) == *old(self),
    {
        if pressed {
            self.state.running = if self.state.running != RunState::Running {
                RunState::Running
            } else {
                RunState::Paused
            };
            self.changed = true;
        }
    }

    /// Stop button: stopping while held, stopped once released.
    pub fn button2_pressed(&mut self, pressed: bool)
        requires
            old(self).wf(),
        ensures
            final(self).wf(),
            final(self).current() == (State {
                running: if pressed { RunState::Stopping } else { RunState::Stopped },
                ..old(self).current()
            }),
            final(self).pending(),
    {
        self.state.running = if pressed {
            RunState::Stopping
        } else {
            RunState::Stopped
        };
        self.changed = true;
    }

    /// Sync button: requests a resync while held.
    pub fn button3_pressed(&mut self, pressed: bool)
        requires
            old(self).wf(),
        ensures
            final(self).wf(),
            final(self).current() == (State { clock_sync: pressed, ..old(self).current() }),
            final(self).pending(),
    {
        self.state.clock_sync = pressed;
        self.changed = true;
    }

    /// The encoder's push button has no action assigned.
    pub fn encoder_pressed(&mut self, pressed: bool)
        ensures
            *final(self) == *old(self),
    {
    }
}

} // verus!
