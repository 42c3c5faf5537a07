use vstd::prelude::*;
use crate::statemachine::{State, RunState};
use crate::timers::TickDivider;
use crate::utils::{decimal, u16_to_ascii};

verus! {

/// Display timer ticks between two redraws.
pub const DISPLAY_UPDATE_TICKS: u32 = 51;

/// The two text lines of the display, in ASCII.
pub struct DisplayText {
    pub line1: Vec<u8>,
    pub line2: Vec<u8>,
}

/// "Bpm " followed by the tempo.
pub open spec fn bpm_line(bpm: u16) -> Seq<u8> {
    seq![66u8, 112u8, 109u8, 32u8] + decimal(bpm as nat)
}

/// "running", "paused" or "stopped".
pub open spec fn run_line(running: RunState) -> Seq<u8> {
    match running {
        RunState::Running => seq![114u8, 117u8, 110u8, 110u8, 105u8, 110u8, 103u8],
        RunState::Paused => seq![112u8, 97u8, 117u8, 115u8, 101u8, 100u8],
        _ => seq![115u8, 116u8, 111u8, 112u8, 112u8, 101u8, 100u8],
    }
}

fn push_all(v: &mut Vec<u8>, s: &[u8])
    ensures
        final(v)@ == old(v)@ + s@,
{
    let mut i: usize = 0;
    while i < s.len()
        invariant
            i <= s@.len(),
            v@ == old(v)@ + s@.take(i as int),
        decreases s@.len() - i,
    {
        v.push(s[i]);
        assert(s@.take(i as int + 1) =~= s@.take(i as int).push(s@[i as int]));
        i = i + 1;
    }
    assert(s@.take(s@.len() as int) =~= s@);
}

/// The text for a state.
pub fn state_text(state: &State) -> (t: DisplayText)
    ensures
        t.line1@ == bpm_line(state.bpm),
        t.line2@ == run_line(state.running),
{
    let mut line1: Vec<u8> = Vec::new();
    push_all(&mut line1, &[66u8, 112u8, 109u8, 32u8]);
    let digits = u16_to_ascii(state.bpm);
    push_all(&mut line1, digits.as_slice());
    let mut line2: Vec<u8> = Vec::new();
    match state.running {
        RunState::Running => push_all(&mut line2, &[114u8, 117u8, 110u8, 110u8, 105u8, 110u8, 103u8]),
        RunState::Paused => push_all(&mut line2, &[112u8, 97u8, 117u8, 115u8, 101u8, 100u8]),
        _ => push_all(&mut line2, &[115u8, 116u8, 111u8, 112u8, 112u8, 101u8, 100u8]),
    }
    assert(line1@ =~= bpm_line(state.bpm));
    assert(line2@ =~= run_line(state.running));
    DisplayText { line1, line2 }
}

/// Redraw scheduling for the display: the latest state is shown at most once
/// per display period, and only when it changed.
pub struct Display {
    updated: bool,
    state: Option<State>,
    update_time_arrived: bool,
    divider: TickDivider,
}

impl Display {
    pub closed spec fn shown(&self) -> Option<State> {
        self.state
    }

    /// A state is waiting to be drawn.
    pub closed spec fn updated(&self) -> bool {
        self.updated
    }

    /// The display period has elapsed since the last render call.
    pub closed spec fn time_arrived(&self) -> bool {
        self.update_time_arrived
    }

    pub open spec fn wf(&self) -> bool {
        self.divider_limit() == DISPLAY_UPDATE_TICKS
    }

    pub closed spec fn divider_limit(&self) -> u32 {
        self.divider.limit()
    }

    /// Display timer ticks counted in the current period.
    pub closed spec fn period_ticks(&self) -> u32 {
        self.divider.count()
    }

    pub fn new() -> (d: Display)
        ensures
            d.wf(),
            d.shown() is None,
            d.updated(),
            !d.time_arrived(),
            d.period_ticks() == 0,
    {
        Display {
            updated: true,
            state: None,
            update_time_arrived: false,
            divider: TickDivider::new(DISPLAY_UPDATE_TICKS),
        }
    }

    /// Queues a state for drawing.
    pub fn update(&mut self, state: &State)
        requires
            old(self).wf(),
        ensures
            final(self).wf(),
            final(self).shown() == Some(*state),
            final(self).updated(),
            final(self).time_arrived() == old(self).time_arrived(),
            final(self).period_ticks() == old(self).period_ticks(),
    {
        self.state = Some(*state);
        self.updated = true;
    }

    /// Tick of the display timer.
    pub fn on_timer_tick(&mut self)
        requires
            old(self).wf(),
        ensures
            final(self).wf(),
            final(self).shown() == old(self).shown(),
            final(self).updated() == old(self).updated(),
            final(self).time_arrived() == (old(self).time_arrived() || old(self).period_ticks()
                >= DISPLAY_UPDATE_TICKS),
            final(self).period_ticks() == if old(self).period_ticks() >= DISPLAY_UPDATE_TICKS {
                0
            } else {
                (old(self).period_ticks() + 1) as u32
            },
    {
        if self.divider.tick() {
            self.update_time_arrived = true;
        }
    }

    /// The text to draw now, if the period has elapsed and a new state is
    /// queued; the period restarts with every call.
    pub fn render(&mut self) -> (t: Option<DisplayText>)
        requires
            old(self).wf(),
        ensures
            final(self).wf(),
            !final(self).time_arrived(),
            final(self).shown() == old(self).shown(),
            final(self).period_ticks() == old(self).period_ticks(),
            match (old(self).updated() && old(self).time_arrived(), old(self).shown()) {
                (true, Some(s)) => {
                    &&& t is Some
                    &&& t.unwrap().line1@ == bpm_line(s.bpm)
                    &&& t.unwrap().line2@ == run_line(s.running)
                    &&& !final(self).updated()
                },
                _ => t is None && final(self).updated() == old(self).updated(),
            },
    {
        let arrived = self.update_time_arrived;
        self.update_time_arrived = false;
        if self.updated && arrived {
            match self.state {
                Some(s) => {
                    self.updated = false;
                    Some(state_text(&s))
                },
                None => None,
            }
        } else {
            None
        }
    }
}

} // verus!
