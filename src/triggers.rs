use vstd::prelude::*;
use crate::bits::{bit, has_bit, make_mask};

verus! {

pub const TRIGGER1_MASK: u8 = 0b0000_0001;
pub const TRIGGER2_MASK: u8 = 0b0000_0010;
pub const TRIGGER3_MASK: u8 = 0b0000_0100;
pub const TRIGGER4_MASK: u8 = 0b0000_1000;

/// Number of trigger outputs.
pub const TRIGGER_CHANNELS: u8 = 4;

/// Ticks of the pulse timer that a fired output stays high.
pub const PULSE_WIDTH_TICKS: u8 = 5;

/// One trigger output: whether it is high, and for how many ticks it has been.
pub struct Pulse {
    pub active: bool,
    pub elapsed: u8,
}

impl Pulse {
    pub open spec fn wf(&self) -> bool {
        &&& self.elapsed < PULSE_WIDTH_TICKS
        &&& !self.active ==> self.elapsed == 0
    }

    /// A fired output: high, with a fresh window.
    pub open spec fn fired() -> Pulse {
        Pulse { active: true, elapsed: 0 }
    }

    /// This tick ends the pulse.
    pub open spec fn ends(&self) -> bool {
        self.active && self.elapsed + 1 >= PULSE_WIDTH_TICKS
    }

    pub open spec fn ticked(&self) -> Pulse {
        if !self.active {
            *self
        } else if self.ends() {
            Pulse { active: false, elapsed: 0 }
        } else {
            Pulse { active: true, elapsed: (self.elapsed + 1) as u8 }
        }
    }

    /// The output after `n` ticks.
    pub open spec fn run(&self, n: nat) -> Pulse
        decreases n,
    {
        if n == 0 {
            *self
        } else {
            self.run((n - 1) as nat).ticked()
        }
    }
}

/// Pulse width: an output fired (whether idle or still high from an earlier
/// firing) stays high for the next `PULSE_WIDTH_TICKS - 1` ticks and is low
/// after `PULSE_WIDTH_TICKS` ticks and every tick after, until fired again.
pub proof fn lemma_pulse_width(n: nat)
    ensures
        Pulse::fired().run(n).active == (n < PULSE_WIDTH_TICKS),
        n < PULSE_WIDTH_TICKS ==> Pulse::fired().run(n).elapsed == n,
        n >= PULSE_WIDTH_TICKS ==> Pulse::fired().run(n) == (Pulse { active: false, elapsed: 0 }),
    decreases n,
{
    if n > 0 {
        lemma_pulse_width((n - 1) as nat);
    }
}

fn tick_pulse(active: bool, elapsed: u8) -> (r: (bool, u8, bool))
    requires
        (Pulse { active, elapsed }).wf(),
    ensures
        (Pulse { active: r.0, elapsed: r.1 }) == (Pulse { active, elapsed }).ticked(),
        (Pulse { active: r.0, elapsed: r.1 }).wf(),
        r.2 == (Pulse { active, elapsed }).ends(),
{
    if !active {
        (false, elapsed, false)
    } else if elapsed + 1 >= PULSE_WIDTH_TICKS {
        (false, 0, true)
    } else {
        (true, elapsed + 1, false)
    }
}

/// Pulse scheduler for the trigger outputs, driven by one periodic tick.
pub struct Triggers {
    active: [bool; 4],
    elapsed: [u8; 4],
}

impl Triggers {
    /// Output `i`.
    pub closed spec fn pulse(&self, i: int) -> Pulse {
        Pulse { active: self.active@[i], elapsed: self.elapsed@[i] }
    }

    pub open spec fn wf(&self) -> bool {
        forall|i: int| 0 <= i < 4 ==> #[trigger] self.pulse(i).wf()
    }

    /// Bit `i` of the result is set exactly for the outputs that are high.
    pub open spec fn high_mask(&self, m: u8) -> bool {
        &&& forall|i: u8| i < 4 ==> (bit(m, i) == #[trigger] self.pulse(i as int).active)
        &&& forall|i: u8| 4 <= i < 8 ==> !#[trigger] bit(m, i)
    }

    pub fn new() -> (t: Triggers)
        ensures
            t.wf(),
            forall|i: int| 0 <= i < 4 ==> #[trigger] t.pulse(i) == (Pulse { active: false, elapsed: 0 }),
    {
        Triggers { active: [false; 4], elapsed: [0; 4] }
    }

    /// Outputs that are high, as a mask.
    pub fn started(&self) -> (m: u8)
        ensures
            self.high_mask(m),
    {
        make_mask(self.active[0], self.active[1], self.active[2], self.active[3])
    }

    /// Starts a pulse on every output whose bit is set in `triggers`; one that
    /// is already high starts a fresh window. Bits above the fourth are ignored.
    pub fn fire(&mut self, triggers: u8)
        requires
            old(self).wf(),
        ensures
            final(self).wf(),
            forall|i: u8|
                i < 4 ==> #[trigger] final(self).pulse(i as int) == if bit(triggers, i) {
                    Pulse::fired()
                } else {
                    old(self).pulse(i as int)
                },
    {
        let f0 = has_bit(triggers, 0);
        let f1 = has_bit(triggers, 1);
        let f2 = has_bit(triggers, 2);
        let f3 = has_bit(triggers, 3);
        let a = self.active;
        let e = self.elapsed;
        self.active = [f0 || a[0], f1 || a[1], f2 || a[2], f3 || a[3]];
        self.elapsed = [
            if f0 { 0 } else { e[0] },
            if f1 { 0 } else { e[1] },
            if f2 { 0 } else { e[2] },
            if f3 { 0 } else { e[3] },
        ];
        assert forall|i: u8| i < 4 implies #[trigger] self.pulse(i as int) == if bit(triggers, i) {
            Pulse::fired()
        } else {
            old(self).pulse(i as int)
        } by {
            assert(i == 0 || i == 1 || i == 2 || i == 3);
        }
        assert(forall|i: int| 0 <= i < 4 ==> #[trigger] self.pulse(i) == self.pulse(i as u8 as int));
    }

    /// One tick of the pulse timer: every high output ages by one tick, and
    /// those whose width is reached go low. Returns the outputs that went low.
    pub fn on_timer_tick(&mut self) -> (ended: u8)
        requires
            old(self).wf(),
        ensures
            final(self).wf(),
            forall|i: u8| i < 4 ==> #[trigger] final(self).pulse(i as int) == old(self).pulse(i as int).ticked(),
            forall|i: u8| i < 4 ==> (bit(ended, i) == #[trigger] old(self).pulse(i as int).ends()),
            forall|i: u8| 4 <= i < 8 ==> !#[trigger] bit(ended, i),
    {
        assert(self.pulse(0).wf() && self.pulse(1).wf() && self.pulse(2).wf() && self.pulse(3).wf());
        let (a0, e0, x0) = tick_pulse(self.active[0], self.elapsed[0]);
        let (a1, e1, x1) = tick_pulse(self.active[1], self.elapsed[1]);
        let (a2, e2, x2) = tick_pulse(self.active[2], self.elapsed[2]);
        let (a3, e3, x3) = tick_pulse(self.active[3], self.elapsed[3]);
        self.active = [a0, a1, a2, a3];
        self.elapsed = [e0, e1, e2, e3];
        let ended = make_mask(x0, x1, x2, x3);
        assert forall|i: u8| i < 4 implies #[trigger] self.pulse(i as int) == old(self).pulse(
            i as int,
        ).ticked() && (bit(ended, i) == old(self).pulse(i as int).ends()) by {
            assert(i == 0 || i == 1 || i == 2 || i == 3);
        }
        assert(forall|i: int| 0 <= i < 4 ==> #[trigger] self.pulse(i) == self.pulse(i as u8 as int));
        ended
    }
}

} // verus!
