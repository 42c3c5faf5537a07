use vstd::prelude::*;
use crate::bits::{bit, make_mask};
use crate::statemachine::{State, RunState, MIN_BPM, MAX_BPM};
use vstd::arithmetic::div_mod::{lemma_add_mod_noop, lemma_mod_mod};

verus! {

/// MIDI clock resolution: sub-ticks per quarter note.
pub const CLOCK_TICKS_PER_QUARTER_NOTE: u32 = 24;

/// The tick counter wraps here: a common multiple of 24 and every division step.
pub const TICK_COUNTER_PERIOD: u32 = 806400;

/// Microseconds per minute.
pub const MICROS_PER_MINUTE: u32 = 60000000;

/// Largest bar length the packed settings word can hold.
pub const MAX_BAR_LENGTH: u8 = 15;

/// Bit of the reset request in the packed word.
pub const RESET_FLAG: u32 = 0x1000_0000;
/// Bit of the sync request in the packed word.
pub const SYNC_FLAG: u32 = 0x2000_0000;
/// Both request bits.
pub const REQUEST_FLAGS: u32 = 0x3000_0000;

/// Channel settings read by the tick; packed into one machine word so that
/// both contexts exchange them without tearing.
#[derive(Clone, Copy, Debug)]
pub struct ClockSettings {
    pub divisions: [u8; 2],
    pub triggers_ppq: u8,
    pub bar_length: u8,
    /// One-shot request to restart the tick counter.
    pub reset: bool,
    /// One-shot request to fire the sync trigger at the next bar boundary.
    pub sync: bool,
}

pub open spec fn flag(b: bool) -> u32 {
    if b { 1u32 } else { 0u32 }
}

pub open spec fn pack(d0: u8, d1: u8, ppq: u8, bar: u8, reset: bool, sync: bool) -> u32 {
    (d0 as u32) | ((d1 as u32) << 8u32) | ((ppq as u32) << 16u32) | ((bar as u32) << 24u32) | (
    flag(reset) << 28u32) | (flag(sync) << 29u32)
}

pub open spec fn word_division0(w: u32) -> u8 {
    w as u8
}

pub open spec fn word_division1(w: u32) -> u8 {
    (w >> 8u32) as u8
}

pub open spec fn word_ppq(w: u32) -> u8 {
    (w >> 16u32) as u8
}

pub open spec fn word_bar(w: u32) -> u8 {
    ((w >> 24u32) & 0xFu32) as u8
}

pub open spec fn word_reset(w: u32) -> bool {
    (w >> 28u32) & 1u32 == 1u32
}

pub open spec fn word_sync(w: u32) -> bool {
    (w >> 29u32) & 1u32 == 1u32
}

proof fn lemma_pack_unpack(d0: u8, d1: u8, ppq: u8, bar: u8, reset: bool, sync: bool)
    requires
        bar < 16,
    ensures
        word_division0(pack(d0, d1, ppq, bar, reset, sync)) == d0,
        word_division1(pack(d0, d1, ppq, bar, reset, sync)) == d1,
        word_ppq(pack(d0, d1, ppq, bar, reset, sync)) == ppq,
        word_bar(pack(d0, d1, ppq, bar, reset, sync)) == bar,
        word_reset(pack(d0, d1, ppq, bar, reset, sync)) == reset,
        word_sync(pack(d0, d1, ppq, bar, reset, sync)) == sync,
{
    let r = flag(reset);
    let s = flag(sync);
    let w = pack(d0, d1, ppq, bar, reset, sync);
    assert(w as u8 == d0 && (w >> 8u32) as u8 == d1 && (w >> 16u32) as u8 == ppq && ((w >> 24u32)
        & 0xFu32) as u8 == bar && (w >> 28u32) & 1u32 == r && (w >> 29u32) & 1u32 == s)
        by (bit_vector)
        requires
            bar < 16,
            r <= 1,
            s <= 1,
            w == (d0 as u32) | ((d1 as u32) << 8u32) | ((ppq as u32) << 16u32) | ((bar as u32)
                << 24u32) | (r << 28u32) | (s << 29u32),
    ;
}

proof fn lemma_set_flags(w: u32, reset: u32, sync: u32, keep_reset: bool, keep_sync: bool)
    requires
        reset <= 1,
        sync <= 1,
    ensures
        ({
            let cleared = if keep_reset { w & !SYNC_FLAG } else if keep_sync { w & !RESET_FLAG } else { w & !REQUEST_FLAGS };
            let n = cleared | (reset << 28u32) | (sync << 29u32);
            &&& word_division0(n) == word_division0(w)
            &&& word_division1(n) == word_division1(w)
            &&& word_ppq(n) == word_ppq(w)
            &&& word_bar(n) == word_bar(w)
            &&& word_reset(n) == (keep_reset && word_reset(w) || reset == 1)
            &&& word_sync(n) == (keep_sync && !keep_reset && word_sync(w) || sync == 1)
        }),
{
    let kr = keep_reset;
    let ks = keep_sync;
    let cleared = if kr { w & !SYNC_FLAG } else if ks { w & !RESET_FLAG } else { w & !REQUEST_FLAGS };
    let n = cleared | (reset << 28u32) | (sync << 29u32);
    assert(n as u8 == w as u8 && (n >> 8u32) as u8 == (w >> 8u32) as u8 && (n >> 16u32) as u8 == (w
        >> 16u32) as u8 && ((n >> 24u32) & 0xFu32) as u8 == ((w >> 24u32) & 0xFu32) as u8 && (((n
        >> 28u32) & 1u32 == 1u32) == (kr && (w >> 28u32) & 1u32 == 1u32 || reset == 1u32)) && (((n
        >> 29u32) & 1u32 == 1u32) == (ks && !kr && (w >> 29u32) & 1u32 == 1u32 || sync == 1u32)))
        by (bit_vector)
        requires
            reset <= 1,
            sync <= 1,
            cleared == if kr {
                w & !0x2000_0000u32
            } else if ks {
                w & !0x1000_0000u32
            } else {
                w & !0x3000_0000u32
            },
            n == cleared | (reset << 28u32) | (sync << 29u32),
    ;
}

impl ClockSettings {
    /// The settings that `w` holds.
    pub open spec fn describes(&self, w: u32) -> bool {
        &&& self.divisions[0] == word_division0(w)
        &&& self.divisions[1] == word_division1(w)
        &&& self.triggers_ppq == word_ppq(w)
        &&& self.bar_length == word_bar(w)
        &&& self.reset == word_reset(w)
        &&& self.sync == word_sync(w)
    }

    /// Packs the settings into one word: a division per byte, then the trigger
    /// rate, the bar length in four bits and the two request flags.
    pub fn store(s: &ClockSettings) -> (w: u32)
        ensures
            w == pack(
                s.divisions[0],
                s.divisions[1],
                s.triggers_ppq,
                s.bar_length,
                s.reset,
                s.sync,
            ),
            s.bar_length < 16 ==> s.describes(w),
    {
        proof {
            if s.bar_length < 16 {
                lemma_pack_unpack(
                    s.divisions[0],
                    s.divisions[1],
                    s.triggers_ppq,
                    s.bar_length,
                    s.reset,
                    s.sync,
                );
            }
        }
        (s.divisions[0] as u32) | ((s.divisions[1] as u32) << 8u32) | ((s.triggers_ppq as u32)
            << 16u32) | ((s.bar_length as u32) << 24u32) | ((if s.reset { 1u32 } else { 0u32 })
            << 28u32) | ((if s.sync { 1u32 } else { 0u32 }) << 29u32)
    }

    /// Sets the reset request of a packed word, keeping everything else.
    pub fn store_reset(w: u32, reset: bool) -> (n: u32)
        ensures
            word_division0(n) == word_division0(w),
            word_division1(n) == word_division1(w),
            word_ppq(n) == word_ppq(w),
            word_bar(n) == word_bar(w),
            word_reset(n) == reset,
            word_sync(n) == word_sync(w),
            n == (w & !RESET_FLAG) | (flag(reset) << 28u32),
    {
        let r: u32 = if reset { 1 } else { 0 };
        proof {
            lemma_set_flags(w, r, 0, false, true);
            let x = (w & !RESET_FLAG) | (r << 28u32);
            assert(x | (0u32 << 29u32) == x) by (bit_vector);
        }
        (w & !RESET_FLAG) | (r << 28u32)
    }

    /// Unpacks a word; with `take_requests` also hands back the word with both
    /// one-shot requests cleared, as the tick does when it takes them up.
    pub fn read(w: u32, take_requests: bool) -> (r: (ClockSettings, u32))
        ensures
            r.0.describes(w),
            take_requests ==> {
                &&& word_division0(r.1) == word_division0(w)
                &&& word_division1(r.1) == word_division1(w)
                &&& word_ppq(r.1) == word_ppq(w)
                &&& word_bar(r.1) == word_bar(w)
                &&& !word_reset(r.1)
                &&& !word_sync(r.1)
                &&& r.1 == w & !REQUEST_FLAGS
            },
            !take_requests ==> r.1 == w,
    {
        let s = ClockSettings {
            divisions: [w as u8, (w >> 8u32) as u8],
            triggers_ppq: (w >> 16u32) as u8,
            bar_length: ((w >> 24u32) & 0xFu32) as u8,
            reset: (w >> 28u32) & 1u32 == 1u32,
            sync: (w >> 29u32) & 1u32 == 1u32,
        };
        if take_requests {
            proof {
                lemma_set_flags(w, 0, 0, false, false);
                let x = w & !REQUEST_FLAGS;
                assert(x | (0u32 << 28u32) | (0u32 << 29u32) == x) by (bit_vector);
            }
            (s, w & !REQUEST_FLAGS)
        } else {
            (s, w)
        }
    }
}

/// What one tick of the clock emits: the trigger channels that fire and the
/// MIDI outputs that send a timing clock byte.
#[derive(Clone, Copy, Debug)]
pub struct ClockTick {
    pub triggers: u8,
    pub midi_outs: [bool; 2],
}

/// Mathematical state of the clock.
pub struct ClockModel {
    pub bpm: u16,
    pub interval_us: u32,
    pub running: bool,
    pub division0: u8,
    pub division1: u8,
    pub triggers_ppq: u8,
    pub bar_length: u8,
    pub reset_requested: bool,
    pub sync_requested: bool,
    pub sync_armed: bool,
    pub tick_counter: u32,
}

/// Sub-tick interval for a tempo.
pub open spec fn interval_for(bpm: u16) -> u32 {
    (MICROS_PER_MINUTE as int / (bpm as int * CLOCK_TICKS_PER_QUARTER_NOTE as int)) as u32
}

impl ClockModel {
    pub open spec fn wf(&self) -> bool {
        &&& MIN_BPM <= self.bpm <= MAX_BPM
        &&& self.interval_us == interval_for(self.bpm)
        &&& self.division0 >= 1
        &&& self.division1 >= 1
        &&& 1 <= self.triggers_ppq <= CLOCK_TICKS_PER_QUARTER_NOTE
        &&& 1 <= self.bar_length <= MAX_BAR_LENGTH
        &&& self.tick_counter < TICK_COUNTER_PERIOD
    }

    /// Counter value the next tick works with: zero when a reset is requested.
    pub open spec fn tick_index(&self) -> int {
        if self.reset_requested { 0 } else { self.tick_counter as int }
    }

    /// A quarter-note-rate channel with divisor `d` fires on this tick.
    pub open spec fn quarter_fires(&self, d: u8) -> bool {
        self.tick_index() % (d * CLOCK_TICKS_PER_QUARTER_NOTE) as int == 0
    }

    /// A sub-tick-rate output with divisor `d` fires on this tick.
    pub open spec fn subtick_fires(&self, d: u8) -> bool {
        self.tick_index() % (d as int) == 0
    }

    pub open spec fn trigger_fires(&self) -> bool {
        self.tick_index() % (CLOCK_TICKS_PER_QUARTER_NOTE / (self.triggers_ppq as u32)) as int
            == 0
    }

    pub open spec fn at_bar_boundary(&self) -> bool {
        self.tick_index() % (CLOCK_TICKS_PER_QUARTER_NOTE * self.bar_length) as int == 0
    }

    /// A sync request is pending, either taken up already or still in the word.
    pub open spec fn sync_pending(&self) -> bool {
        self.sync_armed || self.sync_requested
    }

    pub open spec fn sync_fires(&self) -> bool {
        self.sync_pending() && self.at_bar_boundary()
    }

    /// State after one tick of a running clock.
    pub open spec fn ticked(&self) -> ClockModel {
        ClockModel {
            reset_requested: false,
            sync_requested: false,
            sync_armed: self.sync_pending() && !self.at_bar_boundary(),
            tick_counter: ((self.tick_index() + 1) % TICK_COUNTER_PERIOD as int) as u32,
            ..*self
        }
    }

    /// State after `n` ticks of a running clock.
    pub open spec fn run(&self, n: nat) -> ClockModel
        decreases n,
    {
        if n == 0 {
            *self
        } else {
            self.run((n - 1) as nat).ticked()
        }
    }
}

/// Division correctness over a run: at the `k`-th tick after `m` the counter
/// stands at `(t + k) mod TICK_COUNTER_PERIOD`, `t` being the counter `m`'s next
/// tick works with, and a quarter-note channel with divisor `d` fires exactly
/// when that value is a multiple of `24 * d`; the settings do not drift.
pub proof fn lemma_division_over_run(m: ClockModel, k: nat, d: u8)
    requires
        m.wf(),
    ensures
        m.run(k).tick_index() == (m.tick_index() + k) % TICK_COUNTER_PERIOD as int,
        m.run(k).quarter_fires(d) == (((m.tick_index() + k) % TICK_COUNTER_PERIOD as int) % (d
            * CLOCK_TICKS_PER_QUARTER_NOTE) as int == 0),
        m.run(k).division0 == m.division0,
        m.run(k).division1 == m.division1,
        m.run(k).triggers_ppq == m.triggers_ppq,
        m.run(k).bar_length == m.bar_length,
    decreases k,
{
    if k > 0 {
        lemma_division_over_run(m, (k - 1) as nat, d);
        let p = TICK_COUNTER_PERIOD as int;
        lemma_add_mod_noop(m.tick_index() + k - 1, 1, p);
        assert(1int % p == 1);
        let prev = m.run((k - 1) as nat);
        if k - 1 > 0 {
            assert(!prev.reset_requested);
        }
        assert(prev.tick_index() < p);
    }
}

/// Division correctness across the counter's wrap: for a divisor whose period
/// `24 * d` divides `TICK_COUNTER_PERIOD` (every division step the sequencer
/// offers), a quarter-note channel fires at the `k`-th tick after `m` exactly
/// when `t + k` is a multiple of `24 * d`, however often the counter wrapped.
pub proof fn lemma_division_periodic(m: ClockModel, k: nat, d: u8)
    requires
        m.wf(),
        d >= 1,
        TICK_COUNTER_PERIOD as int % (d * CLOCK_TICKS_PER_QUARTER_NOTE) as int == 0,
    ensures
        m.run(k).quarter_fires(d) == ((m.tick_index() + k) % (d * CLOCK_TICKS_PER_QUARTER_NOTE) as int
            == 0),
{
    lemma_division_over_run(m, k, d);
    let a = (d * CLOCK_TICKS_PER_QUARTER_NOTE) as int;
    let b = TICK_COUNTER_PERIOD as int / a;
    assert(a * b == TICK_COUNTER_PERIOD as int) by (nonlinear_arith)
        requires
            a > 0,
            TICK_COUNTER_PERIOD as int % a == 0,
            b == TICK_COUNTER_PERIOD as int / a,
    ;
    assert(b > 0) by (nonlinear_arith)
        requires
            a * b == 806400,
            a > 0,
    ;
    lemma_mod_mod(m.tick_index() + k, a, b);
}

/// A sync request stays pending through the ticks of a running clock exactly
/// until the first tick that falls on a bar boundary.
pub proof fn lemma_sync_pending_until_boundary(m: ClockModel, k: nat)
    ensures
        m.run(k).sync_pending() == (m.sync_pending() && forall|j: nat|
            j < k ==> !#[trigger] m.run(j).at_bar_boundary()),
    decreases k,
{
    if k > 0 {
        lemma_sync_pending_until_boundary(m, (k - 1) as nat);
        let prev = (k - 1) as nat;
        if m.sync_pending() && forall|j: nat| j < k ==> !#[trigger] m.run(j).at_bar_boundary() {
            assert(!m.run(prev).at_bar_boundary());
        }
        if !m.run(k).sync_pending() && m.sync_pending() {
            assert(!m.run(prev).sync_pending() || m.run(prev).at_bar_boundary());
        }
    }
}

/// Sync one-shot: once armed, a running clock fires the sync trigger at exactly
/// one tick, the first that falls on a bar boundary, and at no later tick until
/// it is armed again; an unarmed clock never fires it.
pub proof fn lemma_sync_one_shot(m: ClockModel, k: nat)
    ensures
        m.sync_pending() ==> (m.run(k).sync_fires() <==> (m.run(k).at_bar_boundary() && forall|
            j: nat,
        | j < k ==> !#[trigger] m.run(j).at_bar_boundary())),
        !m.sync_pending() ==> !m.run(k).sync_fires(),
{
    lemma_sync_pending_until_boundary(m, k);
}

/// The tempo clock: turns a tempo into a sub-tick interval and decides on each
/// sub-tick which channels fire.
pub struct Clock {
    bpm: u16,
    interval_us: u32,
    running: bool,
    settings: u32,
    tick_counter: u32,
    sync_armed: bool,
}

/// `d`, with zero raised to one.
pub open spec fn at_least_one(d: u8) -> u8 {
    if d == 0 { 1 } else { d }
}

/// `v` held within `[lo, hi]`.
pub open spec fn clamp_u8(v: u8, lo: u8, hi: u8) -> u8 {
    if v < lo { lo } else if v > hi { hi } else { v }
}

pub open spec fn clamp_bpm(bpm: u16) -> u16 {
    if bpm < MIN_BPM { MIN_BPM } else if bpm > MAX_BPM { MAX_BPM } else { bpm }
}

fn clamp_u8_exec(v: u8, lo: u8, hi: u8) -> (r: u8)
    ensures
        r == clamp_u8(v, lo, hi),
{
    if v < lo { lo } else if v > hi { hi } else { v }
}

impl Clock {
    pub closed spec fn view(&self) -> ClockModel {
        ClockModel {
            bpm: self.bpm,
            interval_us: self.interval_us,
            running: self.running,
            division0: word_division0(self.settings),
            division1: word_division1(self.settings),
            triggers_ppq: word_ppq(self.settings),
            bar_length: word_bar(self.settings),
            reset_requested: word_reset(self.settings),
            sync_requested: word_sync(self.settings),
            sync_armed: self.sync_armed,
            tick_counter: self.tick_counter,
        }
    }

    pub open spec fn wf(&self) -> bool {
        self.view().wf()
    }

    /// Stores settings into the packed word.
    fn write_settings(&mut self, s: &ClockSettings)
        requires
            s.bar_length < 16,
        ensures
            s.describes(final(self).settings),
            final(self).bpm == old(self).bpm,
            final(self).interval_us == old(self).interval_us,
            final(self).running == old(self).running,
            final(self).tick_counter == old(self).tick_counter,
            final(self).sync_armed == old(self).sync_armed,
    {
        self.settings = ClockSettings::store(s);
    }

    /// A clock configured from `state`, at tick zero with nothing armed.
    pub fn new(state: &State) -> (c: Clock)
        ensures
            c.wf(),
            c.view().bpm == clamp_bpm(state.bpm),
            c.view().running == (state.running == RunState::Running),
            c.view().division0 == at_least_one(state.clock_divisions[0]),
            c.view().division1 == at_least_one(state.clock_divisions[1]),
            c.view().triggers_ppq == clamp_u8(
                state.clock_trigger_multiplier,
                1,
                CLOCK_TICKS_PER_QUARTER_NOTE as u8,
            ),
            c.view().bar_length == clamp_u8(state.clock_bar_length, 1, MAX_BAR_LENGTH),
            !c.view().reset_requested,
            c.view().sync_requested == state.clock_sync,
            !c.view().sync_armed,
            c.view().tick_counter == 0,
    {
        let mut clock = Clock {
            bpm: MIN_BPM,
            interval_us: 0,
            running: false,
            settings: 0,
            tick_counter: 0,
            sync_armed: false,
        };
        clock.set_bpm(state.bpm);
        clock.running = state.running == RunState::Running;
        let s = ClockSettings {
            divisions: [
                if state.clock_divisions[0] == 0 { 1 } else { state.clock_divisions[0] },
                if state.clock_divisions[1] == 0 { 1 } else { state.clock_divisions[1] },
            ],
            triggers_ppq: clamp_u8_exec(
                state.clock_trigger_multiplier,
                1,
                CLOCK_TICKS_PER_QUARTER_NOTE as u8,
            ),
            bar_length: clamp_u8_exec(state.clock_bar_length, 1, MAX_BAR_LENGTH),
            reset: false,
            sync: state.clock_sync,
        };
        clock.write_settings(&s);
        clock
    }

    pub fn bpm(&self) -> (b: u16)
        ensures
            b == self.view().bpm,
    {
        self.bpm
    }

    /// Sub-tick interval in microseconds that the periodic timer should run at.
    pub fn interval_us(&self) -> (us: u32)
        ensures
            us == self.view().interval_us,
    {
        self.interval_us
    }

    /// Whether the periodic tick source should be running.
    pub fn is_running(&self) -> (r: bool)
        ensures
            r == self.view().running,
    {
        self.running
    }

    /// Replaces both channel divisors; a zero divisor is raised to one.
    pub fn set_divisions(&mut self, divisions: [u8; 2])
        requires
            old(self).wf(),
        ensures
            final(self).wf(),
            final(self).view() == (ClockModel {
                division0: at_least_one(divisions[0]),
                division1: at_least_one(divisions[1]),
                ..old(self).view()
            }),
    {
        let (mut s, _) = ClockSettings::read(self.settings, false);
        s.divisions = [
            if divisions[0] == 0 { 1 } else { divisions[0] },
            if divisions[1] == 0 { 1 } else { divisions[1] },
        ];
        self.write_settings(&s);
    }

    /// Sets the trigger pulses per quarter note, held within `[1, 24]`.
    pub fn set_trigger_multiplier(&mut self, multiplier: u8)
        requires
            old(self).wf(),
        ensures
            final(self).wf(),
            final(self).view() == (ClockModel {
                triggers_ppq: clamp_u8(multiplier, 1, CLOCK_TICKS_PER_QUARTER_NOTE as u8),
                ..old(self).view()
            }),
    {
        let (mut s, _) = ClockSettings::read(self.settings, false);
        s.triggers_ppq = clamp_u8_exec(multiplier, 1, CLOCK_TICKS_PER_QUARTER_NOTE as u8);
        self.write_settings(&s);
    }

    /// Sets the quarter notes per resync bar, held within `[1, 15]`.
    pub fn set_bar_length(&mut self, bar_length: u8)
        requires
            old(self).wf(),
        ensures
            final(self).wf(),
            final(self).view() == (ClockModel {
                bar_length: clamp_u8(bar_length, 1, MAX_BAR_LENGTH),
                ..old(self).view()
            }),
    {
        let (mut s, _) = ClockSettings::read(self.settings, false);
        s.bar_length = clamp_u8_exec(bar_length, 1, MAX_BAR_LENGTH);
        self.write_settings(&s);
    }

    /// Arms (or withdraws, while not yet taken up by a tick) a request to fire
    /// the sync trigger once at the next bar boundary.
    pub fn sync(&mut self, sync: bool)
        requires
            old(self).wf(),
        ensures
            final(self).wf(),
            final(self).view() == (ClockModel { sync_requested: sync, ..old(self).view() }),
    {
        let (mut s, _) = ClockSettings::read(self.settings, false);
        s.sync = sync;
        self.write_settings(&s);
    }

    /// Sets the tempo, held within `[MIN_BPM, MAX_BPM]`, and recomputes the
    /// sub-tick interval; the tick counter keeps its phase.
    pub fn set_bpm(&mut self, bpm: u16)
        ensures
            final(self).view() == (ClockModel {
                bpm: clamp_bpm(bpm),
                interval_us: interval_for(clamp_bpm(bpm)),
                ..old(self).view()
            }),
    {
        let b: u16 = if bpm < MIN_BPM {
            MIN_BPM
        } else if bpm > MAX_BPM {
            MAX_BPM
        } else {
            bpm
        };
        self.bpm = b;
        self.interval_us = MICROS_PER_MINUTE / ((b as u32) * CLOCK_TICKS_PER_QUARTER_NOTE);
    }

    /// Runs the clock only in the running state. Stopping requests a reset, so
    /// that the next start begins at tick zero; pausing keeps the phase.
    pub fn set_runstate(&mut self, running: RunState)
        requires
            old(self).wf(),
        ensures
            final(self).wf(),
            final(self).view() == (ClockModel {
                running: running == RunState::Running,
                reset_requested: old(self).view().reset_requested || running == RunState::Stopped,
                ..old(self).view()
            }),
    {
        match running {
            RunState::Running => {
                self.running = true;
            },
            RunState::Stopped => {
                self.settings = ClockSettings::store_reset(self.settings, true);
                self.running = false;
            },
            _ => {
                self.running = false;
            },
        }
    }

    /// One sub-tick. A running clock takes up pending requests, decides which
    /// channels fire at the current counter value and advances the counter;
    /// a stopped clock emits nothing and keeps its state.
    pub fn on_timer_tick(&mut self) -> (r: ClockTick)
        requires
            old(self).wf(),
        ensures
            final(self).wf(),
            old(self).view().running ==> {
                let m = old(self).view();
                &&& bit(r.triggers, 0) == m.quarter_fires(m.division0)
                &&& bit(r.triggers, 1) == m.quarter_fires(m.division1)
                &&& bit(r.triggers, 2) == m.trigger_fires()
                &&& bit(r.triggers, 3) == m.sync_fires()
                &&& forall|i: u8| 4 <= i < 8 ==> !#[trigger] bit(r.triggers, i)
                &&& r.midi_outs[0] == m.subtick_fires(m.division0)
                &&& r.midi_outs[1] == m.subtick_fires(m.division1)
                &&& final(self).view() == m.ticked()
            },
            !old(self).view().running ==> {
                &&& r.triggers == 0
                &&& !r.midi_outs[0]
                &&& !r.midi_outs[1]
                &&& final(self).view() == old(self).view()
            },
    {
        if !self.running {
            return ClockTick { triggers: 0, midi_outs: [false, false] };
        }
        let (s, w) = ClockSettings::read(self.settings, true);
        self.settings = w;
        let armed = self.sync_armed || s.sync;
        let t: u32 = if s.reset { 0 } else { self.tick_counter };
        let d0 = s.divisions[0] as u32;
        let d1 = s.divisions[1] as u32;
        let quarter0 = t % (d0 * CLOCK_TICKS_PER_QUARTER_NOTE) == 0;
        let quarter1 = t % (d1 * CLOCK_TICKS_PER_QUARTER_NOTE) == 0;
        let ppq = s.triggers_ppq as u32;
        assert(24u32 / ppq >= 1) by (nonlinear_arith)
            requires
                1 <= ppq <= 24,
        ;
        let trigger = t % (CLOCK_TICKS_PER_QUARTER_NOTE / ppq) == 0;
        let boundary = t % (CLOCK_TICKS_PER_QUARTER_NOTE * (s.bar_length as u32)) == 0;
        let fire_sync = armed && boundary;
        self.sync_armed = armed && !boundary;
        let triggers = make_mask(quarter0, quarter1, trigger, fire_sync);
        let midi_outs = [t % d0 == 0, t % d1 == 0];
        self.tick_counter = (t + 1) % TICK_COUNTER_PERIOD;
        ClockTick { triggers, midi_outs }
    }
}

} // verus!
