use vstd::prelude::*;

verus! {

/// States of the quadrature decoder. The start, step and final states of each
/// direction are visited in order; `Undefined` absorbs any other transition.
#[derive(Clone, Copy, PartialEq, Eq, Structural, Debug)]
pub enum EncoderState {
    CwStart,
    CwStep1,
    CwStep2,
    CwFinal,
    CcwStart,
    CcwStep1,
    CcwStep2,
    CcwFinal,
    Undefined,
}

/// Row of the transition table a state reads from; the final states and
/// `Undefined` share the row of the rest position.
pub open spec fn row(s: EncoderState) -> u8 {
    match s {
        EncoderState::CwStart => 1,
        EncoderState::CwStep1 => 2,
        EncoderState::CwStep2 => 3,
        EncoderState::CcwStart => 4,
        EncoderState::CcwStep1 => 5,
        EncoderState::CcwStep2 => 6,
        _ => 0,
    }
}

/// The transition table, by row and two-bit pin reading.
pub open spec fn transition(s: EncoderState, reading: u8) -> EncoderState {
    match (row(s), reading) {
        (0, 1) => EncoderState::CcwStart,
        (0, 2) => EncoderState::CwStart,
        (1, 3) => EncoderState::CwStep1,
        (2, 1) => EncoderState::CwStep2,
        (3, 0) => EncoderState::CwFinal,
        (3, 1) => EncoderState::CwStep2,
        (4, 3) => EncoderState::CcwStep1,
        (5, 2) => EncoderState::CcwStep2,
        (6, 0) => EncoderState::CcwFinal,
        _ => EncoderState::Undefined,
    }
}

pub fn get_transition(state: EncoderState, reading: u8) -> (next: EncoderState)
    ensures
        next == transition(state, reading),
{
    let r: u8 = match state {
        EncoderState::CwStart => 1,
        EncoderState::CwStep1 => 2,
        EncoderState::CwStep2 => 3,
        EncoderState::CcwStart => 4,
        EncoderState::CcwStep1 => 5,
        EncoderState::CcwStep2 => 6,
        _ => 0,
    };
    match (r, reading) {
        (0, 1) => EncoderState::CcwStart,
        (0, 2) => EncoderState::CwStart,
        (1, 3) => EncoderState::CwStep1,
        (2, 1) => EncoderState::CwStep2,
        (3, 0) => EncoderState::CwFinal,
        (3, 1) => EncoderState::CwStep2,
        (4, 3) => EncoderState::CcwStep1,
        (5, 2) => EncoderState::CcwStep2,
        (6, 0) => EncoderState::CcwFinal,
        _ => EncoderState::Undefined,
    }
}

/// `p + 1`, wrapping at the end of the `i32` range.
pub open spec fn inc_wrapping(p: i32) -> i32 {
    if p == i32::MAX { i32::MIN } else { (p + 1) as i32 }
}

/// `p - 1`, wrapping at the end of the `i32` range.
pub open spec fn dec_wrapping(p: i32) -> i32 {
    if p == i32::MIN { i32::MAX } else { (p - 1) as i32 }
}

/// The decoder's state machine together with the position it counts.
pub struct Decoder {
    pub state: EncoderState,
    pub position: i32,
}

impl Decoder {
    /// The decoder after one pin reading: only entering a final state moves the position.
    pub open spec fn fed(&self, reading: u8) -> Decoder {
        let next = transition(self.state, reading);
        Decoder {
            state: next,
            position: if next == EncoderState::CwFinal {
                inc_wrapping(self.position)
            } else if next == EncoderState::CcwFinal {
                dec_wrapping(self.position)
            } else {
                self.position
            },
        }
    }

    /// The decoder after a sequence of readings.
    pub open spec fn feed(&self, readings: Seq<u8>) -> Decoder
        decreases readings.len(),
    {
        if readings.len() == 0 {
            *self
        } else {
            self.feed(readings.drop_last()).fed(readings.last())
        }
    }

    /// At rest: the next reading is read from the rest row of the table.
    pub open spec fn at_rest(&self) -> bool {
        row(self.state) == 0
    }
}

/// Readings of one clockwise detent.
pub open spec fn cw_sequence() -> Seq<u8> {
    seq![2u8, 3u8, 1u8, 0u8]
}

/// Readings of one counter-clockwise detent.
pub open spec fn ccw_sequence() -> Seq<u8> {
    seq![1u8, 3u8, 2u8, 0u8]
}

/// Quadrature monotonicity: from rest, a clockwise detent moves the position
/// by exactly +1, a counter-clockwise detent by exactly -1.
pub proof fn lemma_detents(d: Decoder)
    requires
        d.at_rest(),
    ensures
        d.feed(cw_sequence()) == (Decoder {
            state: EncoderState::CwFinal,
            position: inc_wrapping(d.position),
        }),
        d.feed(ccw_sequence()) == (Decoder {
            state: EncoderState::CcwFinal,
            position: dec_wrapping(d.position),
        }),
        d.feed(cw_sequence()).at_rest(),
        d.feed(ccw_sequence()).at_rest(),
{
    reveal_with_fuel(Decoder::feed, 5);
    assert(cw_sequence().drop_last().drop_last().drop_last().drop_last() =~= Seq::<u8>::empty());
    assert(ccw_sequence().drop_last().drop_last().drop_last().drop_last() =~= Seq::<u8>::empty());
}

/// A detent left part way, by a reading that neither advances nor repeats the
/// last reading (a reversal or a skipped step), drops the decoder into
/// `Undefined` without moving the position.
pub proof fn lemma_interrupted_detent(d: Decoder, k: int, r: u8)
    requires
        d.at_rest(),
        1 <= k <= 3,
        r < 4,
        r != cw_sequence()[k],
        r != cw_sequence()[k - 1],
    ensures
        d.feed(cw_sequence().take(k).push(r)) == (Decoder {
            state: EncoderState::Undefined,
            position: d.position,
        }),
{
    reveal_with_fuel(Decoder::feed, 5);
    let s = cw_sequence().take(k).push(r);
    assert(s.drop_last() =~= cw_sequence().take(k));
    assert(cw_sequence().take(1).drop_last() =~= Seq::<u8>::empty());
    assert(cw_sequence().take(2).drop_last() =~= cw_sequence().take(1));
    assert(cw_sequence().take(3).drop_last() =~= cw_sequence().take(2));
}

/// The counter-clockwise counterpart of `lemma_interrupted_detent`.
pub proof fn lemma_interrupted_ccw_detent(d: Decoder, k: int, r: u8)
    requires
        d.at_rest(),
        1 <= k <= 3,
        r < 4,
        r != ccw_sequence()[k],
        r != ccw_sequence()[k - 1],
    ensures
        d.feed(ccw_sequence().take(k).push(r)) == (Decoder {
            state: EncoderState::Undefined,
            position: d.position,
        }),
{
    reveal_with_fuel(Decoder::feed, 5);
    let s = ccw_sequence().take(k).push(r);
    assert(s.drop_last() =~= ccw_sequence().take(k));
    assert(ccw_sequence().take(1).drop_last() =~= Seq::<u8>::empty());
    assert(ccw_sequence().take(2).drop_last() =~= ccw_sequence().take(1));
    assert(ccw_sequence().take(3).drop_last() =~= ccw_sequence().take(2));
}

/// Fewest readings that can take the decoder from `s` into a final state.
pub open spec fn readings_to_final(s: EncoderState) -> int {
    match s {
        EncoderState::CwStart => 3,
        EncoderState::CwStep1 => 2,
        EncoderState::CwStep2 => 1,
        EncoderState::CcwStart => 3,
        EncoderState::CcwStep1 => 2,
        EncoderState::CcwStep2 => 1,
        _ => 4,
    }
}

/// From rest, fewer than four readings never move the position: every step
/// of a detent has to be seen.
pub proof fn lemma_fewer_than_four_readings(d: Decoder, readings: Seq<u8>)
    requires
        d.at_rest(),
        readings.len() < 4,
    ensures
        d.feed(readings).position == d.position,
        readings_to_final(d.feed(readings).state) >= 4 - readings.len(),
    decreases readings.len(),
{
    if readings.len() > 0 {
        lemma_fewer_than_four_readings(d, readings.drop_last());
    }
}

/// Half the `i32` range: a larger jump between polls is taken as a wraparound.
pub const MAX_I32_HALF: i32 = 1073741823;

/// Quadrature decoder fed by the two pins' edge interrupts, polled for the
/// movement since the last poll.
pub struct Encoder {
    state: EncoderState,
    reading: u8,
    position: i32,
    last_position: i32,
}

/// `v` held within the `i16` range.
pub open spec fn clamp_i16(v: int) -> int {
    if v < i16::MIN { i16::MIN as int } else if v > i16::MAX { i16::MAX as int } else { v }
}

impl Encoder {
    pub closed spec fn decoder(&self) -> Decoder {
        Decoder { state: self.state, position: self.position }
    }

    /// Last known two-bit pin reading: pin 1 in bit 0, pin 2 in bit 1.
    pub closed spec fn reading(&self) -> u8 {
        self.reading
    }

    /// Position at the last poll.
    pub closed spec fn last_position(&self) -> i32 {
        self.last_position
    }

    pub open spec fn wf(&self) -> bool {
        self.reading() < 4
    }

    pub fn new() -> (e: Encoder)
        ensures
            e.wf(),
            e.decoder() == (Decoder { state: EncoderState::Undefined, position: 0 }),
            e.reading() == 0,
            e.last_position() == 0,
    {
        Encoder { state: EncoderState::Undefined, reading: 0, position: 0, last_position: 0 }
    }

    /// Edge interrupt of one or both pins: records the fresh pin levels, keeps
    /// the last known level of a pin not given, and feeds the combined reading
    /// to the decoder.
    pub fn on_interrupt(&mut self, pin1: Option<bool>, pin2: Option<bool>)
        requires
            old(self).wf(),
        ensures
            final(self).wf(),
            final(self).reading() == (match pin1 {
                Some(b) => if b { 1int } else { 0int },
                None => old(self).reading() as int % 2,
            }) + (match pin2 {
                Some(b) => if b { 2int } else { 0int },
                None => old(self).reading() as int / 2 * 2,
            }),
            final(self).decoder() == old(self).decoder().fed(final(self).reading()),
            final(self).last_position() == old(self).last_position(),
    {
        let low: u8 = match pin1 {
            Some(b) => if b { 1 } else { 0 },
            None => self.reading % 2,
        };
        let high: u8 = match pin2 {
            Some(b) => if b { 2 } else { 0 },
            None => self.reading / 2 * 2,
        };
        self.reading = low + high;
        self.state = get_transition(self.state, self.reading);
        if self.state == EncoderState::CwFinal {
            self.position = if self.position == i32::MAX { i32::MIN } else { self.position + 1 };
        } else if self.state == EncoderState::CcwFinal {
            self.position = if self.position == i32::MIN { i32::MAX } else { self.position - 1 };
        }
    }

    /// Movement since the last poll. A jump of more than half the counter range
    /// is taken as a wraparound: both positions are reset and nothing is
    /// reported. A movement beyond the `i16` range is reported in parts.
    pub fn on_change(&mut self) -> (r: Option<i16>)
        ensures
            final(self).reading() == old(self).reading(),
            final(self).decoder().state == old(self).decoder().state,
            ({
                let delta = old(self).decoder().position - old(self).last_position();
                if delta > MAX_I32_HALF || delta < -MAX_I32_HALF {
                    &&& r is None
                    &&& final(self).decoder().position == 0
                    &&& final(self).last_position() == 0
                } else if delta == 0 {
                    &&& r is None
                    &&& final(self).decoder() == old(self).decoder()
                    &&& final(self).last_position() == old(self).last_position()
                } else {
                    &&& r == Some(clamp_i16(delta) as i16)
                    &&& final(self).decoder() == old(self).decoder()
                    &&& final(self).last_position() == old(self).last_position() + clamp_i16(delta)
                }
            }),
    {
        let delta: i64 = self.position as i64 - self.last_position as i64;
        if delta > MAX_I32_HALF as i64 || delta < -(MAX_I32_HALF as i64) {
            self.last_position = 0;
            self.position = 0;
            None
        } else if delta == 0 {
            None
        } else {
            let step: i16 = if delta > i16::MAX as i64 {
                i16::MAX
            } else if delta < i16::MIN as i64 {
                i16::MIN
            } else {
                delta as i16
            };
            self.last_position = self.last_position + step as i32;
            Some(step)
        }
    }
}

} // verus!
