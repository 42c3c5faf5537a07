use vstd::prelude::*;
use crate::bits::bit;
use crate::timers::TickDivider;

verus! {

pub const BUTTON1_MASK: u8 = 0b0000_0001;
pub const BUTTON2_MASK: u8 = 0b0000_0010;
pub const BUTTON3_MASK: u8 = 0b0000_0100;
pub const BUTTON4_MASK: u8 = 0b0000_1000;

/// Button timer ticks between two debounce samples.
pub const DEBOUNCE_TIMER_TICKS: u32 = 21;

/// Debounce samples after which a new level is accepted.
pub const DEBOUNCE_SAMPLES: u8 = 4;

/// Debouncer for up to eight buttons, one bit each, with a two-bit "vertical"
/// counter per button held in two bytes.
pub struct Buttons {
    raw: u8,
    confirmed: u8,
    count_low: u8,
    count_high: u8,
}

/// Low counter bits after a sample.
pub open spec fn sample_low(readings: u8, raw: u8, confirmed: u8, low: u8, high: u8) -> u8 {
    let changed = readings ^ raw;
    let inc = (readings ^ confirmed) & !changed;
    let keep = !(changed | inc);
    (inc & (!low | high)) | (keep & low)
}

/// High counter bits after a sample.
pub open spec fn sample_high(readings: u8, raw: u8, confirmed: u8, low: u8, high: u8) -> u8 {
    let changed = readings ^ raw;
    let inc = (readings ^ confirmed) & !changed;
    let keep = !(changed | inc);
    (inc & (high | low)) | (keep & high)
}

proof fn lemma_sample_bit(readings: u8, raw: u8, confirmed: u8, low: u8, high: u8, i: u8)
    requires
        i < 8,
    ensures
        bit(sample_low(readings, raw, confirmed, low, high), i) == if bit(readings, i) != bit(
            raw,
            i,
        ) {
            false
        } else if bit(readings, i) != bit(confirmed, i) {
            !bit(low, i) || bit(high, i)
        } else {
            bit(low, i)
        },
        bit(sample_high(readings, raw, confirmed, low, high), i) == if bit(readings, i) != bit(
            raw,
            i,
        ) {
            false
        } else if bit(readings, i) != bit(confirmed, i) {
            bit(high, i) || bit(low, i)
        } else {
            bit(high, i)
        },
{
    let nl = sample_low(readings, raw, confirmed, low, high);
    let nh = sample_high(readings, raw, confirmed, low, high);
    assert({
        let m = 1u8 << i;
        &&& (nl & m != 0) == if (readings & m != 0) != (raw & m != 0) {
            false
        } else if (readings & m != 0) != (confirmed & m != 0) {
            (low & m == 0) || (high & m != 0)
        } else {
            low & m != 0
        }
        &&& (nh & m != 0) == if (readings & m != 0) != (raw & m != 0) {
            false
        } else if (readings & m != 0) != (confirmed & m != 0) {
            (high & m != 0) || (low & m != 0)
        } else {
            high & m != 0
        }
    }) by (bit_vector)
        requires
            i < 8,
            nl == ((readings ^ confirmed) & !(readings ^ raw) & (!low | high)) | (!((readings
                ^ raw) | ((readings ^ confirmed) & !(readings ^ raw))) & low),
            nh == ((readings ^ confirmed) & !(readings ^ raw) & (high | low)) | (!((readings
                ^ raw) | ((readings ^ confirmed) & !(readings ^ raw))) & high),
    ;
}

proof fn lemma_poll_bit(raw: u8, confirmed: u8, low: u8, high: u8, i: u8)
    requires
        i < 8,
    ensures
        bit((raw ^ confirmed) & low & high, i) == (bit(raw, i) != bit(confirmed, i) && bit(low, i)
            && bit(high, i)),
        bit(confirmed ^ ((raw ^ confirmed) & low & high), i) == if bit(raw, i) != bit(
            confirmed,
            i,
        ) && bit(low, i) && bit(high, i) {
            bit(raw, i)
        } else {
            bit(confirmed, i)
        },
{
    let a = (raw ^ confirmed) & low & high;
    let c = confirmed ^ a;
    assert({
        let m = 1u8 << i;
        &&& (a & m != 0) == ((raw & m != 0) != (confirmed & m != 0) && (low & m != 0) && (high & m
            != 0))
        &&& (c & m != 0) == if (raw & m != 0) != (confirmed & m != 0) && (low & m != 0) && (high
            & m != 0) {
            raw & m != 0
        } else {
            confirmed & m != 0
        }
    }) by (bit_vector)
        requires
            i < 8,
            a == (raw ^ confirmed) & low & high,
            c == confirmed ^ a,
    ;
}

/// What happens to the debouncer: a periodic sample of the raw levels, or a
/// poll for accepted changes.
pub enum ButtonEvent {
    Sample(u8),
    Poll,
}

/// Number of samples in `evs`.
pub open spec fn sample_count(evs: Seq<ButtonEvent>) -> nat
    decreases evs.len(),
{
    if evs.len() == 0 {
        0
    } else {
        (if evs[0] is Sample { 1nat } else { 0nat }) + sample_count(evs.drop_first())
    }
}

/// Every sample in `evs` reads button `i` at `level`.
pub open spec fn holds_level(evs: Seq<ButtonEvent>, i: u8, level: bool) -> bool {
    forall|p: int|
        0 <= p < evs.len() ==> (#[trigger] evs[p] matches ButtonEvent::Sample(r) ==> bit(r, i)
            == level)
}

/// Some poll in `evs` comes after at least `need` of its samples.
pub open spec fn polled_after(evs: Seq<ButtonEvent>, need: int) -> bool {
    exists|p: int| 0 <= p < evs.len() && #[trigger] evs[p] is Poll && sample_count(evs.take(p)) >= need
}

proof fn lemma_polled_after_unfold(evs: Seq<ButtonEvent>, need: int)
    requires
        evs.len() > 0,
    ensures
        polled_after(evs, need) == ((evs[0] is Poll && 0 >= need) || polled_after(
            evs.drop_first(),
            need - (if evs[0] is Sample { 1int } else { 0int }),
        )),
{
    let s0: int = if evs[0] is Sample { 1 } else { 0 };
    let rest = evs.drop_first();
    assert forall|p: int| 0 <= p < rest.len() implies sample_count(evs.take(p + 1)) == s0
        + sample_count(#[trigger] rest.take(p)) by {
        assert(evs.take(p + 1).drop_first() =~= rest.take(p));
    }
    assert(sample_count(evs.take(0)) == 0) by {
        assert(evs.take(0).len() == 0);
    }
    if polled_after(evs, need) {
        let p = choose|p: int| 0 <= p < evs.len() && #[trigger] evs[p] is Poll && sample_count(evs.take(p)) >= need;
        if p > 0 {
            assert(rest[p - 1] is Poll);
            assert(sample_count(rest.take(p - 1)) >= need - s0);
        }
    }
    if polled_after(rest, need - s0) {
        let q = choose|q: int| 0 <= q < rest.len() && #[trigger] rest[q] is Poll && sample_count(rest.take(q)) >= need - s0;
        assert(evs[q + 1] is Poll);
    }
}

proof fn lemma_holds_level_rest(evs: Seq<ButtonEvent>, i: u8, level: bool)
    requires
        evs.len() > 0,
        holds_level(evs, i, level),
    ensures
        holds_level(evs.drop_first(), i, level),
        evs[0] matches ButtonEvent::Sample(r) ==> bit(r, i) == level,
{
    assert forall|p: int| 0 <= p < evs.drop_first().len() implies (#[trigger] evs.drop_first()[p] matches ButtonEvent::Sample(r) ==> bit(r, i) == level) by {
        assert(evs.drop_first()[p] == evs[p + 1]);
    }
    assert(evs[0] matches ButtonEvent::Sample(r) ==> bit(r, i) == level);
}

proof fn lemma_settled_never_reports(b: Buttons, evs: Seq<ButtonEvent>, i: u8, level: bool)
    requires
        i < 8,
        holds_level(evs, i, level),
        b.raw_level(i) == level,
        b.level(i) == level,
    ensures
        b.reports(evs, i) == 0,
    decreases evs.len(),
{
    if evs.len() > 0 {
        lemma_holds_level_rest(evs, i, level);
        b.lemma_polled(i);
        match evs[0] {
            ButtonEvent::Sample(r) => {
                b.lemma_sampled(r, i);
            },
            ButtonEvent::Poll => {},
        }
        lemma_settled_never_reports(b.step(evs[0]), evs.drop_first(), i, level);
    }
}

proof fn lemma_holding(b: Buttons, evs: Seq<ButtonEvent>, i: u8, level: bool, k: nat)
    requires
        i < 8,
        holds_level(evs, i, level),
        b.level(i) != level,
        k == 0 ==> b.raw_level(i) == b.level(i),
        k >= 1 ==> b.raw_level(i) == level && b.count(i) == if k - 1 < 3 { (k - 1) as nat } else { 3 },
    ensures
        b.reports(evs, i) == if polled_after(evs, 4 - k) { 1nat } else { 0nat },
    decreases evs.len(),
{
    if evs.len() > 0 {
        lemma_holds_level_rest(evs, i, level);
        lemma_polled_after_unfold(evs, 4 - k);
        b.lemma_polled(i);
        match evs[0] {
            ButtonEvent::Sample(r) => {
                b.lemma_sampled(r, i);
                lemma_holding(b.step(evs[0]), evs.drop_first(), i, level, k + 1);
            },
            ButtonEvent::Poll => {
                if k >= 4 {
                    lemma_settled_never_reports(b.step(evs[0]), evs.drop_first(), i, level);
                } else {
                    lemma_holding(b.step(evs[0]), evs.drop_first(), i, level, k);
                }
            },
        }
    }
}

/// Debounce threshold: a button settled at one level and then sampled at a new
/// level is reported changed by exactly one poll once it has held the new level
/// for `DEBOUNCE_SAMPLES` samples, and by none before.
pub proof fn lemma_debounce_threshold(b: Buttons, evs: Seq<ButtonEvent>, i: u8, level: bool)
    requires
        i < 8,
        b.raw_level(i) == b.level(i),
        b.level(i) != level,
        holds_level(evs, i, level),
    ensures
        b.reports(evs, i) == if polled_after(evs, DEBOUNCE_SAMPLES as int) { 1nat } else { 0nat },
{
    lemma_holding(b, evs, i, level, 0);
}

impl Buttons {
    /// Last sampled raw levels.
    pub closed spec fn raw_mask(&self) -> u8 {
        self.raw
    }

    /// Last sampled raw level of button `i`.
    pub closed spec fn raw_level(&self, i: u8) -> bool {
        bit(self.raw, i)
    }

    /// Accepted level of button `i`.
    pub closed spec fn level(&self, i: u8) -> bool {
        bit(self.confirmed, i)
    }

    /// Debounce count of button `i`, between 0 and 3.
    pub closed spec fn count(&self, i: u8) -> nat {
        (if bit(self.count_high, i) { 2nat } else { 0nat }) + (if bit(self.count_low, i) {
            1nat
        } else {
            0nat
        })
    }

    pub closed spec fn sampled(&self, readings: u8) -> Buttons {
        Buttons {
            raw: readings,
            confirmed: self.confirmed,
            count_low: sample_low(readings, self.raw, self.confirmed, self.count_low, self.count_high),
            count_high: sample_high(readings, self.raw, self.confirmed, self.count_low, self.count_high),
        }
    }

    /// Buttons whose change a poll accepts now.
    pub closed spec fn accepted(&self) -> u8 {
        (self.raw ^ self.confirmed) & self.count_low & self.count_high
    }

    pub closed spec fn polled(&self) -> Buttons {
        Buttons { confirmed: self.confirmed ^ self.accepted(), ..*self }
    }

    /// Sampling resets the count of a button whose raw level changed, raises
    /// (up to 3) the count of one whose raw level differs from its accepted
    /// level, and leaves the others alone.
    pub proof fn lemma_sampled(&self, readings: u8, i: u8)
        requires
            i < 8,
        ensures
            self.sampled(readings).raw_level(i) == bit(readings, i),
            self.sampled(readings).level(i) == self.level(i),
            self.sampled(readings).count(i) == if bit(readings, i) != self.raw_level(i) {
                0
            } else if bit(readings, i) != self.level(i) {
                if self.count(i) < 3 { self.count(i) + 1 } else { 3 }
            } else {
                self.count(i)
            },
    {
        lemma_sample_bit(readings, self.raw, self.confirmed, self.count_low, self.count_high, i);
    }

    /// A poll accepts a button exactly when its raw level differs from its
    /// accepted level and its count has reached 3; only the accepted level of
    /// accepted buttons changes.
    pub proof fn lemma_polled(&self, i: u8)
        requires
            i < 8,
        ensures
            bit(self.accepted(), i) == (self.raw_level(i) != self.level(i) && self.count(i) == 3),
            self.polled().level(i) == if bit(self.accepted(), i) {
                self.raw_level(i)
            } else {
                self.level(i)
            },
            self.polled().raw_level(i) == self.raw_level(i),
            self.polled().count(i) == self.count(i),
    {
        lemma_poll_bit(self.raw, self.confirmed, self.count_low, self.count_high, i);
    }

    pub open spec fn step(&self, e: ButtonEvent) -> Buttons {
        match e {
            ButtonEvent::Sample(r) => self.sampled(r),
            ButtonEvent::Poll => self.polled(),
        }
    }

    /// Number of polls in `evs` that report button `i` as changed.
    pub open spec fn reports(&self, evs: Seq<ButtonEvent>, i: u8) -> nat
        decreases evs.len(),
    {
        if evs.len() == 0 {
            0
        } else {
            (if evs[0] is Poll && bit(self.accepted(), i) { 1nat } else { 0nat }) + self.step(
                evs[0],
            ).reports(evs.drop_first(), i)
        }
    }

    pub fn new() -> (b: Buttons)
        ensures
            forall|i: u8| i < 8 ==> !#[trigger] b.level(i) && !b.raw_level(i) && b.count(i) == 0,
    {
        let b = Buttons { raw: 0, confirmed: 0, count_low: 0, count_high: 0 };
        assert forall|i: u8| i < 8 implies !#[trigger] b.level(i) && !b.raw_level(i) && b.count(i)
            == 0 by {
            assert(0u8 & (1u8 << i) == 0) by (bit_vector);
        }
        b
    }

    /// One debounce sample of the raw button levels.
    pub fn sample(&mut self, readings: u8)
        ensures
            *final(self) == old(self).sampled(readings),
            forall|i: u8|
                i < 8 ==> {
                    &&& #[trigger] final(self).raw_level(i) == bit(readings, i)
                    &&& final(self).level(i) == old(self).level(i)
                    &&& final(self).count(i) == if bit(readings, i) != old(self).raw_level(i) {
                        0
                    } else if bit(readings, i) != old(self).level(i) {
                        if old(self).count(i) < 3 { old(self).count(i) + 1 } else { 3 }
                    } else {
                        old(self).count(i)
                    }
                },
    {
        proof {
            assert forall|i: u8| i < 8 implies #[trigger] old(self).sampled(readings).raw_level(i)
                == bit(readings, i) by {
                old(self).lemma_sampled(readings, i);
            }
            assert forall|i: u8| i < 8 implies #[trigger] old(self).sampled(readings).count(i) == if bit(readings, i) != old(self).raw_level(i) {
                        0
                    } else if bit(readings, i) != old(self).level(i) {
                        if old(self).count(i) < 3 { old(self).count(i) + 1 } else { 3 }
                    } else {
                        old(self).count(i)
                    } && old(self).sampled(readings).level(i) == old(self).level(i) by {
                old(self).lemma_sampled(readings, i);
            }
        }
        let changed = readings ^ self.raw;
        let inc = (readings ^ self.confirmed) & !changed;
        let keep = !(changed | inc);
        let low = (inc & (!self.count_low | self.count_high)) | (keep & self.count_low);
        let high = (inc & (self.count_high | self.count_low)) | (keep & self.count_high);
        self.count_low = low;
        self.count_high = high;
        self.raw = readings;
    }

    /// Reports the buttons whose new level has held for the debounce count, as
    /// `(changed_mask, level_mask)`, and accepts those levels.
    pub fn on_change(&mut self) -> (r: Option<(u8, u8)>)
        ensures
            *final(self) == old(self).polled(),
            r == if old(self).accepted() != 0 {
                Some((old(self).accepted(), old(self).raw_mask()))
            } else {
                None
            },
            forall|i: u8| i < 8 && r is Some ==> bit(r.unwrap().1, i) == #[trigger] old(self).raw_level(i),
            forall|i: u8|
                i < 8 ==> {
                    let accept = old(self).raw_level(i) != old(self).level(i) && old(self).count(i) == 3;
                    &&& (r is Some && bit(r.unwrap().0, i)) == accept
                    &&& #[trigger] final(self).level(i) == if accept {
                        old(self).raw_level(i)
                    } else {
                        old(self).level(i)
                    }
                    &&& final(self).raw_level(i) == old(self).raw_level(i)
                    &&& final(self).count(i) == old(self).count(i)
                },
    {
        let accepted = (self.raw ^ self.confirmed) & self.count_low & self.count_high;
        self.confirmed = self.confirmed ^ accepted;
        proof {
            assert forall|i: u8| i < 8 implies {
                let accept = old(self).raw_level(i) != old(self).level(i) && old(self).count(i) == 3;
                &&& #[trigger] self.level(i) == if accept {
                    old(self).raw_level(i)
                } else {
                    old(self).level(i)
                }
                &&& self.raw_level(i) == old(self).raw_level(i)
                &&& self.count(i) == old(self).count(i)
            } by {
                old(self).lemma_polled(i);
            }
        }
        let r = if accepted != 0 {
            Some((accepted, self.raw))
        } else {
            None
        };
        proof {
            assert forall|i: u8| i < 8 implies (r is Some && bit(r.unwrap().0, i)) == (#[trigger] old(
                self,
            ).raw_level(i) != old(self).level(i) && old(self).count(i) == 3) by {
                old(self).lemma_polled(i);
                assert(0u8 & (1u8 << i) == 0) by (bit_vector);
            }
        }
        r
    }
}

/// Tick of the button timer: takes a debounce sample of `readings` once per
/// period of `divider`. Returns whether it sampled.
pub fn buttons_on_timer_tick(buttons: &mut Buttons, divider: &mut TickDivider, readings: u8) -> (sampled: bool)
    ensures
        sampled == (old(divider).count() >= old(divider).limit()),
        final(divider).limit() == old(divider).limit(),
        final(divider).count() == if sampled { 0 } else { (old(divider).count() + 1) as u32 },
        *final(buttons) == if sampled { old(buttons).sampled(readings) } else { *old(buttons) },
{
    let sampled = divider.tick();
    if sampled {
        buttons.sample(readings);
    }
    sampled
}

} // verus!
