use vstd::prelude::*;
use numtoa::NumToA;

verus! {

/// Decimal digits of `n` in ASCII, most significant first, without leading zeros.
pub open spec fn decimal(n: nat) -> Seq<u8>
    decreases n,
{
    if n < 10 {
        seq![(48 + n) as u8]
    } else {
        decimal(n / 10).push((48 + n % 10) as u8)
    }
}

/// Relies on numtoa's `NumToA::<u16>::numtoa` in base 10: it writes the
/// decimal digits of the number at the end of the buffer (20 bytes, more than
/// the 5 a `u16` needs) and returns the index where they begin.
#[verifier::external_body]
pub(crate) fn u16_to_ascii(n: u16) -> (r: Vec<u8>)
    ensures
        r@ == decimal(n as nat),
{
    let mut buffer = [0u8; 20];
    let start = n.numtoa(10, &mut buffer);
    buffer[start..].to_vec()
}

} // verus!
