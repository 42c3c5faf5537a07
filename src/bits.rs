use vstd::prelude::*;

verus! {

/// Whether bit `i` of `mask` is set.
pub open spec fn bit(mask: u8, i: u8) -> bool {
    mask & (1u8 << i) != 0
}

/// The four-channel mask whose channel `k` is set exactly when `bk` holds.
pub open spec fn mask_of(b0: bool, b1: bool, b2: bool, b3: bool) -> u8 {
    (if b0 { 1u8 } else { 0u8 }) | (if b1 { 2u8 } else { 0u8 }) | (if b2 { 4u8 } else { 0u8 }) | (
    if b3 { 8u8 } else { 0u8 })
}

pub fn make_mask(b0: bool, b1: bool, b2: bool, b3: bool) -> (m: u8)
    ensures
        m == mask_of(b0, b1, b2, b3),
        bit(m, 0) == b0,
        bit(m, 1) == b1,
        bit(m, 2) == b2,
        bit(m, 3) == b3,
        forall|i: u8| 4 <= i < 8 ==> !#[trigger] bit(m, i),
{
    proof {
        lemma_mask_of_bits(b0, b1, b2, b3);
    }
    (if b0 { 1u8 } else { 0u8 }) | (if b1 { 2u8 } else { 0u8 }) | (if b2 { 4u8 } else { 0u8 }) | (
    if b3 { 8u8 } else { 0u8 })
}

pub proof fn lemma_mask_of_bits(b0: bool, b1: bool, b2: bool, b3: bool)
    ensures
        bit(mask_of(b0, b1, b2, b3), 0) == b0,
        bit(mask_of(b0, b1, b2, b3), 1) == b1,
        bit(mask_of(b0, b1, b2, b3), 2) == b2,
        bit(mask_of(b0, b1, b2, b3), 3) == b3,
        forall|i: u8| 4 <= i < 8 ==> !#[trigger] bit(mask_of(b0, b1, b2, b3), i),
{
    let m = mask_of(b0, b1, b2, b3);
    assert(m & 0xF0u8 == 0u8 && (m & 1u8 != 0) == b0 && (m & 2u8 != 0) == b1 && (m & 4u8 != 0)
        == b2 && (m & 8u8 != 0) == b3) by (bit_vector)
        requires
            m == (if b0 { 1u8 } else { 0u8 }) | (if b1 { 2u8 } else { 0u8 }) | (if b2 {
                4u8
            } else {
                0u8
            }) | (if b3 { 8u8 } else { 0u8 }),
    ;
    assert forall|i: u8| 4 <= i < 8 implies !#[trigger] bit(m, i) by {
        assert(m & 0xF0u8 == 0u8 && 4 <= i < 8 ==> m & (1u8 << i) == 0) by (bit_vector);
    }
    assert(1u8 << 0u8 == 1u8 && 1u8 << 1u8 == 2u8 && 1u8 << 2u8 == 4u8 && 1u8 << 3u8 == 8u8)
        by (bit_vector);
}

} // verus!

verus! {

pub fn has_bit(mask: u8, i: u8) -> (r: bool)
    requires
        i < 8,
    ensures
        r == bit(mask, i),
{
    mask & (1u8 << i) != 0
}

} // verus!
