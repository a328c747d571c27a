use vstd::prelude::*;

verus! {

/// The low 63 bits of a double's bit pattern: exponent and fraction.
pub open spec fn magnitude_of(bits: u64) -> u64 {
    bits & 0x7fff_ffff_ffff_ffffu64
}

/// Whether the sign bit of a bit pattern is set.
pub open spec fn is_negative(bits: u64) -> bool {
    bits & 0x8000_0000_0000_0000u64 != 0
}

/// The place of a double among the doubles, given its bit pattern: the
/// magnitude bits, negated where the sign bit is set. Both zeros have rank 0.
pub open spec fn rank_of(bits: u64) -> int {
    if is_negative(bits) {
        -(magnitude_of(bits) as int)
    } else {
        magnitude_of(bits) as int
    }
}

/// The rank of the double with the given bit pattern. Doubles that are
/// numbers compare as their ranks do, so a ray parameter is kept as its rank
/// wherever it is only compared.
pub fn order_key(bits: u64) -> (key: i64)
    ensures
        key == rank_of(bits),
{
    let magnitude: u64 = bits & 0x7fff_ffff_ffff_ffffu64;
    assert(magnitude <= 0x7fff_ffff_ffff_ffffu64) by (bit_vector)
        requires
            magnitude == bits & 0x7fff_ffff_ffff_ffffu64,
    ;
    let m: i64 = magnitude as i64;
    if bits & 0x8000_0000_0000_0000u64 != 0 {
        -m
    } else {
        m
    }
}

/// The bit pattern of the double with the given rank; of the two zeros, the
/// positive one.
pub fn key_bits(key: i64) -> (bits: u64)
    requires
        key > i64::MIN,
    ensures
        rank_of(bits) == key,
        is_negative(bits) <==> key < 0,
{
    if key < 0 {
        let m: u64 = (-key) as u64;
        let bits: u64 = m | 0x8000_0000_0000_0000u64;
        assert(bits & 0x7fff_ffff_ffff_ffffu64 == m && bits & 0x8000_0000_0000_0000u64 != 0)
            by (bit_vector)
            requires
                m <= 0x7fff_ffff_ffff_ffffu64,
                bits == m | 0x8000_0000_0000_0000u64,
        ;
        bits
    } else {
        let m: u64 = key as u64;
        assert(m & 0x7fff_ffff_ffff_ffffu64 == m && m & 0x8000_0000_0000_0000u64 == 0)
            by (bit_vector)
            requires
                m <= 0x7fff_ffff_ffff_ffffu64,
        ;
        m
    }
}

/// Two bit patterns have the same rank only if they are the same pattern or
/// the two zeros.
pub proof fn lemma_rank_tells_apart(a: u64, b: u64)
    requires
        rank_of(a) == rank_of(b),
    ensures
        a == b || (magnitude_of(a) == 0 && magnitude_of(b) == 0),
{
    assert(a == (a & 0x7fff_ffff_ffff_ffffu64) | (a & 0x8000_0000_0000_0000u64)) by (bit_vector);
    assert(b == (b & 0x7fff_ffff_ffff_ffffu64) | (b & 0x8000_0000_0000_0000u64)) by (bit_vector);
    assert((a & 0x8000_0000_0000_0000u64) == 0 || (a & 0x8000_0000_0000_0000u64)
        == 0x8000_0000_0000_0000u64) by (bit_vector);
    assert((b & 0x8000_0000_0000_0000u64) == 0 || (b & 0x8000_0000_0000_0000u64)
        == 0x8000_0000_0000_0000u64) by (bit_vector);
}

} // verus!
