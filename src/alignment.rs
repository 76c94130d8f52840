//! Page-granularity rounding of addresses and sizes.
use vstd::prelude::*;
use vstd::arithmetic::power2::{pow2, lemma2_to64, lemma2_to64_rest, lemma_pow2_strictly_increases};
use vstd::bits::{lemma_u64_low_bits_mask_is_mod, lemma_usize_low_bits_mask_is_mod};

verus! {

/// `a` is a power of two.
pub open spec fn is_power_of_two(a: int) -> bool {
    exists|k: nat| pow2(k) == a
}

/// The largest multiple of `align` that is at most `v`.
pub open spec fn round_down(v: int, align: int) -> int {
    v - v % align
}

/// The smallest multiple of `align` that is at least `v`.
pub open spec fn round_up(v: int, align: int) -> int {
    round_down(v + align - 1, align)
}

proof fn lemma_exponent_below_64(a: int) -> (k: nat)
    requires
        is_power_of_two(a),
        a <= u64::MAX,
    ensures
        pow2(k) == a,
        k < 64,
{
    let k = choose|k: nat| pow2(k) == a;
    if k >= 64 {
        lemma2_to64_rest();
        if k > 64 {
            lemma_pow2_strictly_increases(64, k);
        }
    }
    k
}

proof fn lemma_exponent_below_word(a: int) -> (k: nat)
    requires
        is_power_of_two(a),
        a <= usize::MAX,
    ensures
        pow2(k) == a,
        k < usize::BITS,
{
    let k = choose|k: nat| pow2(k) == a;
    if k >= usize::BITS {
        lemma2_to64();
        lemma2_to64_rest();
        if k > usize::BITS {
            lemma_pow2_strictly_increases(usize::BITS as nat, k);
        }
    }
    k
}

proof fn lemma_mask_u64(v: u64, a: u64)
    requires
        is_power_of_two(a as int),
    ensures
        a > 0,
        v & ((a - 1) as u64) == v % a,
        v & !((a - 1) as u64) == v - v % a,
{
    let k = lemma_exponent_below_64(a as int);
    vstd::arithmetic::power2::lemma_pow2_pos(k);
    lemma_u64_low_bits_mask_is_mod(v, k);
    let m = (a - 1) as u64;
    assert(v & !m == v - (v & m)) by (bit_vector);
}

proof fn lemma_mask_usize(v: usize, a: usize)
    requires
        is_power_of_two(a as int),
    ensures
        a > 0,
        v & ((a - 1) as usize) == v % a,
        v & !((a - 1) as usize) == v - v % a,
{
    let k = lemma_exponent_below_word(a as int);
    vstd::arithmetic::power2::lemma_pow2_pos(k);
    lemma_usize_low_bits_mask_is_mod(v, k);
    let m = (a - 1) as usize;
    assert(v & !m == v - (v & m)) by (bit_vector);
}

/// The page size is a power of two.
pub proof fn lemma_4096_is_power_of_two()
    ensures
        is_power_of_two(4096),
{
    lemma2_to64();
    assert(pow2(12) == 4096);
}

/// Rounds `value` down to a multiple of `align`.
pub fn align_down(value: usize, align: usize) -> (r: usize)
    requires
        is_power_of_two(align as int),
    ensures
        r == round_down(value as int, align as int),
{
    proof {
        lemma_mask_usize(value, align);
    }
    value & !(align - 1)
}

/// Rounds `value` up to a multiple of `align`.
pub fn align_up(value: usize, align: usize) -> (r: usize)
    requires
        is_power_of_two(align as int),
        value + align - 1 <= usize::MAX,
    ensures
        r == round_up(value as int, align as int),
{
    proof {
        lemma_mask_usize(value, align);
    }
    align_down(value + (align - 1), align)
}

/// Whether `value` is a multiple of `align`.
pub fn is_aligned(value: usize, align: usize) -> (r: bool)
    requires
        is_power_of_two(align as int),
    ensures
        r == (value % align == 0),
{
    proof {
        lemma_mask_usize(value, align);
    }
    value & (align - 1) == 0
}

/// Rounds a 64-bit `value` down to a multiple of `align`.
pub fn align_down_u64(value: u64, align: u64) -> (r: u64)
    requires
        is_power_of_two(align as int),
    ensures
        r == round_down(value as int, align as int),
{
    proof {
        lemma_mask_u64(value, align);
    }
    value & !(align - 1)
}

/// Rounds a 64-bit `value` up to a multiple of `align`.
pub fn align_up_u64(value: u64, align: u64) -> (r: u64)
    requires
        is_power_of_two(align as int),
        value + align - 1 <= u64::MAX,
    ensures
        r == round_up(value as int, align as int),
{
    proof {
        lemma_mask_u64(value, align);
    }
    align_down_u64(value + (align - 1), align)
}

/// Rounding down lands on the multiple of `align` at or just below `v`, and
/// rounding up never goes below `v`.
pub proof fn lemma_alignment_round_trip(v: int, align: int)
    requires
        v >= 0,
        is_power_of_two(align),
    ensures
        round_down(v, align) <= v < round_down(v, align) + align,
        round_up(v, align) >= v,
        round_down(v, align) % align == 0,
{
    let k = choose|k: nat| pow2(k) == align;
    vstd::arithmetic::power2::lemma_pow2_pos(k);
    vstd::arithmetic::div_mod::lemma_mod_bound(v, align);
    vstd::arithmetic::div_mod::lemma_mod_bound(v + align - 1, align);
    vstd::arithmetic::div_mod::lemma_fundamental_div_mod(v, align);
    vstd::arithmetic::div_mod::lemma_mod_multiples_basic(v / align, align);
    assert(round_down(v, align) == align * (v / align));
}

} // verus!
