//! Alignment arithmetic shared by uniform packing and texture copies.

use vstd::prelude::*;
use vstd::arithmetic::power2::pow2;
use vstd::bits::{low_bits_mask, lemma_u32_low_bits_mask_is_mod, lemma_u32_pow2_no_overflow};

verus! {

/// `a` is a non-zero power of two.
pub open spec fn is_pow2(a: int) -> bool {
    exists|n: nat| n < 32 && a == pow2(n)
}

/// A power of two fits in `[1, 2^31]`.
pub proof fn lemma_pow2_bounds(a: int)
    requires
        is_pow2(a),
    ensures
        1 <= a <= 0x8000_0000,
{
    let n = choose|n: nat| n < 32 && a == pow2(n);
    vstd::arithmetic::power2::lemma_pow2_pos(n);
    vstd::arithmetic::power2::lemma2_to64();
    if n < 31 {
        vstd::arithmetic::power2::lemma_pow2_strictly_increases(n, 31);
    }
}

/// Smallest multiple of `alignment` that is at least `size`.
pub open spec fn round_up_spec(size: int, alignment: int) -> int {
    ((size + alignment - 1) / alignment) * alignment
}

proof fn lemma_mask_is_round_down(x: u32, a: u32)
    requires
        is_pow2(a as int),
    ensures
        x & !((a - 1) as u32) == x - x % a,
{
    let n = choose|n: nat| n < 32 && a == pow2(n);
    lemma_u32_pow2_no_overflow(n);
    lemma_u32_low_bits_mask_is_mod(x, n);
    let m = (a - 1) as u32;
    assert(low_bits_mask(n) as u32 == m);
    assert(x & !m == x - (x & m)) by (bit_vector);
}

/// Round up uniform size to alignment.
///
/// The result is the bit expression `(size + alignment - 1) & !(alignment - 1)`;
/// for a power-of-two alignment this is the smallest multiple of the alignment
/// that is not below `size`.
pub fn round_up_uniform_size(size: u32, alignment: u32) -> (r: u32)
    requires
        alignment >= 1,
        size + alignment - 1 <= u32::MAX,
    ensures
        r == ((size + alignment - 1) as u32) & !((alignment - 1) as u32),
        is_pow2(alignment as int) ==> r == round_up_spec(size as int, alignment as int),
        is_pow2(alignment as int) ==> r % alignment == 0 && size <= r < size + alignment,
{
    let mask = alignment - 1;
    let r = (size + mask) & !mask;
    proof {
        if is_pow2(alignment as int) {
            let x = (size + mask) as u32;
            lemma_mask_is_round_down(x, alignment);
            assert(r == x - x % alignment);
            assert(x - x % alignment == (x / alignment) * alignment) by (nonlinear_arith)
                requires alignment > 0;
            assert(((x / alignment) * alignment) as int % (alignment as int) == 0) by (nonlinear_arith)
                requires alignment > 0;
            assert(x % alignment < alignment) by (nonlinear_arith) requires alignment > 0;
        }
    }
    r
}

/// `p` is a power of two that fits in 64 bits.
pub open spec fn is_pow2_u64(p: int) -> bool {
    exists|n: nat| n < 64 && p == pow2(n)
}

/// The smallest power of two that is not below `x` (1 for `x == 0`), as
/// `u64::next_power_of_two` computes it.
pub fn next_power_of_two(x: u64) -> (r: u64)
    requires
        x <= 0x8000_0000_0000_0000,
    ensures
        is_pow2_u64(r as int),
        r >= x,
        r == 1 || r / 2 < x,
{
    let mut p: u64 = 1;
    let ghost mut n: nat = 0;
    proof {
        vstd::arithmetic::power2::lemma2_to64();
    }
    while p < x
        invariant
            n < 64,
            p >= 1,
            p == pow2(n),
            p == 1 || p / 2 < x,
            x <= 0x8000_0000_0000_0000,
        decreases 64 - n,
    {
        proof {
            vstd::arithmetic::power2::lemma2_to64();
            vstd::arithmetic::power2::lemma2_to64_rest();
            if n >= 63 {
                if n > 63 {
                    vstd::arithmetic::power2::lemma_pow2_strictly_increases(63, n);
                }
                assert(false);
            }
            vstd::arithmetic::power2::lemma_pow2_unfold(n + 1);
            if n < 62 {
                vstd::arithmetic::power2::lemma_pow2_strictly_increases(n + 1, 63);
            }
        }
        p = p * 2;
        proof {
            n = n + 1;
        }
    }
    p
}

} // verus!
