//! CRC-40 kernel: bitwise polynomial division. A remainder register is
//! shifted one bit at a time and conditionally XOR-ed with the
//! polynomial whenever the shifted value's masked high bit is set; the
//! kernel precomputes `X^(n-1) mod poly` by seeding one step with a
//! one bit and running `n - 1` further steps with zero bits.

use vstd::prelude::*;
use vstd::arithmetic::power2::pow2;
use vstd::arithmetic::power2::lemma2_to64;
use vstd::arithmetic::power2::lemma2_to64_rest;
use vstd::arithmetic::power2::lemma_pow2_adds;
use vstd::arithmetic::power2::lemma_pow2_strictly_increases;
use vstd::bits::lemma_u64_shl_is_mul;

verus! {

/// The fixed CRC-40 polynomial.
pub const CRC40_POLY: i64 = 1099587256329;

/// The fixed message length the kernel divides by the polynomial.
pub const CRC40_LEN: i64 = 3014633;

/// One division step: shift `bit` into the low end of the remainder,
/// then subtract the polynomial (an XOR) when the masked high bit of
/// the shifted value is set.
pub open spec fn spec_crc_step(bit: i64, rmdr: i64, poly: i64, mask: i64) -> i64 {
    let shifted = (rmdr * 2 + bit) as i64;
    if mask & shifted == 0 {
        shifted
    } else {
        shifted ^ poly
    }
}

/// `steps` further division steps, each shifting in a zero bit.
pub open spec fn spec_crc_iterate(steps: nat, rmdr: i64, poly: i64, mask: i64) -> i64
    decreases steps,
{
    if steps == 0 {
        rmdr
    } else {
        spec_crc_step(0, spec_crc_iterate((steps - 1) as nat, rmdr, poly, mask), poly, mask)
    }
}

/// The quantity whose ceiling base-2 logarithm the bit-length formula
/// takes: `|n|` for negative `n`, `n + 1` otherwise.
pub open spec fn spec_length_operand(n: i64) -> int {
    if n < 0 {
        -(n as int)
    } else {
        n as int + 1
    }
}

/// The ceiling of the base-2 logarithm: the smallest `k` with
/// `2^k >= m` (zero for `m <= 1`).
pub open spec fn spec_ceil_log2(m: int) -> nat
    decreases m,
{
    if m <= 1 {
        0
    } else {
        1 + spec_ceil_log2((m + 1) / 2)
    }
}

/// The bit-length formula of the kernel, `ceil(log2(spec_length_operand(n)))`.
pub open spec fn spec_integer_length(n: i64) -> nat {
    spec_ceil_log2(spec_length_operand(n))
}

/// `spec_ceil_log2(m)` is exactly the smallest exponent whose power of
/// two reaches `m`.
pub proof fn lemma_ceil_log2(m: int)
    requires
        m >= 1,
    ensures
        pow2(spec_ceil_log2(m)) >= m,
        spec_ceil_log2(m) >= 1 ==> pow2((spec_ceil_log2(m) - 1) as nat) < m,
    decreases m,
{
    lemma2_to64();
    if m > 1 {
        let m2 = (m + 1) / 2;
        lemma_ceil_log2(m2);
        let k2 = spec_ceil_log2(m2);
        lemma_pow2_adds(k2, 1);
        if k2 >= 1 {
            lemma_pow2_adds((k2 - 1) as nat, 1);
        }
    }
}

/// No two exponents satisfy the ceiling-log characterization.
pub proof fn lemma_ceil_log2_unique(m: int, k: nat)
    requires
        m >= 1,
        pow2(k) >= m,
        k >= 1 ==> pow2((k - 1) as nat) < m,
    ensures
        k == spec_ceil_log2(m),
{
    let kk = spec_ceil_log2(m);
    lemma_ceil_log2(m);
    if k < kk {
        if k < kk - 1 {
            lemma_pow2_strictly_increases(k, (kk - 1) as nat);
        }
        assert(false);
    } else if k > kk {
        if kk < k - 1 {
            lemma_pow2_strictly_increases(kk, (k - 1) as nat);
        }
        assert(false);
    }
}

/// Number of bits of the argument by the kernel's formula: the
/// ceiling of the base-2 logarithm of `|n|` for negative `n`, of
/// `n + 1` otherwise, computed here exactly, by doubling, instead of
/// through floating-point logarithms. Negating the smallest machine
/// integer or incrementing the largest would overflow, so both stay
/// excluded.
pub fn integer_length(n: i64) -> (r: usize)
    requires
        i64::MIN < n,
        n < i64::MAX,
    ensures
        r == spec_integer_length(n),
{
    let m: i64 = if n < 0 { -n } else { n + 1 };
    let m64: u64 = m as u64;
    let mut k: usize = 0;
    let mut p: u64 = 1;
    proof {
        lemma2_to64();
    }
    while p < m64
        invariant
            1 <= m64 <= 0x7fff_ffff_ffff_ffffu64,
            m64 == spec_length_operand(n),
            k <= 63,
            p == pow2(k as nat),
            k >= 1 ==> pow2((k - 1) as nat) < m64,
        decreases 64 - k,
    {
        proof {
            if k >= 63 {
                lemma2_to64_rest();
                if k > 63 {
                    lemma_pow2_strictly_increases(63, k as nat);
                }
                assert(false);
            }
            lemma_pow2_adds(k as nat, 1);
            lemma2_to64();
        }
        p = p * 2;
        k = k + 1;
    }
    proof {
        lemma_ceil_log2_unique(m64 as int, k as nat);
    }
    k
}

/// After one division step a remainder below the mask stays below the
/// mask, provided the polynomial's leading bit is the mask bit.
proof fn lemma_crc_step_bound(bit: i64, rmdr: i64, poly: i64, mask: i64, sh: u64)
    requires
        0 <= bit <= 1,
        sh < 63,
        mask == 1i64 << sh,
        0 <= rmdr < mask,
        mask <= poly,
        poly < mask + mask,
    ensures
        0 <= spec_crc_step(bit, rmdr, poly, mask) < mask,
{
    assert(0i64 < 1i64 << sh && 1i64 << sh <= 0x4000_0000_0000_0000i64) by (bit_vector)
        requires
            sh < 63u64,
    ;
    let shifted = (rmdr * 2 + bit) as i64;
    assert(shifted == rmdr * 2 + bit);
    assert({
        let s = shifted;
        let m = 1i64 << sh;
        (0 <= s && s < m + m && m <= poly && poly < m + m) ==> ({
            &&& (m & s == 0 ==> 0 <= s && s < m)
            &&& (m & s != 0 ==> 0 <= (s ^ poly) && (s ^ poly) < m)
        })
    }) by (bit_vector)
        requires
            sh < 63u64,
    ;
}

/// The masked bit position: one below the polynomial's bit length.
pub open spec fn spec_msb_shift(poly: i64) -> nat {
    (spec_integer_length(poly) - 1) as nat
}

/// The mask the kernel divides with: a single bit at the polynomial's
/// leading position.
pub open spec fn spec_msb_mask(poly: i64) -> i64 {
    pow2(spec_msb_shift(poly)) as i64
}

/// Number of zero-bit steps the adjustment runs after the seeded step.
pub open spec fn spec_adjustment_steps(n: i64) -> nat {
    if n >= 1 {
        (n - 1) as nat
    } else {
        0
    }
}

/// `X^(n-1) mod poly`: one division step seeded with a one bit,
/// followed by `n - 1` steps with zero bits.
pub open spec fn spec_compute_adjustment(poly: i64, n: i64) -> i64 {
    spec_crc_iterate(
        spec_adjustment_steps(n),
        spec_crc_step(1, 0, poly, spec_msb_mask(poly)),
        poly,
        spec_msb_mask(poly),
    )
}

/// Precompute `X^(n-1) mod poly` by running division steps. The
/// polynomial must be positive: its leading bit drives the division,
/// and the remainder register stays strictly below that bit's value.
pub fn compute_adjustment(poly: i64, n: i64) -> (r: i64)
    requires
        poly >= 1,
        poly < i64::MAX,
        n > i64::MIN,
    ensures
        r == spec_compute_adjustment(poly, n),
        0 <= r < spec_msb_mask(poly),
{
    let len_bits = integer_length(poly);
    proof {
        lemma_ceil_log2(spec_length_operand(poly));
        if len_bits - 1 >= 63 {
            lemma2_to64_rest();
            if len_bits - 1 > 63 {
                lemma_pow2_strictly_increases(63, (len_bits - 1) as nat);
            }
            assert(false);
        }
    }
    let sh: usize = len_bits - 1;
    let poly_len_mask: i64 = 1i64 << sh;
    proof {
        lemma2_to64();
        lemma2_to64_rest();
        if (sh as nat) < 62 {
            lemma_pow2_strictly_increases(sh as nat, 62);
        }
        lemma_u64_shl_is_mul(1u64, sh as u64);
        assert(((1i64 << sh) as u64) == (1u64 << (sh as u64)) && 0i64 <= (1i64 << sh))
            by (bit_vector)
            requires
                sh < 63usize,
        ;
        assert(poly_len_mask == pow2(sh as nat));
        lemma_pow2_adds(sh as nat, 1);
        assert(poly_len_mask <= poly && poly < poly_len_mask + poly_len_mask);
        lemma_crc_step_bound(1, 0, poly, poly_len_mask, sh as u64);
    }
    let mut rmdr: i64 = crc_division_step(1, 0, poly, poly_len_mask);
    let mut i: i64 = 0;
    while i < n - 1
        invariant
            poly >= 1,
            n > i64::MIN,
            0 <= i,
            n >= 1 ==> i <= n - 1,
            sh < 63,
            sh == spec_msb_shift(poly),
            poly_len_mask == spec_msb_mask(poly),
            poly_len_mask == 1i64 << sh,
            0 < poly_len_mask <= 0x4000_0000_0000_0000i64,
            i as nat <= spec_adjustment_steps(n),
            poly_len_mask <= poly < poly_len_mask + poly_len_mask,
            0 <= rmdr < poly_len_mask,
            rmdr == spec_crc_iterate(
                i as nat,
                spec_crc_step(1, 0, poly, poly_len_mask),
                poly,
                poly_len_mask,
            ),
        decreases n - i,
    {
        proof {
            lemma_crc_step_bound(0, rmdr, poly, poly_len_mask, sh as u64);
        }
        rmdr = crc_division_step(0, rmdr, poly, poly_len_mask);
        i = i + 1;
    }
    rmdr
}

/// One division step over the machine representation. The remainder
/// is a bit register, nonnegative and small enough that shifting it
/// left cannot overflow.
pub fn crc_division_step(bit: u8, rmdr: i64, poly: i64, msb_mask: i64) -> (r: i64)
    requires
        bit <= 1,
        0 <= rmdr,
        rmdr * 2 + 1 <= i64::MAX,
    ensures
        r == spec_crc_step(bit as i64, rmdr, poly, msb_mask),
{
    let b: i64 = bit as i64;
    let doubled: i64 = rmdr * 2;
    proof {
        assert((b | doubled) == doubled + b) by (bit_vector)
            requires
                0i64 <= b <= 1,
                0i64 <= doubled,
                doubled % 2 == 0,
        ;
    }
    let new_rmdr: i64 = b | doubled;
    proof {
        assert(new_rmdr == rmdr * 2 + (bit as i64));
        assert(((rmdr * 2 + (bit as i64)) as i64) == rmdr * 2 + (bit as i64));
    }
    if 0 == (msb_mask & new_rmdr) {
        new_rmdr
    } else {
        new_rmdr ^ poly
    }
}

/// The CRC-40 kernel: recompute the adjustment for the fixed
/// polynomial and length once per iteration, from scratch each time,
/// and return the last remainder; zero iterations leave the initial
/// zero answer.
pub fn calculate_crc40(iterations: usize) -> (r: i64)
    ensures
        iterations == 0 ==> r == 0,
        iterations >= 1 ==> r == spec_compute_adjustment(CRC40_POLY, CRC40_LEN),
{
    let crc_poly: i64 = 1099587256329;
    let len: i64 = 3014633;
    let mut answer: i64 = 0;
    let mut k: usize = 0;
    while k < iterations
        invariant
            k <= iterations,
            crc_poly == CRC40_POLY,
            len == CRC40_LEN,
            k == 0 ==> answer == 0,
            k >= 1 ==> answer == spec_compute_adjustment(CRC40_POLY, CRC40_LEN),
        decreases iterations - k,
    {
        answer = compute_adjustment(crc_poly, len);
        k = k + 1;
    }
    answer
}

/// Every iteration recomputes the same adjustment from scratch, so
/// the kernel's answer does not depend on how many iterations (at
/// least one) it runs: any two results of `calculate_crc40` for
/// positive iteration counts are equal.
pub proof fn lemma_crc40_iteration_independent(i: usize, j: usize, ri: i64, rj: i64)
    requires
        i >= 1,
        j >= 1,
        call_ensures(calculate_crc40, (i,), ri),
        call_ensures(calculate_crc40, (j,), rj),
    ensures
        ri == rj,
{
}

/// One run of the CRC-40 kernel at the fixed iteration count,
/// reporting whether the remainder matches the expected constant. The
/// benchmark convention aborts on a mismatch; here the comparison's
/// outcome is returned, since the expected value is a run-time fact
/// about three million division steps that no contract pins down.
pub fn run_crc40() -> (ok: bool)
    ensures
        ok == (spec_compute_adjustment(CRC40_POLY, CRC40_LEN) == 549793628164),
{
    let expected: i64 = 549793628164;
    let answer = calculate_crc40(10);
    expected == answer
}

} // verus!
