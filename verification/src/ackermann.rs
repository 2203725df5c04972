//! Ackermann's function over machine integers.

use vstd::prelude::*;
use vstd::arithmetic::power2::pow2;
use vstd::arithmetic::power2::lemma2_to64;

verus! {

/// Ackermann's recurrence, stated for nonnegative arguments; the
/// guards totalize it over `int`.
pub open spec fn spec_ackermann(m: int, n: int) -> int
    decreases m, n,
{
    if m <= 0 {
        n + 1
    } else if n <= 0 {
        spec_ackermann(m - 1, 1)
    } else {
        spec_ackermann(m - 1, spec_ackermann(m, n - 1))
    }
}

/// Ackermann's function exceeds its second argument.
pub proof fn lemma_ackermann_gt_n(m: int, n: int)
    requires
        m >= 0,
        n >= 0,
    ensures
        spec_ackermann(m, n) > n,
    decreases m, n,
{
    if m == 0 {
    } else if n == 0 {
        lemma_ackermann_gt_n(m - 1, 1);
    } else {
        lemma_ackermann_gt_n(m, n - 1);
        lemma_ackermann_gt_n(m - 1, spec_ackermann(m, n - 1));
    }
}

/// At the first argument 1 the function is `n + 2`.
pub proof fn lemma_ackermann_one(n: int)
    requires
        n >= 0,
    ensures
        spec_ackermann(1, n) == n + 2,
    decreases n,
{
    reveal_with_fuel(spec_ackermann, 3);
    if n > 0 {
        lemma_ackermann_one(n - 1);
    }
}

/// At the first argument 2 the function is `2 * n + 3`.
pub proof fn lemma_ackermann_two(n: int)
    requires
        n >= 0,
    ensures
        spec_ackermann(2, n) == 2 * n + 3,
    decreases n,
{
    if n == 0 {
        lemma_ackermann_one(1);
    } else {
        lemma_ackermann_two(n - 1);
        lemma_ackermann_one(2 * (n - 1) + 3);
    }
}

/// At the first argument 3 the function is `2^(n + 3) - 3`.
pub proof fn lemma_ackermann_three(n: int)
    requires
        n >= 0,
    ensures
        spec_ackermann(3, n) == pow2((n + 3) as nat) - 3,
    decreases n,
{
    if n == 0 {
        lemma_ackermann_two(1);
        lemma2_to64();
    } else {
        lemma_ackermann_three(n - 1);
        lemma_ackermann_gt_n(3, n - 1);
        lemma_ackermann_two(spec_ackermann(3, n - 1));
        assert(pow2((n + 3) as nat) == 2 * pow2((n + 2) as nat)) by {
            vstd::arithmetic::power2::lemma_pow2_adds(1, (n + 2) as nat);
            lemma2_to64();
        }
    }
}

/// Ackermann's function by its plain recurrence, as the benchmark
/// measures it.
pub fn ackermann(m: i32, n: i32) -> (r: i32)
    requires
        m >= 0,
        n >= 0,
        spec_ackermann(m as int, n as int) <= i32::MAX as int,
    ensures
        r == spec_ackermann(m as int, n as int),
    decreases m, n,
{
    if 0 == m {
        n + 1
    } else if 0 == n {
        ackermann(m - 1, 1)
    } else {
        proof {
            lemma_ackermann_gt_n(m as int, n - 1);
            lemma_ackermann_gt_n(m - 1, spec_ackermann(m as int, n as int - 1));
        }
        let inner = ackermann(m, n - 1);
        ackermann(m - 1, inner)
    }
}

/// One run of the Ackermann kernel at the fixed arguments.
pub fn run_ackermann()
{
    proof {
        lemma_ackermann_three(11);
        lemma2_to64();
    }
    ackermann(3, 11);
}

} // verus!
