//! Doubly-recursive Fibonacci with the shifted-index convention:
//! the first two values are both 1.

use vstd::prelude::*;

verus! {

/// Argument the driver evaluates the Fibonacci kernel at.
pub const FIB_ITER: i32 = 25;

/// Shifted-index Fibonacci: `spec_fib(0) == spec_fib(1) == 1`.
pub open spec fn spec_fib(n: int) -> int
    decreases n,
{
    if n < 2 {
        1
    } else {
        spec_fib(n - 1) + spec_fib(n - 2)
    }
}

/// Every Fibonacci value is at least 1.
pub proof fn lemma_fib_positive(n: int)
    ensures
        spec_fib(n) >= 1,
    decreases n,
{
    if n >= 2 {
        lemma_fib_positive(n - 1);
        lemma_fib_positive(n - 2);
    }
}

/// The Fibonacci sequence never decreases.
pub proof fn lemma_fib_monotonic(a: int, b: int)
    requires
        a <= b,
    ensures
        spec_fib(a) <= spec_fib(b),
    decreases b - a,
{
    if a < b {
        lemma_fib_monotonic(a, b - 1);
        if b >= 2 {
            lemma_fib_positive(b - 2);
        }
    }
}

/// Fibonacci by the plain exponential double recursion, as the
/// benchmark measures it; no memoization.
pub fn fib(n: i32) -> (r: i32)
    requires
        spec_fib(n as int) <= i32::MAX as int,
    ensures
        r == spec_fib(n as int),
    decreases n,
{
    if n < 2 {
        1
    } else {
        proof {
            lemma_fib_monotonic(n - 2, n as int);
            lemma_fib_monotonic(n - 1, n as int);
            lemma_fib_positive(n - 1);
            lemma_fib_positive(n - 2);
        }
        fib(n - 1) + fib(n - 2)
    }
}

/// One run of the integer Fibonacci kernel at the fixed argument.
pub fn run_fib()
{
    proof {
        reveal_with_fuel(spec_fib, 27);
        assert(spec_fib(FIB_ITER as int) == 121393);
    }
    fib(FIB_ITER);
}

} // verus!
