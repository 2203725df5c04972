//! The Takeuchi function, in the variant that returns its third
//! argument when the first does not exceed the second.
//!
//! The recursion is famously nested: the fourth recursive call takes
//! the results of the first three as its arguments. Its value admits a
//! short closed form (`spec_tak`), case-split on the ordering of the
//! arguments and on parities of their differences;
//! `lemma_tak_recurrence` proves that this closed form satisfies the
//! Takeuchi recurrence, and the executable recursion is measured by a
//! four-component lexicographic bound over clamped differences.

use vstd::prelude::*;

verus! {

/// `a - b`, clamped to zero when negative.
pub open spec fn pos_diff(a: int, b: int) -> int {
    if a > b {
        a - b
    } else {
        0
    }
}

/// The smallest of three values.
pub open spec fn min3(a: int, b: int, c: int) -> int {
    if a <= b && a <= c {
        a
    } else if b <= c {
        b
    } else {
        c
    }
}

/// Closed form of the Takeuchi function.
pub open spec fn spec_tak(x: int, y: int, z: int) -> int {
    if x <= y {
        z
    } else if z < y {
        if (x - y) % 2 == 1 {
            y
        } else {
            z + 1
        }
    } else if x == y + 1 {
        if z <= x {
            y
        } else {
            x
        }
    } else if z <= x + 1 {
        y
    } else if (z - x) % 2 == 0 {
        x
    } else {
        y + 1
    }
}

/// First component of the termination measure.
pub open spec fn tak_measure_a(x: int, y: int, z: int) -> int {
    pos_diff(z, y) + pos_diff(x, z)
}

/// Second component of the termination measure.
pub open spec fn tak_measure_b(x: int, y: int, z: int) -> int {
    pos_diff(y, z + 1)
}

/// Third component of the termination measure.
pub open spec fn tak_measure_c(x: int, y: int, z: int) -> int {
    pos_diff(x, y)
}

/// Fourth component of the termination measure.
pub open spec fn tak_measure_d(x: int, y: int, z: int) -> int {
    pos_diff(z, x)
}

/// The measure of `(u, v, w)` lies lexicographically below that of
/// `(x, y, z)`.
pub open spec fn tak_measure_lt(u: int, v: int, w: int, x: int, y: int, z: int) -> bool {
    ||| tak_measure_a(u, v, w) < tak_measure_a(x, y, z)
    ||| (tak_measure_a(u, v, w) == tak_measure_a(x, y, z) && ({
        ||| tak_measure_b(u, v, w) < tak_measure_b(x, y, z)
        ||| (tak_measure_b(u, v, w) == tak_measure_b(x, y, z) && ({
            ||| tak_measure_c(u, v, w) < tak_measure_c(x, y, z)
            ||| (tak_measure_c(u, v, w) == tak_measure_c(x, y, z)
                && tak_measure_d(u, v, w) < tak_measure_d(x, y, z))
        }))
    }))
}

/// The closed form satisfies the Takeuchi recurrence, the four
/// recursive calls it induces all descend in the lexicographic
/// measure, and when the nested call recurses in turn, its arguments
/// stay at or above the smallest of the three outer arguments.
pub proof fn lemma_tak_recurrence(x: int, y: int, z: int)
    requires
        y < x,
    ensures
        ({
            let a = spec_tak(x - 1, y, z);
            let b = spec_tak(y - 1, z, x);
            let c = spec_tak(z - 1, x, y);
            &&& spec_tak(a, b, c) == spec_tak(x, y, z)
            &&& tak_measure_lt(x - 1, y, z, x, y, z)
            &&& tak_measure_lt(y - 1, z, x, x, y, z)
            &&& tak_measure_lt(z - 1, x, y, x, y, z)
            &&& tak_measure_lt(a, b, c, x, y, z)
            &&& (b < a ==> min3(a, b, c) >= min3(x, y, z))
        }),
{
}

/// The Takeuchi function by its plain nested recursion, as the
/// benchmark measures it. Recursion decrements each argument, so when
/// the function recurses at all, the arguments must sit strictly above
/// the smallest machine integer.
pub fn tak(x: i32, y: i32, z: i32) -> (r: i32)
    requires
        y < x ==> x > i32::MIN && y > i32::MIN && z > i32::MIN,
    ensures
        r == spec_tak(x as int, y as int, z as int),
    decreases
        tak_measure_a(x as int, y as int, z as int),
        tak_measure_b(x as int, y as int, z as int),
        tak_measure_c(x as int, y as int, z as int),
        tak_measure_d(x as int, y as int, z as int),
{
    if !(y < x) {
        z
    } else {
        proof {
            lemma_tak_recurrence(x as int, y as int, z as int);
        }
        let a = tak(x - 1, y, z);
        let b = tak(y - 1, z, x);
        let c = tak(z - 1, x, y);
        tak(a, b, c)
    }
}

/// One run of the Takeuchi kernel at the fixed arguments.
pub fn run_tak()
{
    tak(18, 12, 6);
}

} // verus!
