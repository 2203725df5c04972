//! The list-based Takeuchi variant: each "number" is a list whose
//! length carries the value, compared by simultaneous recursive
//! descent rather than by computing lengths, and decremented by taking
//! a freshly copied tail. The result's length equals the integer
//! Takeuchi value of the three input lengths (`spec_tak`).

use vstd::prelude::*;
use crate::tak::spec_tak;
use crate::tak::tak_measure_a;
use crate::tak::tak_measure_b;
use crate::tak::tak_measure_c;
use crate::tak::tak_measure_d;
use crate::tak::lemma_tak_recurrence;

verus! {

/// A placeholder list of the given length; element values are
/// irrelevant to the algorithm, only the length matters.
pub fn listn(n: usize) -> (r: Vec<usize>)
    ensures
        r@.len() == n,
        forall|i: int| 0 <= i < n ==> r@[i] == 0,
{
    let mut v: Vec<usize> = Vec::new();
    let mut k: usize = 0;
    while k < n
        invariant
            k <= n,
            v@.len() == k,
            forall|i: int| 0 <= i < k ==> v@[i] == 0,
        decreases n - k,
    {
        v.push(0);
        k = k + 1;
    }
    v
}

/// A fresh copy of the whole list.
fn copy_list(v: &Vec<usize>) -> (r: Vec<usize>)
    ensures
        r@ == v@,
{
    let mut r: Vec<usize> = Vec::new();
    let mut k: usize = 0;
    while k < v.len()
        invariant
            k <= v@.len(),
            r@ == v@.subrange(0, k as int),
        decreases v@.len() - k,
    {
        r.push(v[k]);
        k = k + 1;
        proof {
            assert(r@ =~= v@.subrange(0, k as int));
        }
    }
    proof {
        assert(r@ =~= v@);
    }
    r
}

/// A fresh copy of the list without its first element.
fn tail_copy(v: &Vec<usize>) -> (r: Vec<usize>)
    requires
        v@.len() >= 1,
    ensures
        r@ == v@.subrange(1, v@.len() as int),
{
    let mut r: Vec<usize> = Vec::new();
    let mut k: usize = 1;
    while k < v.len()
        invariant
            1 <= k <= v@.len(),
            r@ == v@.subrange(1, k as int),
        decreases v@.len() - k,
    {
        r.push(v[k]);
        k = k + 1;
        proof {
            assert(r@ =~= v@.subrange(1, k as int));
        }
    }
    r
}

/// `r` is a contiguous tail of `s`.
pub open spec fn is_suffix_of(r: Seq<usize>, s: Seq<usize>) -> bool {
    exists|k: int| 0 <= k <= s.len() && r == s.skip(k)
}

/// A tail of a tail is a tail.
proof fn lemma_suffix_trans(a: Seq<usize>, b: Seq<usize>, c: Seq<usize>)
    requires
        is_suffix_of(a, b),
        is_suffix_of(b, c),
    ensures
        is_suffix_of(a, c),
{
    let k1 = choose|k: int| 0 <= k <= b.len() && a == b.skip(k);
    let k2 = choose|k: int| 0 <= k <= c.len() && b == c.skip(k);
    assert(c.skip(k2).skip(k1) =~= c.skip(k2 + k1));
    assert(a == c.skip(k2 + k1));
}

/// What is a tail of the first list's own tail, or of one of the two
/// others, is a tail of one of the three lists.
proof fn lemma_suffix_step(r: Seq<usize>, t: Seq<usize>, u: Seq<usize>, v: Seq<usize>, x: Seq<usize>)
    requires
        x.len() >= 1,
        t == x.skip(1),
        is_suffix_of(r, t) || is_suffix_of(r, u) || is_suffix_of(r, v),
    ensures
        is_suffix_of(r, x) || is_suffix_of(r, u) || is_suffix_of(r, v),
{
    if is_suffix_of(r, t) {
        lemma_suffix_trans(r, t, x);
    }
}

/// A tail of a list that is itself a tail of one of three lists is a
/// tail of one of the three.
proof fn lemma_suffix_through(r: Seq<usize>, m: Seq<usize>, x: Seq<usize>, y: Seq<usize>, z: Seq<usize>)
    requires
        is_suffix_of(r, m),
        is_suffix_of(m, x) || is_suffix_of(m, y) || is_suffix_of(m, z),
    ensures
        is_suffix_of(r, x) || is_suffix_of(r, y) || is_suffix_of(r, z),
{
    if is_suffix_of(m, x) {
        lemma_suffix_trans(r, m, x);
    } else if is_suffix_of(m, y) {
        lemma_suffix_trans(r, m, y);
    } else {
        lemma_suffix_trans(r, m, z);
    }
}

/// Length comparison by simultaneous recursive descent: true exactly
/// when `x` is the shorter list.
pub fn shorterp(x: Vec<usize>, y: Vec<usize>) -> (r: bool)
    ensures
        r == (x@.len() < y@.len()),
    decreases y@.len(),
{
    if y.len() == 0 {
        false
    } else if x.len() == 0 {
        true
    } else {
        shorterp(tail_copy(&x), tail_copy(&y))
    }
}

/// The Takeuchi recursion over lists, recursing on freshly copied
/// tails; the result is a list whose length is the Takeuchi value of
/// the three input lengths. Recursion shortens each list, so when the
/// function recurses at all, the second and third list must be
/// non-empty.
pub fn mas(x: Vec<usize>, y: Vec<usize>, z: Vec<usize>) -> (r: Vec<usize>)
    requires
        y@.len() < x@.len() ==> y@.len() >= 1 && z@.len() >= 1,
    ensures
        r@.len() == spec_tak(x@.len() as int, y@.len() as int, z@.len() as int),
        is_suffix_of(r@, x@) || is_suffix_of(r@, y@) || is_suffix_of(r@, z@),
    decreases
        tak_measure_a(x@.len() as int, y@.len() as int, z@.len() as int),
        tak_measure_b(x@.len() as int, y@.len() as int, z@.len() as int),
        tak_measure_c(x@.len() as int, y@.len() as int, z@.len() as int),
        tak_measure_d(x@.len() as int, y@.len() as int, z@.len() as int),
{
    if !shorterp(copy_list(&y), copy_list(&x)) {
        proof {
            assert(z@.skip(0) =~= z@);
        }
        z
    } else {
        proof {
            lemma_tak_recurrence(x@.len() as int, y@.len() as int, z@.len() as int);
        }
        let a = mas(tail_copy(&x), copy_list(&y), copy_list(&z));
        let b = mas(tail_copy(&y), copy_list(&z), copy_list(&x));
        let c = mas(tail_copy(&z), copy_list(&x), copy_list(&y));
        proof {
            assert(x@.subrange(1, x@.len() as int) =~= x@.skip(1));
            assert(y@.subrange(1, y@.len() as int) =~= y@.skip(1));
            assert(z@.subrange(1, z@.len() as int) =~= z@.skip(1));
            lemma_suffix_step(a@, x@.skip(1), y@, z@, x@);
            lemma_suffix_step(b@, y@.skip(1), z@, x@, y@);
            lemma_suffix_step(c@, z@.skip(1), x@, y@, z@);
        }
        let r = mas(a, b, c);
        proof {
            if is_suffix_of(r@, a@) {
                lemma_suffix_through(r@, a@, x@, y@, z@);
            } else if is_suffix_of(r@, b@) {
                lemma_suffix_through(r@, b@, x@, y@, z@);
            } else {
                lemma_suffix_through(r@, c@, x@, y@, z@);
            }
        }
        r
    }
}

/// One run of the list-based Takeuchi kernel at the fixed lengths.
pub fn run_takl()
{
    mas(listn(18), listn(12), listn(6));
}

/// The list-based variant agrees with the integer Takeuchi function:
/// whenever the three list lengths equal the three integer arguments,
/// the length of what `mas` returns equals what `tak` returns.
pub proof fn lemma_takl_matches_tak(
    x: Vec<usize>,
    y: Vec<usize>,
    z: Vec<usize>,
    xi: i32,
    yi: i32,
    zi: i32,
    rl: Vec<usize>,
    ri: i32,
)
    requires
        x@.len() == xi,
        y@.len() == yi,
        z@.len() == zi,
        call_ensures(mas, (x, y, z), rl),
        call_ensures(crate::tak::tak, (xi, yi, zi), ri),
    ensures
        rl@.len() == ri,
{
}

} // verus!
