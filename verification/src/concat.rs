//! String concatenation kernel: a growable buffer is rebuilt from
//! empty by appending a fixed nine-character literal a given number of
//! times, and its final length is checked against nine times that
//! count. The check is proved rather than tested: each run rebuilds
//! from empty, so the length never depends on earlier runs.

use vstd::prelude::*;
use vstd::string::StringExecFns;
use vstd::utf8::is_ascii_chars;

verus! {

/// The fixed literal repeated `n` times.
pub open spec fn spec_repeated_greeting(n: nat) -> Seq<char>
    decreases n,
{
    if n == 0 {
        Seq::empty()
    } else {
        spec_repeated_greeting((n - 1) as nat) + "hi there!"@
    }
}

/// The repetition is nine characters per copy, and all of it is ASCII,
/// so its UTF-8 encoding is one byte per character.
pub proof fn lemma_repeated_greeting_len(n: nat)
    ensures
        spec_repeated_greeting(n).len() == 9 * n,
        is_ascii_chars(spec_repeated_greeting(n)),
    decreases n,
{
    reveal_strlit("hi there!");
    assert(is_ascii_chars("hi there!"@));
    if n > 0 {
        lemma_repeated_greeting_len((n - 1) as nat);
        broadcast use vstd::utf8::is_ascii_chars_concat;

    }
}

/// Build one buffer by appending the fixed literal `size` times to an
/// initially empty string.
pub fn build_greeting_buffer(size: usize) -> (r: String)
    requires
        size * 9 <= usize::MAX,
    ensures
        r@ == spec_repeated_greeting(size as nat),
        r@.len() == 9 * size,
{
    let mut buf = String::new();
    let mut k: usize = 0;
    while k < size
        invariant
            k <= size,
            buf@ == spec_repeated_greeting(k as nat),
        decreases size - k,
    {
        buf.append("hi there!");
        k = k + 1;
    }
    proof {
        lemma_repeated_greeting_len(size as nat);
    }
    buf
}

/// Each run rebuilds the buffer from empty, so nothing accumulates
/// across runs: any two buffers built for the same count are equal.
pub proof fn lemma_concat_rebuilds_from_empty(size: usize, r1: String, r2: String)
    requires
        call_ensures(build_greeting_buffer, (size,), r1),
        call_ensures(build_greeting_buffer, (size,), r2),
    ensures
        r1@ == r2@,
{
}

/// The string-concatenation kernel: for each of `runs` repetitions,
/// rebuild the buffer from empty and check that its byte length equals
/// `size * 9`; the literal is ASCII, so bytes and characters agree.
pub fn bench_string_concat(size: usize, runs: i32)
    requires
        size * 9 <= usize::MAX,
{
    let mut run: i32 = 0;
    while run < runs
        invariant
            size * 9 <= usize::MAX,
        decreases runs - run,
    {
        let buf = build_greeting_buffer(size);
        let s = buf.as_str();
        let buflen: usize = s.len();
        proof {
            lemma_repeated_greeting_len(size as nat);
            broadcast use vstd::string::is_ascii_spec_bytes;

            assert(vstd::string::is_ascii(s));
        }
        assert(buflen == size * 9);
        run = run + 1;
    }
}

} // verus!
