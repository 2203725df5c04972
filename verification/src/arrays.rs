//! Dense 1D and 2D fill-and-sum kernels: buffers are filled with the
//! constants 1 and 2, summed elementwise into a third buffer, and the
//! sum is checked against 3. The consistency checks this benchmark
//! family traditionally performs at run time are proved here instead:
//! every summed element equals 3.

use vstd::prelude::*;

verus! {

/// Elementwise sum of two equal-length buffers, written in place over
/// the output buffer.
pub fn add_elementwise(ones: &Vec<u16>, twos: &Vec<u16>, threes: &mut Vec<u16>)
    requires
        ones@.len() == old(threes)@.len(),
        twos@.len() == old(threes)@.len(),
        forall|i: int| 0 <= i < ones@.len() ==> ones@[i] + twos@[i] <= u16::MAX,
    ensures
        final(threes)@.len() == old(threes)@.len(),
        forall|i: int| 0 <= i < final(threes)@.len()
            ==> final(threes)@[i] == ones@[i] + twos@[i],
{
    let mut pos: usize = 0;
    while pos < threes.len()
        invariant
            ones@.len() == threes@.len(),
            twos@.len() == threes@.len(),
            forall|i: int| 0 <= i < ones@.len() ==> ones@[i] + twos@[i] <= u16::MAX,
            pos <= threes@.len(),
            forall|i: int| 0 <= i < pos ==> threes@[i] == ones@[i] + twos@[i],
        decreases threes@.len() - pos,
    {
        threes[pos] = ones[pos] + twos[pos];
        pos = pos + 1;
    }
}

/// The 1D array kernel: fill two buffers of the given size with 1 and
/// 2, and for each of `runs` repetitions overwrite a third buffer with
/// their elementwise sum; every element of the sum equals 3, which the
/// benchmark convention treats as a fatal assertion and which is
/// proved here.
pub fn bench_1d_arrays(size: usize, runs: i32)
{
    let mut ones: Vec<u16> = Vec::new();
    let mut twos: Vec<u16> = Vec::new();
    let mut threes: Vec<u16> = Vec::new();
    let mut k: usize = 0;
    while k < size
        invariant
            k <= size,
            ones@.len() == k,
            twos@.len() == k,
            threes@.len() == k,
            forall|i: int| 0 <= i < k ==> ones@[i] == 1,
            forall|i: int| 0 <= i < k ==> twos@[i] == 2,
        decreases size - k,
    {
        ones.push(1);
        twos.push(2);
        threes.push(0);
        k = k + 1;
    }
    let mut run: i32 = 0;
    while run < runs
        invariant
            ones@.len() == size,
            twos@.len() == size,
            threes@.len() == size,
            forall|i: int| 0 <= i < size ==> ones@[i] == 1,
            forall|i: int| 0 <= i < size ==> twos@[i] == 2,
        decreases runs - run,
    {
        add_elementwise(&ones, &twos, &mut threes);
        let mut pos: usize = 0;
        while pos < threes.len()
            invariant
                threes@.len() == size,
                forall|i: int| 0 <= i < size ==> ones@[i] == 1,
                forall|i: int| 0 <= i < size ==> twos@[i] == 2,
                forall|i: int| 0 <= i < size ==> threes@[i] == ones@[i] + twos@[i],
            decreases threes@.len() - pos,
        {
            let elt: u16 = threes[pos];
            assert(elt == 3);
            pos = pos + 1;
        }
        run = run + 1;
    }
}

/// One run of the 1D array kernel at the fixed parameters.
pub fn run_bench_1d_arrays()
{
    bench_1d_arrays(100000, 10);
}

/// Every row of `m` has length `cols` and every entry equals `val`.
pub open spec fn matrix_filled(m: Seq<Vec<u16>>, rows: int, cols: int, val: u16) -> bool {
    &&& m.len() == rows
    &&& forall|r: int| 0 <= r < rows ==> (#[trigger] m[r])@.len() == cols
    &&& forall|r: int, c: int| 0 <= r < rows && 0 <= c < cols ==> #[trigger] m[r]@[c] == val
}

/// A row of the given length, every entry the given value.
fn filled_row(size: usize, val: u16) -> (r: Vec<u16>)
    ensures
        r@.len() == size,
        forall|i: int| 0 <= i < size ==> r@[i] == val,
{
    let mut v: Vec<u16> = Vec::new();
    let mut k: usize = 0;
    while k < size
        invariant
            k <= size,
            v@.len() == k,
            forall|i: int| 0 <= i < k ==> v@[i] == val,
        decreases size - k,
    {
        v.push(val);
        k = k + 1;
    }
    v
}

/// The 2D array kernel: fill two square matrices of the given size
/// with 1 and 2, and for each of `runs` repetitions overwrite a third
/// matrix with their elementwise sum; the kernel then checks only
/// the single element at row 3, column 3 against 3, a read that is out
/// of bounds unless the size exceeds 3, so any run demands such a
/// size.
pub fn bench_2d_arrays(size: usize, runs: u32)
    requires
        runs == 0 || size > 3,
{
    let mut ones: Vec<Vec<u16>> = Vec::new();
    let mut twos: Vec<Vec<u16>> = Vec::new();
    let mut threes: Vec<Vec<u16>> = Vec::new();
    let mut k: usize = 0;
    while k < size
        invariant
            k <= size,
            matrix_filled(ones@, k as int, size as int, 1),
            matrix_filled(twos@, k as int, size as int, 2),
            matrix_filled(threes@, k as int, size as int, 0),
        decreases size - k,
    {
        ones.push(filled_row(size, 1));
        twos.push(filled_row(size, 2));
        threes.push(filled_row(size, 0));
        k = k + 1;
    }
    let mut run: u32 = 0;
    while run < runs
        invariant
            run <= runs,
            run < runs ==> size > 3,
            matrix_filled(ones@, size as int, size as int, 1),
            matrix_filled(twos@, size as int, size as int, 2),
            threes@.len() == size,
            forall|r: int| 0 <= r < size ==> (#[trigger] threes@[r])@.len() == size,
        decreases runs - run,
    {
        let mut i: usize = 0;
        while i < size
            invariant
                i <= size,
                matrix_filled(ones@, size as int, size as int, 1),
                matrix_filled(twos@, size as int, size as int, 2),
                threes@.len() == size,
                forall|r: int| 0 <= r < size ==> (#[trigger] threes@[r])@.len() == size,
                forall|r: int, c: int| 0 <= r < i && 0 <= c < size
                    ==> #[trigger] threes@[r]@[c] == 3,
            decreases size - i,
        {
            let mut j: usize = 0;
            while j < size
                invariant
                    i < size,
                    j <= size,
                    matrix_filled(ones@, size as int, size as int, 1),
                    matrix_filled(twos@, size as int, size as int, 2),
                    threes@.len() == size,
                    forall|r: int| 0 <= r < size ==> (#[trigger] threes@[r])@.len() == size,
                    forall|r: int, c: int| 0 <= r < i && 0 <= c < size
                        ==> #[trigger] threes@[r]@[c] == 3,
                    forall|c: int| 0 <= c < j ==> #[trigger] threes@[i as int]@[c] == 3,
                decreases size - j,
            {
                threes[i][j] = ones[i][j] + twos[i][j];
                j = j + 1;
            }
            i = i + 1;
        }
        let elt: u16 = threes[3][3];
        assert(elt == 3);
        run = run + 1;
    }
}

/// One run of the 2D array kernel at the fixed parameters.
pub fn run_bench_2d_arrays()
{
    bench_2d_arrays(2000, 10);
}

} // verus!
