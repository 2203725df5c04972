use cl_bench::ackermann::ackermann;
use cl_bench::arrays::add_elementwise;
use cl_bench::arrays::bench_1d_arrays;
use cl_bench::arrays::bench_2d_arrays;
use cl_bench::arrays::run_bench_1d_arrays;
use cl_bench::concat::bench_string_concat;
use cl_bench::concat::build_greeting_buffer;
use cl_bench::fib::fib;
use cl_bench::fib::run_fib;
use cl_bench::tak::run_tak;
use cl_bench::tak::tak;
use cl_bench::takl::listn;
use cl_bench::takl::mas;
use cl_bench::takl::run_takl;
use cl_bench::takl::shorterp;

#[test]
fn fib_base_cases_are_one() {
    assert_eq!(fib(0), 1);
    assert_eq!(fib(1), 1);
    assert_eq!(fib(-3), 1);
}

#[test]
fn fib_ten_is_eighty_nine() {
    assert_eq!(fib(10), 89);
}

#[test]
fn fib_at_fixed_argument() {
    assert_eq!(fib(25), 121393);
}

#[test]
fn run_fib_completes() {
    run_fib();
}

#[test]
fn ackermann_two_two_is_seven() {
    assert_eq!(ackermann(2, 2), 7);
}

#[test]
fn ackermann_three_three_is_sixty_one() {
    assert_eq!(ackermann(3, 3), 61);
}

#[test]
fn ackermann_small_table() {
    assert_eq!(ackermann(0, 0), 1);
    assert_eq!(ackermann(1, 0), 2);
    assert_eq!(ackermann(1, 5), 7);
    assert_eq!(ackermann(2, 3), 9);
}

#[test]
fn tak_fixed_arguments() {
    assert_eq!(tak(18, 12, 6), 7);
}

#[test]
fn tak_base_case_returns_third() {
    assert_eq!(tak(3, 7, 11), 11);
    assert_eq!(tak(5, 5, -2), -2);
}

#[test]
fn run_tak_completes() {
    run_tak();
}

#[test]
fn takl_matches_tak_on_fixed_lengths() {
    let r = mas(listn(18), listn(12), listn(6));
    assert_eq!(r.len() as i32, tak(18, 12, 6));
    assert_eq!(r.len(), 7);
}

#[test]
fn takl_base_case_returns_third_list() {
    let r = mas(listn(2), listn(5), listn(9));
    assert_eq!(r.len(), 9);
}

#[test]
fn takl_result_is_a_tail_of_an_input() {
    let r = mas(vec![1, 2, 3], vec![9], vec![7, 8]);
    assert_eq!(r, vec![9]);
    let r = mas(vec![1, 2, 3, 4, 5], vec![10, 20, 30], vec![40, 50]);
    assert_eq!(r, vec![10, 20, 30]);
}

#[test]
fn shorterp_compares_lengths() {
    assert!(shorterp(listn(2), listn(3)));
    assert!(!shorterp(listn(3), listn(3)));
    assert!(!shorterp(listn(4), listn(3)));
    assert!(shorterp(listn(0), listn(1)));
    assert!(!shorterp(listn(0), listn(0)));
}

#[test]
fn run_takl_completes() {
    run_takl();
}

#[test]
fn add_elementwise_sums_exactly() {
    let a: Vec<u16> = vec![1, 1, 1];
    let b: Vec<u16> = vec![2, 2, 2];
    let mut c: Vec<u16> = vec![0, 0, 0];
    add_elementwise(&a, &b, &mut c);
    assert_eq!(c, vec![3, 3, 3]);

    let a: Vec<u16> = vec![5, 70];
    let b: Vec<u16> = vec![8, 900];
    let mut c: Vec<u16> = vec![0, 0];
    add_elementwise(&a, &b, &mut c);
    assert_eq!(c, vec![13, 970]);
}

#[test]
fn one_dimensional_kernel_runs_on_small_sizes() {
    bench_1d_arrays(0, 3);
    bench_1d_arrays(1, 1);
    bench_1d_arrays(257, 4);
}

#[test]
fn one_dimensional_kernel_at_fixed_parameters() {
    run_bench_1d_arrays();
}

#[test]
fn two_dimensional_kernel_runs_on_small_sizes() {
    bench_2d_arrays(4, 2);
    bench_2d_arrays(17, 3);
}

#[test]
fn two_dimensional_kernel_with_no_runs_allows_any_size() {
    bench_2d_arrays(0, 0);
    bench_2d_arrays(2, 0);
}

#[test]
fn greeting_buffer_length_is_nine_per_copy() {
    assert_eq!(build_greeting_buffer(0).len(), 0);
    assert_eq!(build_greeting_buffer(1).len(), 9);
    assert_eq!(build_greeting_buffer(3).len(), 27);
    assert_eq!(build_greeting_buffer(1000).len(), 9000);
}

#[test]
fn greeting_buffer_holds_the_literal() {
    assert_eq!(build_greeting_buffer(2).as_str(), "hi there!hi there!");
}

#[test]
fn string_concat_kernel_runs() {
    bench_string_concat(0, 5);
    bench_string_concat(1000, 3);
}
