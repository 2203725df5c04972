use cl_bench::crc::calculate_crc40;
use cl_bench::crc::compute_adjustment;
use cl_bench::crc::crc_division_step;
use cl_bench::crc::integer_length;
use cl_bench::crc::run_crc40;

#[test]
fn integer_length_small_values() {
    assert_eq!(integer_length(0), 0);
    assert_eq!(integer_length(1), 1);
    assert_eq!(integer_length(2), 2);
    assert_eq!(integer_length(7), 3);
    assert_eq!(integer_length(8), 4);
    assert_eq!(integer_length(-1), 0);
    assert_eq!(integer_length(-8), 3);
    assert_eq!(integer_length(-9), 4);
}

#[test]
fn integer_length_of_fixed_polynomial() {
    assert_eq!(integer_length(1099587256329), 41);
}

#[test]
fn division_step_without_reduction() {
    // register 0b0101 shifts a zero bit in and stays below the mask
    assert_eq!(crc_division_step(0, 0b0101, 0b1011, 0b10000), 0b1010);
    assert_eq!(crc_division_step(1, 0b0010, 0b1011, 0b10000), 0b0101);
}

#[test]
fn division_step_with_reduction() {
    // the shifted value 0b1010 has the masked bit set, so XOR the polynomial
    assert_eq!(crc_division_step(0, 0b0101, 0b1011, 0b1000), 0b0001);
    assert_eq!(crc_division_step(1, 0b0100, 0b1011, 0b1000), 0b0010);
}

#[test]
fn adjustment_of_small_polynomial() {
    // X^4 mod (X^3 + X + 1) = X^2 + X
    assert_eq!(compute_adjustment(0b1011, 5), 0b110);
}

#[test]
fn adjustment_with_no_extra_steps() {
    // only the seeded step runs: the remainder is X^0 = 1
    assert_eq!(compute_adjustment(0b1011, 1), 1);
    assert_eq!(compute_adjustment(0b1011, 0), 1);
}

#[test]
fn crc40_zero_iterations_returns_zero() {
    assert_eq!(calculate_crc40(0), 0);
}

#[test]
fn crc40_one_iteration_value() {
    assert_eq!(calculate_crc40(1), 549793628164);
}

#[test]
fn crc40_idempotent_across_iteration_counts() {
    assert_eq!(calculate_crc40(2), 549793628164);
}

#[test]
fn run_crc40_reports_the_expected_value() {
    assert!(run_crc40());
}
