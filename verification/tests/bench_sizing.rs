use ntt_bench::bench::arith_op_count;

#[test]
fn op_count_multiplies_domain_blocks_and_threads() {
    assert_eq!(arith_op_count(2, 3, 4), Some(1200));
    assert_eq!(arith_op_count(0, 5, 7), Some(35));
    assert_eq!(arith_op_count(6, 128, 128), Some(16_384_000_000));
}

#[test]
fn op_count_is_zero_without_workers() {
    assert_eq!(arith_op_count(3, 0, 10), Some(0));
    assert_eq!(arith_op_count(3, 10, 0), Some(0));
}

#[test]
fn op_count_reports_overflow() {
    // 10^20 does not fit in a 64-bit word.
    assert_eq!(arith_op_count(20, 1, 1), None);
    // 10^19 fits, but doubling it does not.
    assert_eq!(arith_op_count(19, 2, 1), None);
    assert_eq!(arith_op_count(19, 1, 1), Some(10_000_000_000_000_000_000));
}
