use actor_vm::arith::{int_arith_exec, int_compare_exec};
use actor_vm::inst::{ArithOp, CmpOp, Fault};

#[test]
fn division_truncates_toward_zero() {
    assert_eq!(int_arith_exec(ArithOp::Div, 7, 2), Ok(3));
    assert_eq!(int_arith_exec(ArithOp::Div, -7, 2), Ok(-3));
    assert_eq!(int_arith_exec(ArithOp::Div, 7, -2), Ok(-3));
    assert_eq!(int_arith_exec(ArithOp::Div, -7, -2), Ok(3));
    assert_eq!(int_arith_exec(ArithOp::Mod, -7, 2), Ok(-1));
    assert_eq!(int_arith_exec(ArithOp::Mod, 7, -2), Ok(1));
}

#[test]
fn div_then_mul_recovers_truncated_value() {
    for (a, b) in [(-7i64, 2i64), (7, 3), (100, -7), (-1, 5), (i64::MIN, 2), (i64::MAX, -3)] {
        let q = int_arith_exec(ArithOp::Div, a, b).unwrap();
        let back = int_arith_exec(ArithOp::Mul, q, b).unwrap();
        let r = int_arith_exec(ArithOp::Mod, a, b).unwrap();
        assert_eq!(back, a - r);
        assert!(r.abs() < b.abs());
    }
}

#[test]
fn division_by_zero_is_an_error() {
    assert_eq!(int_arith_exec(ArithOp::Div, 5, 0), Err(Fault::DivisionByZero));
    assert_eq!(int_arith_exec(ArithOp::Mod, 5, 0), Err(Fault::DivisionByZero));
}

#[test]
fn overflow_is_an_error() {
    assert_eq!(int_arith_exec(ArithOp::Add, i64::MAX, 1), Err(Fault::IntegerOverflow));
    assert_eq!(int_arith_exec(ArithOp::Sub, i64::MIN, 1), Err(Fault::IntegerOverflow));
    assert_eq!(int_arith_exec(ArithOp::Mul, i64::MAX, 2), Err(Fault::IntegerOverflow));
    assert_eq!(int_arith_exec(ArithOp::Div, i64::MIN, -1), Err(Fault::IntegerOverflow));
    assert_eq!(int_arith_exec(ArithOp::Mod, i64::MIN, -1), Ok(0));
}

#[test]
fn plain_results() {
    assert_eq!(int_arith_exec(ArithOp::Add, 123, 123), Ok(246));
    assert_eq!(int_arith_exec(ArithOp::Sub, 3, 10), Ok(-7));
    assert_eq!(int_arith_exec(ArithOp::Mul, -4, 6), Ok(-24));
    assert!(int_compare_exec(CmpOp::Lt, -1, 0));
    assert!(!int_compare_exec(CmpOp::Gt, -1, 0));
    assert!(int_compare_exec(CmpOp::Gte, 2, 2));
    assert!(int_compare_exec(CmpOp::Lte, 2, 2));
    assert!(int_compare_exec(CmpOp::Ne, 1, 2));
    assert!(!int_compare_exec(CmpOp::Eq, 1, 2));
}
