//! Integer arithmetic and comparison as the machine defines them: quotients
//! round toward zero, and a result outside the 64-bit range is an error.

use vstd::prelude::*;
use crate::inst::{ArithOp, CmpOp, Fault};

verus! {

pub open spec fn abs(a: int) -> int {
    if a < 0 {
        -a
    } else {
        a
    }
}

/// The quotient of `a` by `b`, rounded toward zero.
pub open spec fn trunc_div(a: int, b: int) -> int {
    let q = abs(a) / abs(b);
    if (a < 0) != (b < 0) {
        -q
    } else {
        q
    }
}

/// The remainder that goes with `trunc_div`.
pub open spec fn trunc_rem(a: int, b: int) -> int {
    a - b * trunc_div(a, b)
}

pub open spec fn in_i64(x: int) -> bool {
    i64::MIN <= x <= i64::MAX
}

/// The exact result of an integer operation, before the range check.
pub open spec fn int_result(op: ArithOp, a: int, b: int) -> int {
    match op {
        ArithOp::Add => a + b,
        ArithOp::Sub => a - b,
        ArithOp::Mul => a * b,
        ArithOp::Div => trunc_div(a, b),
        ArithOp::Mod => trunc_rem(a, b),
    }
}

/// An integer operation: division and remainder by zero fail, and so does a
/// result that does not fit in 64 bits.
pub open spec fn int_arith(op: ArithOp, a: i64, b: i64) -> Result<i64, Fault> {
    if (op is Div || op is Mod) && b == 0 {
        Err(Fault::DivisionByZero)
    } else if !in_i64(int_result(op, a as int, b as int)) {
        Err(Fault::IntegerOverflow)
    } else {
        Ok(int_result(op, a as int, b as int) as i64)
    }
}

/// An integer comparison.
pub open spec fn int_compare(op: CmpOp, a: i64, b: i64) -> bool {
    match op {
        CmpOp::Eq => a == b,
        CmpOp::Ne => a != b,
        CmpOp::Gt => a > b,
        CmpOp::Lt => a < b,
        CmpOp::Gte => a >= b,
        CmpOp::Lte => a <= b,
    }
}

proof fn lemma_trunc_rem_bounds(a: int, b: int)
    requires
        b != 0,
    ensures
        abs(trunc_rem(a, b)) < abs(b),
        a >= 0 ==> trunc_rem(a, b) >= 0,
        a <= 0 ==> trunc_rem(a, b) <= 0,
        abs(b * trunc_div(a, b)) <= abs(a),
{
    let q = abs(a) / abs(b);
    let r = abs(a) % abs(b);
    vstd::arithmetic::div_mod::lemma_fundamental_div_mod(abs(a), abs(b));
    assert(abs(a) == abs(b) * q + r);
    assert(0 <= r < abs(b));
    assert(q >= 0) by {
        vstd::arithmetic::div_mod::lemma_div_pos_is_pos(abs(a), abs(b));
    }
    assert(abs(b) * q >= 0) by (nonlinear_arith)
        requires
            abs(b) > 0,
            q >= 0,
    ;
    if b < 0 {
        assert(b * q == -(abs(b) * q)) by (nonlinear_arith)
            requires
                abs(b) == -b,
        ;
        assert(b * (-q) == abs(b) * q) by (nonlinear_arith)
            requires
                abs(b) == -b,
        ;
    } else {
        assert(b * (-q) == -(abs(b) * q)) by (nonlinear_arith)
            requires
                abs(b) == b,
        ;
    }
}

proof fn lemma_trunc_as_abs(a: int, b: int)
    requires
        b != 0,
    ensures
        a >= 0 ==> trunc_rem(a, b) == abs(a) % abs(b),
        a < 0 ==> trunc_rem(a, b) == -(abs(a) % abs(b)),
        a == 0 ==> trunc_div(a, b) == 0,
{
    let q = abs(a) / abs(b);
    vstd::arithmetic::div_mod::lemma_fundamental_div_mod(abs(a), abs(b));
    vstd::arithmetic::div_mod::lemma_div_basics(abs(b));
    if b < 0 {
        assert(b * q == -(abs(b) * q)) by (nonlinear_arith)
            requires
                abs(b) == -b,
        ;
        assert(b * (-q) == abs(b) * q) by (nonlinear_arith)
            requires
                abs(b) == -b,
        ;
    } else {
        assert(b * (-q) == -(abs(b) * q)) by (nonlinear_arith)
            requires
                abs(b) == b,
        ;
    }
}

/// Dividing by a non-zero `b` and multiplying the quotient by `b` gives
/// back `a` rounded toward zero to a multiple of `b`: what is lost is the
/// remainder, which is smaller than `b` in size and has the sign of `a`.
/// Whenever the quotient fits in 64 bits, so does that product.
pub proof fn lemma_div_then_mul(a: i64, b: i64)
    requires
        b != 0,
    ensures
        int_arith(ArithOp::Div, a, b) is Ok ==> int_arith(
            ArithOp::Mul,
            int_arith(ArithOp::Div, a, b)->Ok_0,
            b,
        ) == Ok::<i64, Fault>((a - trunc_rem(a as int, b as int)) as i64),
        int_arith(ArithOp::Div, a, b) is Ok <==> !(a == i64::MIN && b == -1),
        abs(trunc_rem(a as int, b as int)) < abs(b as int),
        a >= 0 ==> trunc_rem(a as int, b as int) >= 0,
        a <= 0 ==> trunc_rem(a as int, b as int) <= 0,
        int_arith(ArithOp::Div, a, 0) == Err::<i64, Fault>(Fault::DivisionByZero),
{
    lemma_trunc_rem_bounds(a as int, b as int);
    let q = trunc_div(a as int, b as int);
    if a == i64::MIN && b == -1 {
        assert(q == 0x8000_0000_0000_0000int);
    } else {
        assert(in_i64(q)) by {
            if b == -1 || b == 1 {
                vstd::arithmetic::div_mod::lemma_div_basics(abs(a as int));
            } else {
                vstd::arithmetic::div_mod::lemma_div_pos_is_pos(abs(a as int), abs(b as int));
                vstd::arithmetic::div_mod::lemma_div_nonincreasing(abs(a as int), abs(b as int));
                if abs(a as int) > 0 {
                    vstd::arithmetic::div_mod::lemma_div_decreases(abs(a as int), abs(b as int));
                }
            }
        }
        assert(q * b == b * q) by (nonlinear_arith);
    }
}

/// Executes an integer operation.
pub fn int_arith_exec(op: ArithOp, a: i64, b: i64) -> (r: Result<i64, Fault>)
    ensures
        r == int_arith(op, a, b),
{
    match op {
        ArithOp::Add => match a.checked_add(b) {
            Some(x) => Ok(x),
            None => Err(Fault::IntegerOverflow),
        },
        ArithOp::Sub => match a.checked_sub(b) {
            Some(x) => Ok(x),
            None => Err(Fault::IntegerOverflow),
        },
        ArithOp::Mul => match a.checked_mul(b) {
            Some(x) => Ok(x),
            None => Err(Fault::IntegerOverflow),
        },
        ArithOp::Div => {
            if b == 0 {
                Err(Fault::DivisionByZero)
            } else {
                proof {
                    lemma_trunc_as_abs(a as int, b as int);
                }
                match a.checked_div(b) {
                    Some(x) => Ok(x),
                    None => Err(Fault::IntegerOverflow),
                }
            }
        },
        ArithOp::Mod => {
            if b == 0 {
                Err(Fault::DivisionByZero)
            } else if b == -1 {
                proof {
                    assert(trunc_div(a as int, -1) == -(a as int)) by {
                        vstd::arithmetic::div_mod::lemma_div_basics(abs(a as int));
                    }
                    assert(trunc_rem(a as int, -1) == 0);
                }
                Ok(0)
            } else {
                proof {
                    lemma_trunc_rem_bounds(a as int, b as int);
                    lemma_trunc_as_abs(a as int, b as int);
                    if a == 0 {
                        vstd::arithmetic::div_mod::lemma_small_mod(0, abs(b as int) as nat);
                    }
                }
                match a.checked_rem(b) {
                    Some(x) => Ok(x),
                    None => Err(Fault::IntegerOverflow),
                }
            }
        },
    }
}

/// Executes an integer comparison.
pub fn int_compare_exec(op: CmpOp, a: i64, b: i64) -> (r: bool)
    ensures
        r == int_compare(op, a, b),
{
    match op {
        CmpOp::Eq => a == b,
        CmpOp::Ne => a != b,
        CmpOp::Gt => a > b,
        CmpOp::Lt => a < b,
        CmpOp::Gte => a >= b,
        CmpOp::Lte => a <= b,
    }
}

} // verus!
