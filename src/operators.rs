//! The primitive operators on values, and the text of a value in a string
//! concatenation.
use vstd::prelude::*;
use vstd::string::StringExecFns;

use crate::semantics::{
    BinOp, Fault, apply_spec, decimal, decimal_nat, digit_char, div_trunc, in_i64, int_op_spec,
    rem_trunc, show, sum_spec,
};
use crate::value::{Datum, Value};

verus! {

/// The view of an operator's outcome.
pub open spec fn outcome_view<'a>(r: Result<Value<'a>, Fault>) -> Result<Datum, Fault> {
    match r {
        Ok(v) => Ok(v.view()),
        Err(f) => Err(f),
    }
}

fn digit_str(d: u64) -> (s: &'static str)
    requires
        d < 10,
    ensures
        s@ == seq![digit_char(d as nat)],
{
    if d == 0 {
        proof { reveal_strlit("0"); }
        "0"
    } else if d == 1 {
        proof { reveal_strlit("1"); }
        "1"
    } else if d == 2 {
        proof { reveal_strlit("2"); }
        "2"
    } else if d == 3 {
        proof { reveal_strlit("3"); }
        "3"
    } else if d == 4 {
        proof { reveal_strlit("4"); }
        "4"
    } else if d == 5 {
        proof { reveal_strlit("5"); }
        "5"
    } else if d == 6 {
        proof { reveal_strlit("6"); }
        "6"
    } else if d == 7 {
        proof { reveal_strlit("7"); }
        "7"
    } else if d == 8 {
        proof { reveal_strlit("8"); }
        "8"
    } else {
        proof { reveal_strlit("9"); }
        "9"
    }
}

/// The decimal digits of `n`.
pub(crate) fn decimal_u64(n: u64) -> (s: String)
    ensures
        s@ == decimal_nat(n as nat),
{
    let mut s = String::from_str(digit_str(n % 10));
    let mut k: u64 = n / 10;
    while k > 0
        invariant
            k == 0 ==> s@ == decimal_nat(n as nat),
            k > 0 ==> decimal_nat(n as nat) == decimal_nat(k as nat) + s@,
        decreases k,
    {
        let ghost old_s = s@;
        let d = String::from_str(digit_str(k % 10));
        s = d.concat(s.as_str());
        proof {
            if k >= 10 {
                assert(decimal_nat(k as nat) == decimal_nat((k / 10) as nat).push(
                    digit_char((k % 10) as nat),
                ));
                assert(decimal_nat(n as nat) =~= decimal_nat((k / 10) as nat) + s@);
            } else {
                assert(decimal_nat(n as nat) =~= s@);
            }
        }
        k = k / 10;
    }
    proof {
        if n >= 10 {
            assert(decimal_nat(n as nat) =~= decimal_nat((n / 10) as nat).push(
                digit_char((n % 10) as nat),
            ));
        }
    }
    s
}

/// The decimal form of `i`.
pub fn decimal_string(i: i64) -> (s: String)
    ensures
        s@ == decimal(i as int),
{
    if i < 0 {
        let magnitude: u64 = ((-(i + 1)) as u64) + 1;
        let digits = decimal_u64(magnitude);
        proof { reveal_strlit("-"); }
        let s = String::from_str("-").concat(digits.as_str());
        assert(s@ =~= seq!['-'] + decimal_nat((-i) as nat));
        s
    } else {
        decimal_u64(i as u64)
    }
}

/// The text of a value in a string concatenation.
pub fn show_value(v: &Value) -> (s: String)
    ensures
        s@ == show(v.view()),
{
    match v {
        Value::Unit => {
            proof { reveal_strlit("unit"); }
            String::from_str("unit")
        },
        Value::Int(i) => decimal_string(*i),
        Value::Bool(b) => if *b {
            proof { reveal_strlit("true"); }
            String::from_str("true")
        } else {
            proof { reveal_strlit("false"); }
            String::from_str("false")
        },
        Value::Str(s) => s.clone(),
        Value::List(_) => {
            proof { reveal_strlit("list"); }
            String::from_str("list")
        },
        Value::Fn(_) => {
            proof { reveal_strlit("function"); }
            String::from_str("function")
        },
        Value::Label(_) => {
            proof { reveal_strlit("continuation"); }
            String::from_str("continuation")
        },
    }
}

/// `+` on two values.
pub fn sum<'a>(a: &Value<'a>, b: &Value<'a>) -> (r: Result<Value<'a>, Fault>)
    ensures
        outcome_view(r) == sum_spec(a.view(), b.view()),
{
    match (a, b) {
        (Value::Int(x), Value::Int(y)) => match x.checked_add(*y) {
            Some(z) => Ok(Value::Int(z)),
            None => Err(Fault::Overflow),
        },
        (Value::List(x), Value::List(y)) => {
            let mut l: Vec<usize> = Vec::new();
            let mut i: usize = 0;
            while i < x.len()
                invariant
                    i <= x@.len(),
                    l@ == x@.subrange(0, i as int),
                decreases x@.len() - i,
            {
                l.push(x[i]);
                i = i + 1;
                assert(l@ =~= x@.subrange(0, i as int));
            }
            let mut j: usize = 0;
            while j < y.len()
                invariant
                    j <= y@.len(),
                    l@ == x@ + y@.subrange(0, j as int),
                decreases y@.len() - j,
            {
                l.push(y[j]);
                j = j + 1;
                assert(l@ =~= x@ + y@.subrange(0, j as int));
            }
            assert(l@ =~= x@ + y@);
            Ok(Value::List(l))
        },
        _ => {
            let s1 = show_value(a);
            let s2 = show_value(b);
            Ok(Value::Str(s1.concat(s2.as_str())))
        },
    }
}

/// `-` on two values.
pub fn sub<'a>(a: &Value<'a>, b: &Value<'a>) -> (r: Result<Value<'a>, Fault>)
    ensures
        outcome_view(r) == apply_spec(BinOp::Sub, a.view(), b.view()),
{
    match (a, b) {
        (Value::Int(x), Value::Int(y)) => match x.checked_sub(*y) {
            Some(z) => Ok(Value::Int(z)),
            None => Err(Fault::Overflow),
        },
        _ => Err(Fault::Type),
    }
}

/// `*` on two values.
pub fn mul<'a>(a: &Value<'a>, b: &Value<'a>) -> (r: Result<Value<'a>, Fault>)
    ensures
        outcome_view(r) == apply_spec(BinOp::Mul, a.view(), b.view()),
{
    match (a, b) {
        (Value::Int(x), Value::Int(y)) => match x.checked_mul(*y) {
            Some(z) => Ok(Value::Int(z)),
            None => Err(Fault::Overflow),
        },
        _ => Err(Fault::Type),
    }
}

/// The magnitude of an integer, which always fits in 64 unsigned bits.
fn magnitude(x: i64) -> (r: u64)
    ensures
        r as int == crate::semantics::abs(x as int),
{
    if x < 0 {
        ((-(x + 1)) as u64) + 1
    } else {
        x as u64
    }
}

/// Quotient and remainder, rounded toward zero; `None` when the quotient
/// does not fit.
fn div_rem(x: i64, y: i64) -> (r: Option<(i64, i64)>)
    requires
        y != 0,
    ensures
        match r {
            Some((q, m)) => in_i64(div_trunc(x as int, y as int)) && q as int == div_trunc(
                x as int,
                y as int,
            ) && m as int == rem_trunc(x as int, y as int),
            None => !in_i64(div_trunc(x as int, y as int)),
        },
{
    let ux = magnitude(x);
    let uy = magnitude(y);
    let q = ux / uy;
    let m = ux % uy;
    assert(m < uy);
    assert(q <= ux) by (nonlinear_arith)
        requires
            q == ux / uy,
            uy >= 1,
    ;
    let qi: i64;
    if (x < 0) != (y < 0) {
        qi = (0 - (q as i128)) as i64;
    } else {
        if q > i64::MAX as u64 {
            return None;
        }
        qi = q as i64;
    }
    let mi: i64 = if x < 0 {
        (0 - (m as i128)) as i64
    } else {
        m as i64
    };
    Some((qi, mi))
}

fn int_div_op<'a>(op: BinOp, a: &Value<'a>, b: &Value<'a>) -> (r: Result<Value<'a>, Fault>)
    requires
        op == BinOp::Div || op == BinOp::Mod,
    ensures
        outcome_view(r) == apply_spec(op, a.view(), b.view()),
{
    match (a, b) {
        (Value::Int(x), Value::Int(y)) => {
            if *y == 0 {
                return Err(Fault::DivisionByZero);
            }
            match div_rem(*x, *y) {
                Some((q, m)) => if op == BinOp::Div {
                    Ok(Value::Int(q))
                } else {
                    Ok(Value::Int(m))
                },
                None => Err(Fault::Overflow),
            }
        },
        _ => Err(Fault::Type),
    }
}

/// `/` on two values.
pub fn div<'a>(a: &Value<'a>, b: &Value<'a>) -> (r: Result<Value<'a>, Fault>)
    ensures
        outcome_view(r) == apply_spec(BinOp::Div, a.view(), b.view()),
{
    int_div_op(BinOp::Div, a, b)
}

/// `%` on two values.
pub fn modulo<'a>(a: &Value<'a>, b: &Value<'a>) -> (r: Result<Value<'a>, Fault>)
    ensures
        outcome_view(r) == apply_spec(BinOp::Mod, a.view(), b.view()),
{
    int_div_op(BinOp::Mod, a, b)
}

/// `<` on two values.
pub fn lt<'a>(a: &Value<'a>, b: &Value<'a>) -> (r: Result<Value<'a>, Fault>)
    ensures
        outcome_view(r) == apply_spec(BinOp::Lt, a.view(), b.view()),
{
    match (a, b) {
        (Value::Int(x), Value::Int(y)) => Ok(Value::Bool(*x < *y)),
        _ => Err(Fault::Type),
    }
}

/// `<=` on two values.
pub fn lte<'a>(a: &Value<'a>, b: &Value<'a>) -> (r: Result<Value<'a>, Fault>)
    ensures
        outcome_view(r) == apply_spec(BinOp::Lte, a.view(), b.view()),
{
    match (a, b) {
        (Value::Int(x), Value::Int(y)) => Ok(Value::Bool(*x <= *y)),
        _ => Err(Fault::Type),
    }
}

/// `>` on two values.
pub fn gt<'a>(a: &Value<'a>, b: &Value<'a>) -> (r: Result<Value<'a>, Fault>)
    ensures
        outcome_view(r) == apply_spec(BinOp::Gt, a.view(), b.view()),
{
    match (a, b) {
        (Value::Int(x), Value::Int(y)) => Ok(Value::Bool(*x > *y)),
        _ => Err(Fault::Type),
    }
}

/// `>=` on two values.
pub fn gte<'a>(a: &Value<'a>, b: &Value<'a>) -> (r: Result<Value<'a>, Fault>)
    ensures
        outcome_view(r) == apply_spec(BinOp::Gte, a.view(), b.view()),
{
    match (a, b) {
        (Value::Int(x), Value::Int(y)) => Ok(Value::Bool(*x >= *y)),
        _ => Err(Fault::Type),
    }
}

/// `==` on two integers or two booleans.
pub fn eq<'a>(a: &Value<'a>, b: &Value<'a>) -> (r: Result<Value<'a>, Fault>)
    ensures
        outcome_view(r) == apply_spec(BinOp::Eq, a.view(), b.view()),
{
    match (a, b) {
        (Value::Int(x), Value::Int(y)) => Ok(Value::Bool(*x == *y)),
        (Value::Bool(x), Value::Bool(y)) => Ok(Value::Bool(*x == *y)),
        _ => Err(Fault::Type),
    }
}

/// `!=` on two integers or two booleans.
pub fn neq<'a>(a: &Value<'a>, b: &Value<'a>) -> (r: Result<Value<'a>, Fault>)
    ensures
        outcome_view(r) == apply_spec(BinOp::Neq, a.view(), b.view()),
{
    match (a, b) {
        (Value::Int(x), Value::Int(y)) => Ok(Value::Bool(*x != *y)),
        (Value::Bool(x), Value::Bool(y)) => Ok(Value::Bool(*x != *y)),
        _ => Err(Fault::Type),
    }
}

/// A binary operator on two values.
pub fn apply<'a>(op: BinOp, a: &Value<'a>, b: &Value<'a>) -> (r: Result<Value<'a>, Fault>)
    ensures
        outcome_view(r) == apply_spec(op, a.view(), b.view()),
{
    match op {
        BinOp::Sum => sum(a, b),
        BinOp::Sub => crate::operators::sub(a, b),
        BinOp::Mul => crate::operators::mul(a, b),
        BinOp::Div => div(a, b),
        BinOp::Mod => modulo(a, b),
        BinOp::Lt => lt(a, b),
        BinOp::Lte => lte(a, b),
        BinOp::Gt => gt(a, b),
        BinOp::Gte => gte(a, b),
        BinOp::Eq => eq(a, b),
        BinOp::Neq => neq(a, b),
    }
}

} // verus!
