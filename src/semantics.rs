//! The evaluator: the meaning of an expression as a spec function over the
//! machine's view, and the executable interpreter that is proved to follow it.
use vstd::prelude::*;

use crate::expression::{Const, Exp, Var};
use crate::operators::apply;
use crate::value::{Datum, Function, Held, Machine, MachineView, Value, V, deref};

verus! {

/// Why an evaluation stopped without a value and without a throw.
#[derive(Clone, Copy, Debug, PartialEq, Eq, Structural)]
pub enum Fault {
    /// A variable whose frame slot does not exist.
    Unbound,
    /// A result that names a cell outside the heap.
    Dangling,
    /// An operand of the wrong kind.
    Type,
    IndexOutOfRange,
    DivisionByZero,
    /// An integer result outside the 64-bit range.
    Overflow,
    /// A call with a number of arguments other than the function's arity:
    /// the arity expected, and the number of arguments found.
    Arity(usize, usize),
    NotCallable,
    /// A labelled throw whose label is not a continuation.
    NotALabel,
    /// An assignment to something other than a variable or a list element.
    InvalidTarget,
    /// The step budget ran out.
    StepLimit,
    /// No fresh continuation label is left.
    LabelsExhausted,
}

/// What travels on the evaluator's error channel.
#[derive(Clone, Copy, Debug, PartialEq, Eq, Structural)]
pub enum ErrorKind {
    Fault(Fault),
    /// A `throw e` that no handler caught yet.
    Exception,
    /// A `throw k e` on its way to the `callcc` that minted label `k`.
    Escape(u64),
}

/// A runtime error: its kind and the value it carries (unit for a fault).
pub struct Error<'a> {
    pub kind: ErrorKind,
    pub v: V<'a>,
}

/// The mathematical view of a runtime error.
pub struct Failure {
    pub kind: ErrorKind,
    pub v: Held,
}

impl<'a> Error<'a> {
    pub open spec fn view(&self) -> Failure {
        Failure { kind: self.kind, v: self.v.view() }
    }
}

pub open spec fn result_view<'a>(r: Result<V<'a>, Error<'a>>) -> Result<Held, Failure> {
    match r {
        Ok(v) => Ok(v.view()),
        Err(e) => Err(e.view()),
    }
}

/// The binary operators that evaluate both operands.
#[derive(Clone, Copy, Debug, PartialEq, Eq, Structural)]
pub enum BinOp {
    Sum,
    Sub,
    Mul,
    Div,
    Mod,
    Lt,
    Lte,
    Gt,
    Gte,
    Eq,
    Neq,
}

pub open spec fn unit() -> Held {
    Held::Val(Datum::Unit)
}

pub open spec fn fault(m: MachineView, f: Fault) -> (MachineView, Result<Held, Failure>) {
    (m, Err(Failure { kind: ErrorKind::Fault(f), v: unit() }))
}

pub open spec fn const_datum(c: Const) -> Datum {
    match c {
        Const::Integer(i) => Datum::Int(i as i64),
        Const::Boolean(b) => Datum::Bool(b),
        Const::String(s) => Datum::Str(s@),
        Const::Unit => Datum::Unit,
    }
}

/// The position on the stack of variable `x` in the frame that starts at `start`.
pub open spec fn var_index(m: MachineView, start: usize, x: Var) -> Option<int> {
    if start + x.scope < m.stack.len() {
        Some(start + x.scope)
    } else {
        None
    }
}

/// The cell that holds a result: its own cell, or a new one at the end of the heap.
pub open spec fn store(m: MachineView, h: Held) -> (MachineView, usize) {
    match h {
        Held::Ptr(p) => (m, p),
        Held::Val(d) => (
            MachineView { stack: m.stack, heap: m.heap.push(d), next_label: m.next_label },
            m.heap.len() as usize,
        ),
    }
}

/// The machine with a slot reserved on top of the stack for a variable that
/// is being declared: it holds unit until its initializer has a value.
pub open spec fn reserve(m: MachineView) -> MachineView {
    let (m1, s) = store(m, unit());
    push_slot(m1, s)
}

pub open spec fn push_slot(m: MachineView, s: usize) -> MachineView {
    MachineView { stack: m.stack.push(s), heap: m.heap, next_label: m.next_label }
}

pub open spec fn push_slots(m: MachineView, s: Seq<usize>) -> MachineView {
    MachineView { stack: m.stack + s, heap: m.heap, next_label: m.next_label }
}

/// The machine with its stack cut back to `n` entries.
pub open spec fn lower(m: MachineView, n: nat) -> MachineView {
    MachineView {
        stack: if n <= m.stack.len() { m.stack.subrange(0, n as int) } else { m.stack },
        heap: m.heap,
        next_label: m.next_label,
    }
}

pub open spec fn set_slot(m: MachineView, i: int, s: usize) -> MachineView {
    MachineView { stack: m.stack.update(i, s), heap: m.heap, next_label: m.next_label }
}

pub open spec fn set_cell(m: MachineView, p: int, d: Datum) -> MachineView {
    MachineView { stack: m.stack, heap: m.heap.update(p, d), next_label: m.next_label }
}

pub open spec fn in_i64(x: int) -> bool {
    i64::MIN <= x <= i64::MAX
}

pub open spec fn abs(x: int) -> int {
    if x < 0 {
        -x
    } else {
        x
    }
}

/// Integer division that rounds toward zero.
pub open spec fn div_trunc(a: int, b: int) -> int {
    if (a < 0) != (b < 0) {
        -(abs(a) / abs(b))
    } else {
        abs(a) / abs(b)
    }
}

/// The remainder of `div_trunc`: it has the sign of the dividend.
pub open spec fn rem_trunc(a: int, b: int) -> int {
    if a < 0 {
        -(abs(a) % abs(b))
    } else {
        abs(a) % abs(b)
    }
}

pub open spec fn digit_char(d: nat) -> char {
    if d == 0 {
        '0'
    } else if d == 1 {
        '1'
    } else if d == 2 {
        '2'
    } else if d == 3 {
        '3'
    } else if d == 4 {
        '4'
    } else if d == 5 {
        '5'
    } else if d == 6 {
        '6'
    } else if d == 7 {
        '7'
    } else if d == 8 {
        '8'
    } else {
        '9'
    }
}

/// The decimal digits of a natural number, most significant first.
pub open spec fn decimal_nat(n: nat) -> Seq<char>
    decreases n,
{
    if n < 10 {
        seq![digit_char(n)]
    } else {
        decimal_nat(n / 10).push(digit_char(n % 10))
    }
}

/// The decimal form of an integer, with a leading `-` when it is negative.
pub open spec fn decimal(i: int) -> Seq<char> {
    if i < 0 {
        seq!['-'] + decimal_nat((-i) as nat)
    } else {
        decimal_nat(i as nat)
    }
}

/// The text that a value contributes to a string concatenation. Scalars
/// give their value; a list gives the fixed word `list`, a function
/// `function` and a continuation label `continuation`, whatever they hold.
pub open spec fn show(d: Datum) -> Seq<char> {
    match d {
        Datum::Unit => seq!['u', 'n', 'i', 't'],
        Datum::Int(i) => decimal(i as int),
        Datum::Bool(b) => if b {
            seq!['t', 'r', 'u', 'e']
        } else {
            seq!['f', 'a', 'l', 's', 'e']
        },
        Datum::Str(s) => s,
        Datum::List(_) => seq!['l', 'i', 's', 't'],
        Datum::Fn(_, _, _) => seq!['f', 'u', 'n', 'c', 't', 'i', 'o', 'n'],
        Datum::Label(_) => seq!['c', 'o', 'n', 't', 'i', 'n', 'u', 'a', 't', 'i', 'o', 'n'],
    }
}

/// `+`: integer addition, list concatenation, or else the concatenation of
/// the text of both sides.
pub open spec fn sum_spec(a: Datum, b: Datum) -> Result<Datum, Fault> {
    match (a, b) {
        (Datum::Int(x), Datum::Int(y)) => if in_i64(x + y) {
            Ok(Datum::Int((x + y) as i64))
        } else {
            Err(Fault::Overflow)
        },
        (Datum::List(x), Datum::List(y)) => Ok(Datum::List(x + y)),
        _ => Ok(Datum::Str(show(a) + show(b))),
    }
}

/// The integer operators, on two integers.
pub open spec fn int_op_spec(op: BinOp, x: int, y: int) -> Result<Datum, Fault> {
    match op {
        BinOp::Sub => if in_i64(x - y) {
            Ok(Datum::Int((x - y) as i64))
        } else {
            Err(Fault::Overflow)
        },
        BinOp::Mul => if in_i64(x * y) {
            Ok(Datum::Int((x * y) as i64))
        } else {
            Err(Fault::Overflow)
        },
        BinOp::Div => if y == 0 {
            Err(Fault::DivisionByZero)
        } else if in_i64(div_trunc(x, y)) {
            Ok(Datum::Int(div_trunc(x, y) as i64))
        } else {
            Err(Fault::Overflow)
        },
        BinOp::Mod => if y == 0 {
            Err(Fault::DivisionByZero)
        } else if in_i64(div_trunc(x, y)) {
            Ok(Datum::Int(rem_trunc(x, y) as i64))
        } else {
            Err(Fault::Overflow)
        },
        BinOp::Lt => Ok(Datum::Bool(x < y)),
        BinOp::Lte => Ok(Datum::Bool(x <= y)),
        BinOp::Gt => Ok(Datum::Bool(x > y)),
        BinOp::Gte => Ok(Datum::Bool(x >= y)),
        BinOp::Eq => Ok(Datum::Bool(x == y)),
        BinOp::Neq => Ok(Datum::Bool(x != y)),
        BinOp::Sum => if in_i64(x + y) {
            Ok(Datum::Int((x + y) as i64))
        } else {
            Err(Fault::Overflow)
        },
    }
}

/// What a binary operator gives on two values.
pub open spec fn apply_spec(op: BinOp, a: Datum, b: Datum) -> Result<Datum, Fault> {
    if op == BinOp::Sum {
        sum_spec(a, b)
    } else {
        match (a, b) {
            (Datum::Int(x), Datum::Int(y)) => int_op_spec(op, x as int, y as int),
            (Datum::Bool(x), Datum::Bool(y)) => if op == BinOp::Eq {
                Ok(Datum::Bool(x == y))
            } else if op == BinOp::Neq {
                Ok(Datum::Bool(x != y))
            } else {
                Err(Fault::Type)
            },
            _ => Err(Fault::Type),
        }
    }
}

/// The operator of a binary expression node.
pub open spec fn binop_of(e: Exp) -> BinOp {
    match e {
        Exp::Sub(_, _) => BinOp::Sub,
        Exp::Mul(_, _) => BinOp::Mul,
        Exp::Div(_, _) => BinOp::Div,
        Exp::Mod(_, _) => BinOp::Mod,
        Exp::Lt(_, _) => BinOp::Lt,
        Exp::Lte(_, _) => BinOp::Lte,
        Exp::Gt(_, _) => BinOp::Gt,
        Exp::Gte(_, _) => BinOp::Gte,
        Exp::Eq(_, _) => BinOp::Eq,
        Exp::Neq(_, _) => BinOp::Neq,
        _ => BinOp::Sum,
    }
}

/// The last step of a binary operator, once both operands are evaluated.
pub open spec fn combine(m: MachineView, op: BinOp, h1: Held, h2: Held) -> (
    MachineView,
    Result<Held, Failure>,
) {
    match (deref(m, h1), deref(m, h2)) {
        (Some(a), Some(b)) => match apply_spec(op, a, b) {
            Ok(d) => (m, Ok(Held::Val(d))),
            Err(f) => fault(m, f),
        },
        _ => fault(m, Fault::Dangling),
    }
}

/// The outcome of evaluating `e` in the frame that starts at `start`, with at
/// most `fuel` nested calls and loop iterations: the machine afterwards, and a
/// result or an error.
pub open spec fn evaluate(e: Exp, m: MachineView, start: usize, fuel: nat) -> (
    MachineView,
    Result<Held, Failure>,
)
    decreases fuel, e, 1nat, 0nat,
{
    match e {
        Exp::Const(c) => (m, Ok(Held::Val(const_datum(c)))),
        Exp::Var(x) => match var_index(m, start, x) {
            Some(i) => (m, Ok(Held::Ptr(m.stack[i]))),
            None => fault(m, Fault::Unbound),
        },
        Exp::Decl(_, init, body) => {
            let (m1, r1) = evaluate(*init, reserve(m), start, fuel);
            match r1 {
                Err(f) => (lower(m1, m.stack.len()), Err(f)),
                Ok(h) => {
                    let (m2, s) = store(m1, h);
                    let (m3, r) = evaluate(*body, set_slot(m2, m.stack.len() as int, s), start, fuel);
                    (lower(m3, m.stack.len()), r)
                },
            }
        },
        Exp::Assign(target, rhs) => {
            let (m1, r1) = evaluate(*rhs, m, start, fuel);
            match r1 {
                Err(f) => (m1, Err(f)),
                Ok(h) => assign(*target, h, m1, start, fuel),
            }
        },
        Exp::Sequence(a, b) => {
            let (m1, r1) = evaluate(*a, m, start, fuel);
            match r1 {
                Err(f) => (m1, Err(f)),
                Ok(_) => evaluate(*b, m1, start, fuel),
            }
        },
        Exp::List(items) => {
            let (m1, r1) = eval_items(items, 0, Seq::empty(), m, start, fuel);
            match r1 {
                Err(f) => (m1, Err(f)),
                Ok(slots) => (m1, Ok(Held::Val(Datum::List(slots)))),
            }
        },
        Exp::ListSelection(l, ix) => {
            let (m1, r1) = evaluate(*l, m, start, fuel);
            match r1 {
                Err(f) => (m1, Err(f)),
                Ok(hl) => {
                    let (m2, r2) = evaluate(*ix, m1, start, fuel);
                    match r2 {
                        Err(f) => (m2, Err(f)),
                        Ok(hi) => select(m2, hl, hi),
                    }
                },
            }
        },
        Exp::Sum(a, b) | Exp::Sub(a, b) | Exp::Mul(a, b) | Exp::Div(a, b) | Exp::Mod(a, b)
        | Exp::Lt(a, b) | Exp::Lte(a, b) | Exp::Gt(a, b) | Exp::Gte(a, b) | Exp::Eq(a, b)
        | Exp::Neq(a, b) => {
            let (m1, r1) = evaluate(*a, m, start, fuel);
            match r1 {
                Err(f) => (m1, Err(f)),
                Ok(h1) => {
                    let (m2, r2) = evaluate(*b, m1, start, fuel);
                    match r2 {
                        Err(f) => (m2, Err(f)),
                        Ok(h2) => combine(m2, binop_of(e), h1, h2),
                    }
                },
            }
        },
        Exp::And(a, b) => {
            let (m1, r1) = evaluate(*a, m, start, fuel);
            match r1 {
                Err(f) => (m1, Err(f)),
                Ok(h1) => match deref(m1, h1) {
                    Some(Datum::Bool(false)) => (m1, Ok(Held::Val(Datum::Bool(false)))),
                    Some(Datum::Bool(true)) => boolean(evaluate(*b, m1, start, fuel)),
                    Some(_) => fault(m1, Fault::Type),
                    None => fault(m1, Fault::Dangling),
                },
            }
        },
        Exp::Or(a, b) => {
            let (m1, r1) = evaluate(*a, m, start, fuel);
            match r1 {
                Err(f) => (m1, Err(f)),
                Ok(h1) => match deref(m1, h1) {
                    Some(Datum::Bool(true)) => (m1, Ok(Held::Val(Datum::Bool(true)))),
                    Some(Datum::Bool(false)) => boolean(evaluate(*b, m1, start, fuel)),
                    Some(_) => fault(m1, Fault::Type),
                    None => fault(m1, Fault::Dangling),
                },
            }
        },
        Exp::Not(a) => {
            let (m1, r1) = evaluate(*a, m, start, fuel);
            match r1 {
                Err(f) => (m1, Err(f)),
                Ok(h1) => match deref(m1, h1) {
                    Some(Datum::Bool(x)) => (m1, Ok(Held::Val(Datum::Bool(!x)))),
                    Some(_) => fault(m1, Fault::Type),
                    None => fault(m1, Fault::Dangling),
                },
            }
        },
        Exp::IfThenElse(c, t, f) => {
            let (m1, r1) = evaluate(*c, m, start, fuel);
            match r1 {
                Err(er) => (m1, Err(er)),
                Ok(h1) => match deref(m1, h1) {
                    Some(Datum::Bool(true)) => evaluate(*t, m1, start, fuel),
                    Some(Datum::Bool(false)) => evaluate(*f, m1, start, fuel),
                    Some(_) => fault(m1, Fault::Type),
                    None => fault(m1, Fault::Dangling),
                },
            }
        },
        Exp::While(_, _) => eval_loop(e, unit(), m, start, fuel),
        Exp::Function(params, body) => (
            m,
            Ok(Held::Val(Datum::Fn(params.len(), *body, Seq::empty()))),
        ),
        Exp::FunctionCall(callee, args) => {
            let (m1, r1) = evaluate(*callee, m, start, fuel);
            match r1 {
                Err(f) => (m1, Err(f)),
                Ok(hc) => match deref(m1, hc) {
                    Some(Datum::Fn(n, body, ext)) => if args.len() != n {
                        fault(m1, Fault::Arity(n, args.len()))
                    } else {
                        let (m2, r2) = eval_items(args, 0, Seq::empty(), m1, start, fuel);
                        match r2 {
                            Err(f) => (m2, Err(f)),
                            Ok(slots) => if fuel == 0 {
                                fault(m2, Fault::StepLimit)
                            } else {
                                let (m3, r3) = evaluate(
                                    body,
                                    push_slots(m2, slots + ext),
                                    m2.stack.len() as usize,
                                    (fuel - 1) as nat,
                                );
                                (lower(m3, m.stack.len()), r3)
                            },
                        }
                    },
                    Some(_) => fault(m1, Fault::NotCallable),
                    None => fault(m1, Fault::Dangling),
                },
            }
        },
        Exp::Try(body) => evaluate(*body, m, start, fuel),
        Exp::TryCatch(body, _, handler) => {
            let (m1, r1) = evaluate(*body, m, start, fuel);
            match r1 {
                Ok(h) => (m1, Ok(h)),
                Err(f) => {
                    let (m2, s) = store(m1, f.v);
                    let (m3, r) = evaluate(*handler, push_slot(m2, s), start, fuel);
                    (lower(m3, m.stack.len()), r)
                },
            }
        },
        Exp::Callcc(_, body) => if m.next_label == u64::MAX {
            fault(m, Fault::LabelsExhausted)
        } else {
            let id = m.next_label;
            let m1 = MachineView { stack: m.stack, heap: m.heap, next_label: (id + 1) as u64 };
            let (m2, s) = store(m1, Held::Val(Datum::Label(id)));
            let (m3, r) = evaluate(*body, push_slot(m2, s), start, fuel);
            let m4 = lower(m3, m.stack.len());
            match r {
                Err(f) => if f.kind == ErrorKind::Escape(id) {
                    (m4, Ok(f.v))
                } else {
                    (m4, Err(f))
                },
                Ok(h) => (m4, Ok(h)),
            }
        },
        Exp::Throw(a) => {
            let (m1, r1) = evaluate(*a, m, start, fuel);
            match r1 {
                Err(f) => (m1, Err(f)),
                Ok(h) => (m1, Err(Failure { kind: ErrorKind::Exception, v: h })),
            }
        },
        Exp::Throwcc(k, a) => {
            let (m1, r1) = evaluate(*a, m, start, fuel);
            match r1 {
                Err(f) => (m1, Err(f)),
                Ok(h) => match var_index(m1, start, k) {
                    None => fault(m1, Fault::Unbound),
                    Some(i) => match deref(m1, Held::Ptr(m1.stack[i])) {
                        Some(Datum::Label(id)) => (
                            m1,
                            Err(Failure { kind: ErrorKind::Escape(id), v: h }),
                        ),
                        Some(_) => fault(m1, Fault::NotALabel),
                        None => fault(m1, Fault::Dangling),
                    },
                },
            }
        },
    }
}

/// A short-circuit operator's right operand must give a boolean.
pub open spec fn boolean(o: (MachineView, Result<Held, Failure>)) -> (
    MachineView,
    Result<Held, Failure>,
) {
    let (m, r) = o;
    match r {
        Err(f) => (m, Err(f)),
        Ok(h) => match deref(m, h) {
            Some(Datum::Bool(x)) => (m, Ok(Held::Val(Datum::Bool(x)))),
            Some(_) => fault(m, Fault::Type),
            None => fault(m, Fault::Dangling),
        },
    }
}

/// `list[index]` once both are evaluated: the element's cell.
pub open spec fn select(m: MachineView, hl: Held, hi: Held) -> (MachineView, Result<Held, Failure>) {
    match (deref(m, hl), deref(m, hi)) {
        (Some(Datum::List(slots)), Some(Datum::Int(n))) => if 0 <= n < slots.len() {
            (m, Ok(Held::Ptr(slots[n as int])))
        } else {
            fault(m, Fault::IndexOutOfRange)
        },
        (Some(_), Some(_)) => fault(m, Fault::Type),
        _ => fault(m, Fault::Dangling),
    }
}

/// Stores the result `h` of an assignment's right-hand side into `target`.
pub open spec fn assign(target: Exp, h: Held, m: MachineView, start: usize, fuel: nat) -> (
    MachineView,
    Result<Held, Failure>,
)
    decreases fuel, target, 0nat, 0nat,
{
    match target {
        Exp::Var(x) => match var_index(m, start, x) {
            Some(i) => {
                let (m1, s) = store(m, h);
                (set_slot(m1, i, s), Ok(unit()))
            },
            None => fault(m, Fault::Unbound),
        },
        Exp::ListSelection(l, ix) => {
            let (m1, r1) = evaluate(*l, m, start, fuel);
            match r1 {
                Err(f) => (m1, Err(f)),
                Ok(hl) => {
                    let (m2, r2) = evaluate(*ix, m1, start, fuel);
                    match r2 {
                        Err(f) => (m2, Err(f)),
                        Ok(hi) => update_element(m2, hl, hi, h),
                    }
                },
            }
        },
        _ => fault(m, Fault::InvalidTarget),
    }
}

/// `list[index] = h` once list and index are evaluated.
pub open spec fn update_element(m: MachineView, hl: Held, hi: Held, h: Held) -> (
    MachineView,
    Result<Held, Failure>,
) {
    match (deref(m, hl), deref(m, hi)) {
        (Some(Datum::List(slots)), Some(Datum::Int(n))) => if 0 <= n < slots.len() {
            let (m1, s) = store(m, h);
            match hl {
                Held::Ptr(p) => (
                    set_cell(m1, p as int, Datum::List(slots.update(n as int, s))),
                    Ok(unit()),
                ),
                Held::Val(_) => (m1, Ok(unit())),
            }
        } else {
            fault(m, Fault::IndexOutOfRange)
        },
        (Some(_), Some(_)) => fault(m, Fault::Type),
        _ => fault(m, Fault::Dangling),
    }
}

/// Evaluates `items[i..]` in order, storing each result in a cell; `acc` holds
/// the cells of the items before `i`.
pub open spec fn eval_items(
    items: Vec<Exp>,
    i: nat,
    acc: Seq<usize>,
    m: MachineView,
    start: usize,
    fuel: nat,
) -> (MachineView, Result<Seq<usize>, Failure>)
    decreases fuel, items, 0nat, items.len() - i,
{
    if i >= items.len() {
        (m, Ok(acc))
    } else {
        let (m1, r1) = evaluate(items[i as int], m, start, fuel);
        match r1 {
            Err(f) => (m1, Err(f)),
            Ok(h) => {
                let (m2, s) = store(m1, h);
                eval_items(items, i + 1, acc.push(s), m2, start, fuel)
            },
        }
    }
}

/// The iterations of a `while` node `w`; `last` is the previous body result.
pub open spec fn eval_loop(w: Exp, last: Held, m: MachineView, start: usize, fuel: nat) -> (
    MachineView,
    Result<Held, Failure>,
)
    decreases fuel, w, 0nat, 0nat,
{
    match w {
        Exp::While(g, b) => {
            let (m1, r1) = evaluate(*g, m, start, fuel);
            match r1 {
                Err(f) => (m1, Err(f)),
                Ok(hg) => match deref(m1, hg) {
                    Some(Datum::Bool(false)) => (m1, Ok(last)),
                    Some(Datum::Bool(true)) => if fuel == 0 {
                        fault(m1, Fault::StepLimit)
                    } else {
                        let (m2, r2) = evaluate(*b, m1, start, fuel);
                        match r2 {
                            Err(f) => (m2, Err(f)),
                            Ok(hb) => eval_loop(w, hb, m2, start, (fuel - 1) as nat),
                        }
                    },
                    Some(_) => fault(m1, Fault::Type),
                    None => fault(m1, Fault::Dangling),
                },
            }
        },
        _ => (m, Ok(last)),
    }
}


pub open spec fn slots_view<'a>(r: Result<Vec<usize>, Error<'a>>) -> Result<Seq<usize>, Failure> {
    match r {
        Ok(v) => Ok(v@),
        Err(e) => Err(e.view()),
    }
}

fn fault_error<'a>(f: Fault) -> (e: Error<'a>)
    ensures
        e.view() == (Failure { kind: ErrorKind::Fault(f), v: unit() }),
{
    Error { kind: ErrorKind::Fault(f), v: V::Val(Value::Unit) }
}

fn const_value<'a>(c: &Const) -> (v: Value<'a>)
    ensures
        v.view() == const_datum(*c),
{
    match c {
        Const::Integer(i) => Value::Int(*i as i64),
        Const::Boolean(b) => Value::Bool(*b),
        Const::String(s) => Value::Str(s.clone()),
        Const::Unit => Value::Unit,
    }
}

fn var_position(m: &Machine, start: usize, x: &Var) -> (r: Option<usize>)
    ensures
        match r {
            Some(i) => var_index(m.view(), start, *x) == Some(i as int),
            None => var_index(m.view(), start, *x) is None,
        },
{
    if x.scope < m.stack.len() && start < m.stack.len() - x.scope {
        Some(start + x.scope)
    } else {
        None
    }
}

/// The cell that holds `h`, allocating one for a fresh value.
pub(crate) fn store_result<'a>(m: &mut Machine<'a>, h: V<'a>) -> (s: usize)
    ensures
        (final(m).view(), s) == store(old(m).view(), h.view()),
{
    match h {
        V::Ptr(p) => p,
        V::Val(v) => {
            let s = m.heap.len();
            m.heap.push(v);
            proof {
                assert(final(m).view().heap =~= old(m).view().heap.push(v.view()));
            }
            s
        },
    }
}

/// The value that `h` stands for.
fn deref_value<'a, 'b>(m: &'b Machine<'a>, h: &'b V<'a>) -> (r: Option<&'b Value<'a>>)
    ensures
        match r {
            Some(v) => deref(m.view(), h.view()) == Some(v.view()),
            None => deref(m.view(), h.view()) is None,
        },
{
    match h {
        V::Ptr(p) => if *p < m.heap.len() {
            Some(&m.heap[*p])
        } else {
            None
        },
        V::Val(v) => Some(v),
    }
}

fn binop(exp: &Exp) -> (op: BinOp)
    ensures
        op == binop_of(*exp),
{
    match exp {
        Exp::Sub(_, _) => BinOp::Sub,
        Exp::Mul(_, _) => BinOp::Mul,
        Exp::Div(_, _) => BinOp::Div,
        Exp::Mod(_, _) => BinOp::Mod,
        Exp::Lt(_, _) => BinOp::Lt,
        Exp::Lte(_, _) => BinOp::Lte,
        Exp::Gt(_, _) => BinOp::Gt,
        Exp::Gte(_, _) => BinOp::Gte,
        Exp::Eq(_, _) => BinOp::Eq,
        Exp::Neq(_, _) => BinOp::Neq,
        _ => BinOp::Sum,
    }
}

fn combine_exec<'a>(m: &Machine<'a>, op: BinOp, h1: &V<'a>, h2: &V<'a>) -> (r: Result<
    V<'a>,
    Error<'a>,
>)
    ensures
        (m.view(), result_view(r)) == combine(m.view(), op, h1.view(), h2.view()),
{
    match (deref_value(m, h1), deref_value(m, h2)) {
        (Some(a), Some(b)) => match apply(op, a, b) {
            Ok(d) => Ok(V::Val(d)),
            Err(f) => Err(fault_error(f)),
        },
        _ => Err(fault_error(Fault::Dangling)),
    }
}

fn boolean_exec<'a>(m: &Machine<'a>, r: Result<V<'a>, Error<'a>>) -> (res: Result<V<'a>, Error<'a>>)
    ensures
        (m.view(), result_view(res)) == boolean((m.view(), result_view(r))),
{
    match r {
        Err(f) => Err(f),
        Ok(h) => match deref_value(m, &h) {
            Some(Value::Bool(x)) => Ok(V::Val(Value::Bool(*x))),
            Some(_) => Err(fault_error(Fault::Type)),
            None => Err(fault_error(Fault::Dangling)),
        },
    }
}

fn select_exec<'a>(m: &Machine<'a>, hl: &V<'a>, hi: &V<'a>) -> (r: Result<V<'a>, Error<'a>>)
    ensures
        (m.view(), result_view(r)) == select(m.view(), hl.view(), hi.view()),
{
    match (deref_value(m, hl), deref_value(m, hi)) {
        (Some(Value::List(slots)), Some(Value::Int(n))) => if 0 <= *n && (*n as u64) < (
        slots.len() as u64) {
            Ok(V::Ptr(slots[*n as usize]))
        } else {
            Err(fault_error(Fault::IndexOutOfRange))
        },
        (Some(_), Some(_)) => Err(fault_error(Fault::Type)),
        _ => Err(fault_error(Fault::Dangling)),
    }
}

fn update_element_exec<'a>(m: &mut Machine<'a>, hl: V<'a>, hi: V<'a>, h: V<'a>) -> (r: Result<
    V<'a>,
    Error<'a>,
>)
    ensures
        (final(m).view(), result_view(r)) == update_element(
            old(m).view(),
            hl.view(),
            hi.view(),
            h.view(),
        ),
{
    let n: usize;
    let mut slots: Vec<usize>;
    match (deref_value(m, &hl), deref_value(m, &hi)) {
        (Some(Value::List(l)), Some(Value::Int(i))) => {
            if 0 <= *i && (*i as u64) < (l.len() as u64) {
                n = *i as usize;
                slots = crate::value::copy_slots(l);
            } else {
                return Err(fault_error(Fault::IndexOutOfRange));
            }
        },
        (Some(_), Some(_)) => {
            return Err(fault_error(Fault::Type));
        },
        _ => {
            return Err(fault_error(Fault::Dangling));
        },
    }
    let ghost m0 = m.view();
    proof {
        if hl is Ptr {
            assert(hl->Ptr_0 < m.heap@.len());
        }
    }
    let s = store_result(m, h);
    assert(m.view().heap.len() == m.heap@.len());
    assert(m0.heap.len() <= m.view().heap.len());
    match hl {
        V::Ptr(p) => {
            slots.set(n, s);
            m.heap.set(p, Value::List(slots));
            proof {
                assert(m.view().heap =~= store(m0, h.view()).0.heap.update(
                    p as int,
                    Datum::List(slots@),
                ));
            }
        },
        V::Val(_) => {},
    }
    Ok(V::Val(Value::Unit))
}

/// Evaluates `exp` in the frame that starts at `start`, with at most `fuel`
/// nested calls and loop iterations. The outcome is exactly `evaluate`'s, and
/// the stack has its height of entry again afterwards.
pub fn eval_expression<'a>(exp: &'a Exp, m: &mut Machine<'a>, start: usize, fuel: u64) -> (r:
    Result<V<'a>, Error<'a>>)
    ensures
        (final(m).view(), result_view(r)) == evaluate(*exp, old(m).view(), start, fuel as nat),
        final(m).stack@.len() == old(m).stack@.len(),
    decreases fuel, exp, 1nat, 0nat,
{
    match exp {
        Exp::Const(c) => Ok(V::Val(const_value(c))),
        Exp::Var(x) => match var_position(m, start, x) {
            Some(i) => Ok(V::Ptr(m.stack[i])),
            None => Err(fault_error(Fault::Unbound)),
        },
        Exp::Decl(_, _, _) => eval_decl(exp, m, start, fuel),
        Exp::Assign(target, rhs) => {
            let h = match eval_expression(rhs, m, start, fuel) {
                Err(f) => {
                    return Err(f);
                },
                Ok(h) => h,
            };
            assign_exec(target, h, m, start, fuel)
        },
        Exp::Sequence(a, b) => {
            match eval_expression(a, m, start, fuel) {
                Err(f) => {
                    return Err(f);
                },
                Ok(_) => {},
            }
            eval_expression(b, m, start, fuel)
        },
        Exp::List(items) => match eval_items_exec(items, m, start, fuel) {
            Err(f) => Err(f),
            Ok(slots) => Ok(V::Val(Value::List(slots))),
        },
        Exp::ListSelection(l, ix) => {
            let hl = match eval_expression(l, m, start, fuel) {
                Err(f) => {
                    return Err(f);
                },
                Ok(h) => h,
            };
            let hi = match eval_expression(ix, m, start, fuel) {
                Err(f) => {
                    return Err(f);
                },
                Ok(h) => h,
            };
            select_exec(m, &hl, &hi)
        },
        Exp::Sum(a, b) | Exp::Sub(a, b) | Exp::Mul(a, b) | Exp::Div(a, b) | Exp::Mod(a, b)
        | Exp::Lt(a, b) | Exp::Lte(a, b) | Exp::Gt(a, b) | Exp::Gte(a, b) | Exp::Eq(a, b)
        | Exp::Neq(a, b) => eval_binary(exp, a, b, m, start, fuel),
        Exp::And(_, _) | Exp::Or(_, _) => eval_logic(exp, m, start, fuel),
        Exp::Not(a) => {
            let h1 = match eval_expression(a, m, start, fuel) {
                Err(f) => {
                    return Err(f);
                },
                Ok(h) => h,
            };
            match deref_value(m, &h1) {
                Some(Value::Bool(x)) => Ok(V::Val(Value::Bool(!*x))),
                Some(_) => Err(fault_error(Fault::Type)),
                None => Err(fault_error(Fault::Dangling)),
            }
        },
        Exp::IfThenElse(c, t, f) => {
            let h1 = match eval_expression(c, m, start, fuel) {
                Err(er) => {
                    return Err(er);
                },
                Ok(h) => h,
            };
            let choice = match deref_value(m, &h1) {
                Some(Value::Bool(x)) => *x,
                Some(_) => {
                    return Err(fault_error(Fault::Type));
                },
                None => {
                    return Err(fault_error(Fault::Dangling));
                },
            };
            if choice {
                eval_expression(t, m, start, fuel)
            } else {
                eval_expression(f, m, start, fuel)
            }
        },
        Exp::While(_, _) => eval_while(exp, m, start, fuel),
        Exp::Function(params, body) => Ok(
            V::Val(
                Value::Fn(
                    Function {
                        num_args: params.len(),
                        body: &**body,
                        external_values: Vec::new(),
                    },
                ),
            ),
        ),
        Exp::FunctionCall(_, _) => eval_call(exp, m, start, fuel),
        Exp::Try(body) => eval_expression(body, m, start, fuel),
        Exp::TryCatch(_, _, _) => eval_catch(exp, m, start, fuel),
        Exp::Callcc(_, _) => eval_callcc(exp, m, start, fuel),
        Exp::Throw(a) => match eval_expression(a, m, start, fuel) {
            Err(f) => Err(f),
            Ok(h) => Err(Error { kind: ErrorKind::Exception, v: h }),
        },
        Exp::Throwcc(k, a) => {
            let h = match eval_expression(a, m, start, fuel) {
                Err(f) => {
                    return Err(f);
                },
                Ok(h) => h,
            };
            match var_position(m, start, k) {
                None => Err(fault_error(Fault::Unbound)),
                Some(i) => {
                    let p = m.stack[i];
                    if p < m.heap.len() {
                        match &m.heap[p] {
                            Value::Label(id) => Err(Error { kind: ErrorKind::Escape(*id), v: h }),
                            _ => Err(fault_error(Fault::NotALabel)),
                        }
                    } else {
                        Err(fault_error(Fault::Dangling))
                    }
                },
            }
        },
    }
}

/// Pushes the cells `slots` onto the stack.
fn push_all<'a>(m: &mut Machine<'a>, slots: &Vec<usize>)
    ensures
        final(m).view() == push_slots(old(m).view(), slots@),
{
    let ghost before = m.view();
    let mut i: usize = 0;
    while i < slots.len()
        invariant
            i <= slots@.len(),
            m.view() == push_slots(before, slots@.subrange(0, i as int)),
        decreases slots@.len() - i,
    {
        m.stack.push(slots[i]);
        i = i + 1;
        proof {
            assert(m.view().stack =~= before.stack + slots@.subrange(0, i as int));
        }
    }
    assert(slots@.subrange(0, slots@.len() as int) =~= slots@);
}

fn eval_decl<'a>(exp: &'a Exp, m: &mut Machine<'a>, start: usize, fuel: u64) -> (r: Result<
    V<'a>,
    Error<'a>,
>)
    requires
        *exp is Decl,
    ensures
        (final(m).view(), result_view(r)) == evaluate(*exp, old(m).view(), start, fuel as nat),
        final(m).stack@.len() == old(m).stack@.len(),
    decreases fuel, exp, 0nat, 0nat,
{
    let entry = m.stack.len();
    let (init, body) = match exp {
        Exp::Decl(_, i, b) => (&**i, &**b),
        _ => {
            return Ok(V::Val(Value::Unit));
        },
    };
    let placeholder = store_result(m, V::Val(Value::Unit));
    m.stack.push(placeholder);
    let h = match eval_expression(init, m, start, fuel) {
        Err(f) => {
            m.stack.truncate(entry);
            return Err(f);
        },
        Ok(h) => h,
    };
    let s = store_result(m, h);
    m.stack.set(entry, s);
    let r = eval_expression(body, m, start, fuel);
    m.stack.truncate(entry);
    r
}

fn eval_binary<'a>(
    exp: &'a Exp,
    a: &'a Exp,
    b: &'a Exp,
    m: &mut Machine<'a>,
    start: usize,
    fuel: u64,
) -> (r: Result<V<'a>, Error<'a>>)
    requires
        match *exp {
            Exp::Sum(x, y) | Exp::Sub(x, y) | Exp::Mul(x, y) | Exp::Div(x, y) | Exp::Mod(x, y)
            | Exp::Lt(x, y) | Exp::Lte(x, y) | Exp::Gt(x, y) | Exp::Gte(x, y) | Exp::Eq(x, y)
            | Exp::Neq(x, y) => *x == *a && *y == *b,
            _ => false,
        },
    ensures
        (final(m).view(), result_view(r)) == evaluate(*exp, old(m).view(), start, fuel as nat),
        final(m).stack@.len() == old(m).stack@.len(),
    decreases fuel, exp, 0nat, 0nat,
{
    let op = binop(exp);
    let h1 = match eval_expression(a, m, start, fuel) {
        Err(f) => {
            return Err(f);
        },
        Ok(h) => h,
    };
    let h2 = match eval_expression(b, m, start, fuel) {
        Err(f) => {
            return Err(f);
        },
        Ok(h) => h,
    };
    combine_exec(m, op, &h1, &h2)
}

fn eval_logic<'a>(exp: &'a Exp, m: &mut Machine<'a>, start: usize, fuel: u64) -> (r: Result<
    V<'a>,
    Error<'a>,
>)
    requires
        *exp is And || *exp is Or,
    ensures
        (final(m).view(), result_view(r)) == evaluate(*exp, old(m).view(), start, fuel as nat),
        final(m).stack@.len() == old(m).stack@.len(),
    decreases fuel, exp, 0nat, 0nat,
{
    let (a, b, is_and) = match exp {
        Exp::And(a, b) => (&**a, &**b, true),
        Exp::Or(a, b) => (&**a, &**b, false),
        _ => {
            return Ok(V::Val(Value::Unit));
        },
    };
    let h1 = match eval_expression(a, m, start, fuel) {
        Err(f) => {
            return Err(f);
        },
        Ok(h) => h,
    };
    let x = match deref_value(m, &h1) {
        Some(Value::Bool(x)) => *x,
        Some(_) => {
            return Err(fault_error(Fault::Type));
        },
        None => {
            return Err(fault_error(Fault::Dangling));
        },
    };
    if x != is_and {
        Ok(V::Val(Value::Bool(x)))
    } else {
        let r = eval_expression(b, m, start, fuel);
        boolean_exec(m, r)
    }
}

fn eval_call<'a>(exp: &'a Exp, m: &mut Machine<'a>, start: usize, fuel: u64) -> (r: Result<
    V<'a>,
    Error<'a>,
>)
    requires
        *exp is FunctionCall,
    ensures
        (final(m).view(), result_view(r)) == evaluate(*exp, old(m).view(), start, fuel as nat),
        final(m).stack@.len() == old(m).stack@.len(),
    decreases fuel, exp, 0nat, 0nat,
{
    let entry = m.stack.len();
    let (callee, args) = match exp {
        Exp::FunctionCall(c, a) => (&**c, a),
        _ => {
            return Ok(V::Val(Value::Unit));
        },
    };
    let hc = match eval_expression(callee, m, start, fuel) {
        Err(f) => {
            return Err(f);
        },
        Ok(h) => h,
    };
    let (n, body, ext): (usize, &'a Exp, Vec<usize>) = match deref_value(m, &hc) {
        Some(Value::Fn(f)) => (f.num_args, f.body, crate::value::copy_slots(&f.external_values)),
        Some(_) => {
            return Err(fault_error(Fault::NotCallable));
        },
        None => {
            return Err(fault_error(Fault::Dangling));
        },
    };
    if args.len() != n {
        return Err(fault_error(Fault::Arity(n, args.len())));
    }
    let slots = match eval_items_exec(args, m, start, fuel) {
        Err(f) => {
            return Err(f);
        },
        Ok(s) => s,
    };
    if fuel == 0 {
        return Err(fault_error(Fault::StepLimit));
    }
    let base = m.stack.len();
    let ghost m2 = m.view();
    push_all(m, &slots);
    push_all(m, &ext);
    assert(m.view().stack =~= push_slots(m2, slots@ + ext@).stack);
    let r = eval_expression(body, m, base, fuel - 1);
    m.stack.truncate(entry);
    r
}

fn eval_catch<'a>(exp: &'a Exp, m: &mut Machine<'a>, start: usize, fuel: u64) -> (r: Result<
    V<'a>,
    Error<'a>,
>)
    requires
        *exp is TryCatch,
    ensures
        (final(m).view(), result_view(r)) == evaluate(*exp, old(m).view(), start, fuel as nat),
        final(m).stack@.len() == old(m).stack@.len(),
    decreases fuel, exp, 0nat, 0nat,
{
    let entry = m.stack.len();
    let (body, handler) = match exp {
        Exp::TryCatch(b, _, h) => (&**b, &**h),
        _ => {
            return Ok(V::Val(Value::Unit));
        },
    };
    match eval_expression(body, m, start, fuel) {
        Ok(h) => Ok(h),
        Err(f) => {
            let s = store_result(m, f.v);
            m.stack.push(s);
            let r = eval_expression(handler, m, start, fuel);
            m.stack.truncate(entry);
            r
        },
    }
}

fn eval_callcc<'a>(exp: &'a Exp, m: &mut Machine<'a>, start: usize, fuel: u64) -> (r: Result<
    V<'a>,
    Error<'a>,
>)
    requires
        *exp is Callcc,
    ensures
        (final(m).view(), result_view(r)) == evaluate(*exp, old(m).view(), start, fuel as nat),
        final(m).stack@.len() == old(m).stack@.len(),
    decreases fuel, exp, 0nat, 0nat,
{
    let entry = m.stack.len();
    let body = match exp {
        Exp::Callcc(_, b) => &**b,
        _ => {
            return Ok(V::Val(Value::Unit));
        },
    };
    if m.next_label == u64::MAX {
        return Err(fault_error(Fault::LabelsExhausted));
    }
    let id = m.next_label;
    m.next_label = id + 1;
    let s = store_result(m, V::Val(Value::Label(id)));
    m.stack.push(s);
    let r = eval_expression(body, m, start, fuel);
    m.stack.truncate(entry);
    match r {
        Err(f) => match f.kind {
            ErrorKind::Escape(k) => if k == id {
                Ok(f.v)
            } else {
                Err(f)
            },
            _ => Err(f),
        },
        Ok(h) => Ok(h),
    }
}


/// Stores the right-hand side `h` of an assignment into `target`.
fn assign_exec<'a>(target: &'a Exp, h: V<'a>, m: &mut Machine<'a>, start: usize, fuel: u64) -> (r:
    Result<V<'a>, Error<'a>>)
    ensures
        (final(m).view(), result_view(r)) == assign(*target, h.view(), old(m).view(), start, fuel as nat),
        final(m).stack@.len() == old(m).stack@.len(),
    decreases fuel, target, 0nat, 0nat,
{
    match target {
        Exp::Var(x) => match var_position(m, start, x) {
            Some(i) => {
                let s = store_result(m, h);
                m.stack.set(i, s);
                Ok(V::Val(Value::Unit))
            },
            None => Err(fault_error(Fault::Unbound)),
        },
        Exp::ListSelection(l, ix) => {
            let hl = match eval_expression(l, m, start, fuel) {
                Err(f) => {
                    return Err(f);
                },
                Ok(h) => h,
            };
            let hi = match eval_expression(ix, m, start, fuel) {
                Err(f) => {
                    return Err(f);
                },
                Ok(h) => h,
            };
            update_element_exec(m, hl, hi, h)
        },
        _ => Err(fault_error(Fault::InvalidTarget)),
    }
}

/// Evaluates the items in order and stores each result in a cell.
fn eval_items_exec<'a>(items: &'a Vec<Exp>, m: &mut Machine<'a>, start: usize, fuel: u64) -> (r:
    Result<Vec<usize>, Error<'a>>)
    ensures
        (final(m).view(), slots_view(r)) == eval_items(
            *items,
            0,
            Seq::empty(),
            old(m).view(),
            start,
            fuel as nat,
        ),
        final(m).stack@.len() == old(m).stack@.len(),
    decreases fuel, items, 0nat, 0nat,
{
    let ghost m0 = m.view();
    let mut acc: Vec<usize> = Vec::new();
    let mut i: usize = 0;
    while i < items.len()
        invariant
            i <= items@.len(),
            eval_items(*items, 0, Seq::empty(), m0, start, fuel as nat) == eval_items(
                *items,
                i as nat,
                acc@,
                m.view(),
                start,
                fuel as nat,
            ),
            m.stack@.len() == m0.stack.len(),
            m0 == old(m).view(),
        decreases items@.len() - i,
    {
        let h = match eval_expression(&items[i], m, start, fuel) {
            Err(f) => {
                return Err(f);
            },
            Ok(h) => h,
        };
        let s = store_result(m, h);
        acc.push(s);
        i = i + 1;
    }
    Ok(acc)
}

/// The iterations of the `while` node `exp`.
fn eval_while<'a>(exp: &'a Exp, m: &mut Machine<'a>, start: usize, fuel: u64) -> (r: Result<
    V<'a>,
    Error<'a>,
>)
    requires
        *exp is While,
    ensures
        (final(m).view(), result_view(r)) == eval_loop(*exp, unit(), old(m).view(), start, fuel as nat),
        final(m).stack@.len() == old(m).stack@.len(),
    decreases fuel, exp, 0nat, 0nat,
{
    let (guard, body) = match exp {
        Exp::While(g, b) => (&**g, &**b),
        _ => {
            return Ok(V::Val(Value::Unit));
        },
    };
    let ghost m0 = m.view();
    let mut last: V<'a> = V::Val(Value::Unit);
    let mut budget: u64 = fuel;
    loop
        invariant
            *exp == Exp::While(Box::new(*guard), Box::new(*body)),
            budget <= fuel,
            eval_loop(*exp, unit(), m0, start, fuel as nat) == eval_loop(
                *exp,
                last.view(),
                m.view(),
                start,
                budget as nat,
            ),
            m.stack@.len() == m0.stack.len(),
            m0 == old(m).view(),
        decreases budget,
    {
        let hg = match eval_expression(guard, m, start, budget) {
            Err(f) => {
                return Err(f);
            },
            Ok(h) => h,
        };
        let go = match deref_value(m, &hg) {
            Some(Value::Bool(x)) => *x,
            Some(_) => {
                return Err(fault_error(Fault::Type));
            },
            None => {
                return Err(fault_error(Fault::Dangling));
            },
        };
        if !go {
            return Ok(last);
        }
        if budget == 0 {
            return Err(fault_error(Fault::StepLimit));
        }
        let hb = match eval_expression(body, m, start, budget) {
            Err(f) => {
                return Err(f);
            },
            Ok(h) => h,
        };
        last = hb;
        budget = budget - 1;
    }
}

/// Evaluates a whole program in an empty machine, with the largest budget
/// (`u64::MAX`), and returns the value that its result stands for.
pub fn eval<'a>(exp: &'a Exp) -> (r: Result<Value<'a>, Error<'a>>)
    ensures
        ({
            let (m, res) = evaluate(*exp, empty_machine(), 0, u64::MAX as nat);
            match res {
                Ok(h) => match deref(m, h) {
                    Some(d) => r matches Ok(v) && v.view() == d,
                    None => r matches Err(e) && e.view() == (Failure {
                        kind: ErrorKind::Fault(Fault::Dangling),
                        v: unit(),
                    }),
                },
                Err(f) => r matches Err(e) && e.view() == f,
            }
        }),
{
    let mut m = Machine::new();
    match eval_expression(exp, &mut m, 0, u64::MAX) {
        Ok(h) => match m.resolve(&h) {
            Some(v) => Ok(v),
            None => Err(fault_error(Fault::Dangling)),
        },
        Err(e) => Err(e),
    }
}

/// The machine with no variables and no cells.
pub open spec fn empty_machine() -> MachineView {
    MachineView { stack: Seq::empty(), heap: Seq::empty(), next_label: 0 }
}

} // verus!
