//! Laws of the evaluator, proved over its semantics.
use vstd::prelude::*;

use crate::expression::{Const, Exp, Var};
use crate::semantics::{
    ErrorKind, Failure, evaluate, assign, eval_items, eval_loop, lower, push_slot, push_slots,
    reserve, set_slot, store, unit,
};
use crate::parser::{ParseState, lookup, step};
use crate::value::{Datum, Held, MachineView, deref};

verus! {

/// The value of a literal expression (a constant or a function literal),
/// which evaluates without touching the machine.
pub open spec fn literal_datum(e: Exp) -> Option<Datum> {
    match e {
        Exp::Const(c) => Some(crate::semantics::const_datum(c)),
        Exp::Function(params, body) => Some(Datum::Fn(params.len(), *body, Seq::empty())),
        _ => None,
    }
}

/// The machine in which the body of a `callcc` runs: the next label is taken,
/// and a cell holding it is bound on top of the stack.
pub open spec fn callcc_frame(m: MachineView) -> MachineView {
    let m1 = MachineView { stack: m.stack, heap: m.heap, next_label: (m.next_label + 1) as u64 };
    let (m2, s) = store(m1, Held::Val(Datum::Label(m.next_label)));
    push_slot(m2, s)
}

/// Stack discipline: evaluating any expression leaves the stack as high as
/// it found it, whether it returns a value or an error.
pub proof fn lemma_stack_height(e: Exp, m: MachineView, start: usize, fuel: nat)
    ensures
        evaluate(e, m, start, fuel).0.stack.len() == m.stack.len(),
    decreases fuel, e, 1nat, 0nat,
{
    match e {
        Exp::Decl(_, init, body) => {
            lemma_stack_height(*init, reserve(m), start, fuel);
            let (m1, r1) = evaluate(*init, reserve(m), start, fuel);
            match r1 {
                Ok(h) => {
                    let (m2, s) = store(m1, h);
                    lemma_stack_height(*body, set_slot(m2, m.stack.len() as int, s), start, fuel);
                },
                Err(_) => {},
            }
        },
        Exp::Assign(target, rhs) => {
            lemma_stack_height(*rhs, m, start, fuel);
            let (m1, r1) = evaluate(*rhs, m, start, fuel);
            match r1 {
                Ok(h) => lemma_assign_height(*target, h, m1, start, fuel),
                Err(_) => {},
            }
        },
        Exp::Sequence(a, b) | Exp::ListSelection(a, b) | Exp::Sum(a, b) | Exp::Sub(a, b)
        | Exp::Mul(a, b) | Exp::Div(a, b) | Exp::Mod(a, b) | Exp::Lt(a, b) | Exp::Lte(a, b)
        | Exp::Gt(a, b) | Exp::Gte(a, b) | Exp::Eq(a, b) | Exp::Neq(a, b) | Exp::And(a, b)
        | Exp::Or(a, b) => {
            lemma_stack_height(*a, m, start, fuel);
            let (m1, _) = evaluate(*a, m, start, fuel);
            lemma_stack_height(*b, m1, start, fuel);
        },
        Exp::List(items) => lemma_items_height(items, 0, Seq::empty(), m, start, fuel),
        Exp::Not(a) | Exp::Throw(a) | Exp::Throwcc(_, a) | Exp::Try(a) => {
            lemma_stack_height(*a, m, start, fuel);
        },
        Exp::IfThenElse(c, t, f) => {
            lemma_stack_height(*c, m, start, fuel);
            let (m1, _) = evaluate(*c, m, start, fuel);
            lemma_stack_height(*t, m1, start, fuel);
            lemma_stack_height(*f, m1, start, fuel);
        },
        Exp::While(_, _) => lemma_loop_height(e, unit(), m, start, fuel),
        Exp::FunctionCall(callee, args) => {
            lemma_stack_height(*callee, m, start, fuel);
            let (m1, r1) = evaluate(*callee, m, start, fuel);
            lemma_items_height(args, 0, Seq::empty(), m1, start, fuel);
            let (m2, r2) = eval_items(args, 0, Seq::empty(), m1, start, fuel);
            match (r1, r2) {
                (Ok(hc), Ok(slots)) => match deref(m1, hc) {
                    Some(Datum::Fn(_, body, ext)) => if fuel > 0 {
                        lemma_stack_height(
                            body,
                            push_slots(m2, slots + ext),
                            m2.stack.len() as usize,
                            (fuel - 1) as nat,
                        );
                    },
                    _ => {},
                },
                _ => {},
            }
        },
        Exp::TryCatch(body, _, handler) => {
            lemma_stack_height(*body, m, start, fuel);
            let (m1, r1) = evaluate(*body, m, start, fuel);
            match r1 {
                Err(f) => {
                    let (m2, s) = store(m1, f.v);
                    lemma_stack_height(*handler, push_slot(m2, s), start, fuel);
                },
                Ok(_) => {},
            }
        },
        Exp::Callcc(_, body) => {
            lemma_stack_height(*body, callcc_frame(m), start, fuel);
        },
        _ => {},
    }
}

/// Stack discipline of an assignment's store.
pub proof fn lemma_assign_height(target: Exp, h: Held, m: MachineView, start: usize, fuel: nat)
    ensures
        assign(target, h, m, start, fuel).0.stack.len() == m.stack.len(),
    decreases fuel, target, 0nat, 0nat,
{
    match target {
        Exp::ListSelection(l, ix) => {
            lemma_stack_height(*l, m, start, fuel);
            let (m1, _) = evaluate(*l, m, start, fuel);
            lemma_stack_height(*ix, m1, start, fuel);
        },
        _ => {},
    }
}

/// Stack discipline of a run of items.
pub proof fn lemma_items_height(
    items: Vec<Exp>,
    i: nat,
    acc: Seq<usize>,
    m: MachineView,
    start: usize,
    fuel: nat,
)
    ensures
        eval_items(items, i, acc, m, start, fuel).0.stack.len() == m.stack.len(),
    decreases fuel, items, 0nat, items.len() - i,
{
    if i < items.len() {
        lemma_stack_height(items[i as int], m, start, fuel);
        let (m1, r1) = evaluate(items[i as int], m, start, fuel);
        match r1 {
            Ok(h) => {
                let (m2, s) = store(m1, h);
                lemma_items_height(items, i + 1, acc.push(s), m2, start, fuel);
            },
            Err(_) => {},
        }
    }
}

/// Stack discipline of a loop.
pub proof fn lemma_loop_height(w: Exp, last: Held, m: MachineView, start: usize, fuel: nat)
    ensures
        eval_loop(w, last, m, start, fuel).0.stack.len() == m.stack.len(),
    decreases fuel, w, 0nat, 0nat,
{
    match w {
        Exp::While(g, b) => {
            lemma_stack_height(*g, m, start, fuel);
            let (m1, r1) = evaluate(*g, m, start, fuel);
            lemma_stack_height(*b, m1, start, fuel);
            let (m2, r2) = evaluate(*b, m1, start, fuel);
            if fuel > 0 {
                match r2 {
                    Ok(hb) => lemma_loop_height(w, hb, m2, start, (fuel - 1) as nat),
                    Err(_) => {},
                }
            }
        },
        _ => {},
    }
}

/// A literal evaluates to its value and leaves the machine as it was.
pub proof fn lemma_literal(e: Exp, m: MachineView, start: usize, fuel: nat)
    requires
        literal_datum(e) is Some,
    ensures
        evaluate(e, m, start, fuel) == (m, Ok::<Held, Failure>(Held::Val(literal_datum(e)->Some_0))),
{
}

/// Short-circuit: `false && e` gives `false` and `true || e` gives `true`
/// for every `e`; `e` is never evaluated, so the machine is left as it was.
pub proof fn lemma_short_circuit(e: Exp, m: MachineView, start: usize, fuel: nat)
    ensures
        evaluate(
            Exp::And(Box::new(Exp::Const(Const::Boolean(false))), Box::new(e)),
            m,
            start,
            fuel,
        ) == (m, Ok::<Held, Failure>(Held::Val(Datum::Bool(false)))),
        evaluate(
            Exp::Or(Box::new(Exp::Const(Const::Boolean(true))), Box::new(e)),
            m,
            start,
            fuel,
        ) == (m, Ok::<Held, Failure>(Held::Val(Datum::Bool(true)))),
{
    assert(evaluate(Exp::Const(Const::Boolean(false)), m, start, fuel) == (
        m,
        Ok::<Held, Failure>(Held::Val(Datum::Bool(false))),
    ));
    assert(evaluate(Exp::Const(Const::Boolean(true)), m, start, fuel) == (
        m,
        Ok::<Held, Failure>(Held::Val(Datum::Bool(true))),
    ));
}

/// Assignment identity: in `let x = E; x = R; x`, where both occurrences of
/// `x` resolve to the declaration, the final `x` stands for the value of `R`,
/// the last value assigned to `x`; and in `let x = E; x` it stands for the
/// value of `E` (evaluated with the slot of `x` reserved). The frame must end
/// where `x` is declared.
pub proof fn lemma_assignment_identity(
    x: Var,
    x1: Var,
    x2: Var,
    init: Exp,
    rhs: Exp,
    m: MachineView,
    start: usize,
    fuel: nat,
)
    requires
        x1.scope == x.scope,
        x2.scope == x.scope,
        m.stack.len() == start + x.scope,
        m.heap.len() < usize::MAX,
        evaluate(init, reserve(m), start, fuel).1 is Ok,
        evaluate(init, reserve(m), start, fuel).0.heap.len() < usize::MAX,
    ensures
        ({
            let (m1, r1) = evaluate(init, reserve(m), start, fuel);
            let (mf, rf) = evaluate(
                Exp::Decl(x, Box::new(init), Box::new(Exp::Var(x2))),
                m,
                start,
                fuel,
            );
            rf is Ok && deref(mf, rf->Ok_0) == deref(m1, r1->Ok_0)
        }),
        ({
            let (m1, r1) = evaluate(init, reserve(m), start, fuel);
            let (m2, s) = store(m1, r1->Ok_0);
            let (mr, rr) = evaluate(rhs, set_slot(m2, m.stack.len() as int, s), start, fuel);
            let prog = Exp::Decl(
                x,
                Box::new(init),
                Box::new(
                    Exp::Sequence(
                        Box::new(Exp::Assign(Box::new(Exp::Var(x1)), Box::new(rhs))),
                        Box::new(Exp::Var(x2)),
                    ),
                ),
            );
            let (mf, rf) = evaluate(prog, m, start, fuel);
            rr is Ok && mr.heap.len() < usize::MAX ==> rf is Ok && deref(mf, rf->Ok_0) == deref(mr, rr->Ok_0)
        }),
{
    lemma_stack_height(init, reserve(m), start, fuel);
    let (m1, r1) = evaluate(init, reserve(m), start, fuel);
    let (m2, s) = store(m1, r1->Ok_0);
    let mp = set_slot(m2, m.stack.len() as int, s);
    assert(evaluate(Exp::Var(x2), mp, start, fuel) == (mp, Ok::<Held, Failure>(Held::Ptr(s))));
    lemma_stack_height(rhs, mp, start, fuel);
    let (mr, rr) = evaluate(rhs, mp, start, fuel);
    if rr is Ok && mr.heap.len() < usize::MAX {
        let assignment = Exp::Assign(Box::new(Exp::Var(x1)), Box::new(rhs));
        let (ma, s2) = store(mr, rr->Ok_0);
        let ma2 = set_slot(ma, start + x.scope, s2);
        assert(assign(Exp::Var(x1), rr->Ok_0, mr, start, fuel) == (ma2, Ok::<Held, Failure>(unit())));
        assert(evaluate(assignment, mp, start, fuel) == (ma2, Ok::<Held, Failure>(unit())));
        assert(evaluate(Exp::Var(x2), ma2, start, fuel) == (ma2, Ok::<Held, Failure>(Held::Ptr(s2))));
        assert(evaluate(Exp::Sequence(Box::new(assignment), Box::new(Exp::Var(x2))), mp, start, fuel)
            == (ma2, Ok::<Held, Failure>(Held::Ptr(s2))));
    }
}

/// Catch-throw round trip: `try { throw V } catch e { e }` stands for the
/// value of `V`, for every `V` that evaluates without error. The frame must
/// end where `e` is bound.
pub proof fn lemma_catch_throw(v: Exp, x: Var, x1: Var, m: MachineView, start: usize, fuel: nat)
    requires
        x1.scope == x.scope,
        m.stack.len() == start + x.scope,
        evaluate(v, m, start, fuel).1 is Ok,
        evaluate(v, m, start, fuel).0.heap.len() < usize::MAX,
    ensures
        ({
            let (mv, rv) = evaluate(v, m, start, fuel);
            let prog = Exp::TryCatch(
                Box::new(Exp::Throw(Box::new(v))),
                x,
                Box::new(Exp::Var(x1)),
            );
            let (mf, rf) = evaluate(prog, m, start, fuel);
            rf is Ok && deref(mf, rf->Ok_0) == deref(mv, rv->Ok_0)
        }),
{
    lemma_stack_height(v, m, start, fuel);
    let (mv, rv) = evaluate(v, m, start, fuel);
    assert(evaluate(Exp::Throw(Box::new(v)), m, start, fuel) == (
        mv,
        Err::<Held, Failure>(Failure { kind: ErrorKind::Exception, v: rv->Ok_0 }),
    ));
    let (m2, s) = store(mv, rv->Ok_0);
    let mp = push_slot(m2, s);
    assert(evaluate(Exp::Var(x1), mp, start, fuel) == (mp, Ok::<Held, Failure>(Held::Ptr(s))));
}

/// Callcc identity: `callcc k in { throw k V }` gives `V`, for every literal
/// `V`. The frame must end where `k` is bound.
pub proof fn lemma_callcc_identity(k: Var, k1: Var, v: Exp, m: MachineView, start: usize, fuel: nat)
    requires
        k1.scope == k.scope,
        m.stack.len() == start + k.scope,
        m.next_label < u64::MAX,
        m.heap.len() < usize::MAX,
        literal_datum(v) is Some,
    ensures
        evaluate(Exp::Callcc(k, Box::new(Exp::Throwcc(k1, Box::new(v)))), m, start, fuel).1 == Ok::<
            Held,
            Failure,
        >(Held::Val(literal_datum(v)->Some_0)),
{
    let mp = callcc_frame(m);
    let id = m.next_label;
    let s = mp.stack[start + k.scope];
    assert(mp.heap[s as int] == Datum::Label(id));
    lemma_literal(v, mp, start, fuel);
    assert(evaluate(Exp::Throwcc(k1, Box::new(v)), mp, start, fuel) == (
        mp,
        Err::<Held, Failure>(
            Failure { kind: ErrorKind::Escape(id), v: Held::Val(literal_datum(v)->Some_0) },
        ),
    ));
}

/// Callcc transparency: `callcc k in { V }` gives what `V` gives in the body's
/// frame whenever that is a value; for a literal `V`, it gives `V`.
pub proof fn lemma_callcc_transparency(k: Var, v: Exp, m: MachineView, start: usize, fuel: nat)
    requires
        m.next_label < u64::MAX,
    ensures
        evaluate(v, callcc_frame(m), start, fuel).1 is Ok ==> evaluate(
            Exp::Callcc(k, Box::new(v)),
            m,
            start,
            fuel,
        ).1 == evaluate(v, callcc_frame(m), start, fuel).1,
        literal_datum(v) is Some ==> evaluate(Exp::Callcc(k, Box::new(v)), m, start, fuel).1
            == Ok::<Held, Failure>(Held::Val(literal_datum(v)->Some_0)),
{
    if literal_datum(v) is Some {
        lemma_literal(v, callcc_frame(m), start, fuel);
    }
}

/// Labelled precedence: in `callcc k in { callcc k in { throw k V } }`, where
/// the inner `k` resolves to the inner label, the inner `callcc` catches the
/// throw: the whole gives `V`, and in `callcc k in { callcc k in { throw k V }; c }`
/// evaluation goes on after the inner `callcc` and gives `c`.
pub proof fn lemma_labelled_precedence(
    k: Var,
    k2: Var,
    k3: Var,
    v: Exp,
    c: Const,
    m: MachineView,
    start: usize,
    fuel: nat,
)
    requires
        k2.scope == k.scope + 1,
        k3.scope == k2.scope,
        m.stack.len() == start + k.scope,
        m.next_label < u64::MAX - 1,
        m.heap.len() < usize::MAX - 1,
        literal_datum(v) is Some,
    ensures
        ({
            let inner = Exp::Callcc(k2, Box::new(Exp::Throwcc(k3, Box::new(v))));
            evaluate(Exp::Callcc(k, Box::new(inner)), m, start, fuel).1 == Ok::<Held, Failure>(
                Held::Val(literal_datum(v)->Some_0),
            )
        }),
        ({
            let inner = Exp::Callcc(k2, Box::new(Exp::Throwcc(k3, Box::new(v))));
            let body = Exp::Sequence(Box::new(inner), Box::new(Exp::Const(c)));
            evaluate(Exp::Callcc(k, Box::new(body)), m, start, fuel).1 == Ok::<Held, Failure>(
                Held::Val(crate::semantics::const_datum(c)),
            )
        }),
{
    let inner = Exp::Callcc(k2, Box::new(Exp::Throwcc(k3, Box::new(v))));
    let mp = callcc_frame(m);
    assert(mp.stack.len() == start + k2.scope);
    lemma_callcc_identity(k2, k3, v, mp, start, fuel);
    lemma_stack_height(inner, mp, start, fuel);
    let (mi, ri) = evaluate(inner, mp, start, fuel);
    assert(evaluate(Exp::Const(c), mi, start, fuel).1 == Ok::<Held, Failure>(
        Held::Val(crate::semantics::const_datum(c)),
    ));
    assert(evaluate(Exp::Sequence(Box::new(inner), Box::new(Exp::Const(c))), mp, start, fuel).1
        == Ok::<Held, Failure>(Held::Val(crate::semantics::const_datum(c))));
}

/// `m2` keeps the cells of `m1`: it has at least as many, and every cell of
/// `m1` that does not hold a list holds the same value in `m2`.
pub open spec fn kept(m1: MachineView, m2: MachineView) -> bool {
    &&& m1.heap.len() <= m2.heap.len()
    &&& forall|p: int|
        0 <= p < m1.heap.len() && !(#[trigger] m1.heap[p] is List) ==> m2.heap[p] == m1.heap[p]
}

proof fn lemma_kept_trans(a: MachineView, b: MachineView, c: MachineView)
    requires
        kept(a, b),
        kept(b, c),
    ensures
        kept(a, c),
{
    assert forall|p: int| 0 <= p < a.heap.len() && !(#[trigger] a.heap[p] is List) implies c.heap[p]
        == a.heap[p] by {
        assert(b.heap[p] == a.heap[p]);
    }
}

/// Evaluation only adds cells, and rewrites only cells that hold lists.
pub proof fn lemma_cells_kept(e: Exp, m: MachineView, start: usize, fuel: nat)
    ensures
        kept(m, evaluate(e, m, start, fuel).0),
    decreases fuel, e, 1nat, 0nat,
{
    match e {
        Exp::Decl(_, init, body) => {
            let mr = reserve(m);
            lemma_cells_kept(*init, mr, start, fuel);
            lemma_kept_trans(m, mr, evaluate(*init, mr, start, fuel).0);
            let (m1, r1) = evaluate(*init, mr, start, fuel);
            match r1 {
                Ok(h) => {
                    let (m2, s) = store(m1, h);
                    let m3 = set_slot(m2, m.stack.len() as int, s);
                    lemma_cells_kept(*body, m3, start, fuel);
                    lemma_kept_trans(m, m1, m3);
                    lemma_kept_trans(m, m3, evaluate(*body, m3, start, fuel).0);
                },
                Err(_) => {},
            }
        },
        Exp::Assign(target, rhs) => {
            lemma_cells_kept(*rhs, m, start, fuel);
            let (m1, r1) = evaluate(*rhs, m, start, fuel);
            match r1 {
                Ok(h) => {
                    lemma_assign_kept(*target, h, m1, start, fuel);
                    lemma_kept_trans(m, m1, assign(*target, h, m1, start, fuel).0);
                },
                Err(_) => {},
            }
        },
        Exp::Sequence(a, b) | Exp::ListSelection(a, b) | Exp::Sum(a, b) | Exp::Sub(a, b)
        | Exp::Mul(a, b) | Exp::Div(a, b) | Exp::Mod(a, b) | Exp::Lt(a, b) | Exp::Lte(a, b)
        | Exp::Gt(a, b) | Exp::Gte(a, b) | Exp::Eq(a, b) | Exp::Neq(a, b) | Exp::And(a, b)
        | Exp::Or(a, b) => {
            lemma_cells_kept(*a, m, start, fuel);
            let (m1, _) = evaluate(*a, m, start, fuel);
            lemma_cells_kept(*b, m1, start, fuel);
            lemma_kept_trans(m, m1, evaluate(*b, m1, start, fuel).0);
        },
        Exp::List(items) => lemma_items_kept(items, 0, Seq::empty(), m, start, fuel),
        Exp::Not(a) | Exp::Throw(a) | Exp::Throwcc(_, a) | Exp::Try(a) => {
            lemma_cells_kept(*a, m, start, fuel);
        },
        Exp::IfThenElse(c, t, f) => {
            lemma_cells_kept(*c, m, start, fuel);
            let (m1, _) = evaluate(*c, m, start, fuel);
            lemma_cells_kept(*t, m1, start, fuel);
            lemma_cells_kept(*f, m1, start, fuel);
            lemma_kept_trans(m, m1, evaluate(*t, m1, start, fuel).0);
            lemma_kept_trans(m, m1, evaluate(*f, m1, start, fuel).0);
        },
        Exp::While(_, _) => lemma_loop_kept(e, unit(), m, start, fuel),
        Exp::FunctionCall(callee, args) => {
            lemma_cells_kept(*callee, m, start, fuel);
            let (m1, r1) = evaluate(*callee, m, start, fuel);
            lemma_items_kept(args, 0, Seq::empty(), m1, start, fuel);
            let (m2, r2) = eval_items(args, 0, Seq::empty(), m1, start, fuel);
            lemma_kept_trans(m, m1, m2);
            match (r1, r2) {
                (Ok(hc), Ok(slots)) => match deref(m1, hc) {
                    Some(Datum::Fn(_, body, ext)) => if fuel > 0 {
                        let mp = push_slots(m2, slots + ext);
                        lemma_cells_kept(body, mp, m2.stack.len() as usize, (fuel - 1) as nat);
                        lemma_kept_trans(
                            m,
                            mp,
                            evaluate(body, mp, m2.stack.len() as usize, (fuel - 1) as nat).0,
                        );
                    },
                    _ => {},
                },
                _ => {},
            }
        },
        Exp::TryCatch(body, _, handler) => {
            lemma_cells_kept(*body, m, start, fuel);
            let (m1, r1) = evaluate(*body, m, start, fuel);
            match r1 {
                Err(f) => {
                    let (m2, s) = store(m1, f.v);
                    let mp = push_slot(m2, s);
                    lemma_kept_trans(m, m1, mp);
                    lemma_cells_kept(*handler, mp, start, fuel);
                    lemma_kept_trans(m, mp, evaluate(*handler, mp, start, fuel).0);
                },
                Ok(_) => {},
            }
        },
        Exp::Callcc(_, body) => {
            let mp = callcc_frame(m);
            lemma_cells_kept(*body, mp, start, fuel);
            lemma_kept_trans(m, mp, evaluate(*body, mp, start, fuel).0);
        },
        _ => {},
    }
}

proof fn lemma_assign_kept(target: Exp, h: Held, m: MachineView, start: usize, fuel: nat)
    ensures
        kept(m, assign(target, h, m, start, fuel).0),
    decreases fuel, target, 0nat, 0nat,
{
    match target {
        Exp::ListSelection(l, ix) => {
            lemma_cells_kept(*l, m, start, fuel);
            let (m1, r1) = evaluate(*l, m, start, fuel);
            lemma_cells_kept(*ix, m1, start, fuel);
            let (m2, r2) = evaluate(*ix, m1, start, fuel);
            lemma_kept_trans(m, m1, m2);
            match (r1, r2) {
                (Ok(hl), Ok(hi)) => {
                    let (m3, s) = store(m2, h);
                    lemma_kept_trans(m, m2, m3);
                },
                _ => {},
            }
        },
        _ => {},
    }
}

proof fn lemma_items_kept(
    items: Vec<Exp>,
    i: nat,
    acc: Seq<usize>,
    m: MachineView,
    start: usize,
    fuel: nat,
)
    ensures
        kept(m, eval_items(items, i, acc, m, start, fuel).0),
    decreases fuel, items, 0nat, items.len() - i,
{
    if i < items.len() {
        lemma_cells_kept(items[i as int], m, start, fuel);
        let (m1, r1) = evaluate(items[i as int], m, start, fuel);
        match r1 {
            Ok(h) => {
                let (m2, s) = store(m1, h);
                lemma_kept_trans(m, m1, m2);
                lemma_items_kept(items, i + 1, acc.push(s), m2, start, fuel);
                lemma_kept_trans(m, m2, eval_items(items, i + 1, acc.push(s), m2, start, fuel).0);
            },
            Err(_) => {},
        }
    }
}

proof fn lemma_loop_kept(w: Exp, last: Held, m: MachineView, start: usize, fuel: nat)
    ensures
        kept(m, eval_loop(w, last, m, start, fuel).0),
    decreases fuel, w, 0nat, 0nat,
{
    match w {
        Exp::While(g, b) => {
            lemma_cells_kept(*g, m, start, fuel);
            let (m1, r1) = evaluate(*g, m, start, fuel);
            lemma_cells_kept(*b, m1, start, fuel);
            let (m2, r2) = evaluate(*b, m1, start, fuel);
            lemma_kept_trans(m, m1, m2);
            if fuel > 0 {
                match r2 {
                    Ok(hb) => {
                        lemma_loop_kept(w, hb, m2, start, (fuel - 1) as nat);
                        lemma_kept_trans(m, m2, eval_loop(w, hb, m2, start, (fuel - 1) as nat).0);
                    },
                    Err(_) => {},
                }
            }
        },
        _ => {},
    }
}

/// Callcc identity for every value: `callcc k in { throw k V }` gives what
/// `V` gives in the body's frame, for every `V` that gives a value and leaves
/// `k` bound to its label.
pub proof fn lemma_callcc_throw(k: Var, k1: Var, v: Exp, m: MachineView, start: usize, fuel: nat)
    requires
        k1.scope == k.scope,
        m.stack.len() == start + k.scope,
        m.next_label < u64::MAX,
        m.heap.len() < usize::MAX,
        evaluate(v, callcc_frame(m), start, fuel).1 is Ok,
        evaluate(v, callcc_frame(m), start, fuel).0.stack[start + k.scope] == callcc_frame(
            m,
        ).stack[start + k.scope],
    ensures
        evaluate(Exp::Callcc(k, Box::new(Exp::Throwcc(k1, Box::new(v)))), m, start, fuel).1
            == evaluate(v, callcc_frame(m), start, fuel).1,
{
    let mp = callcc_frame(m);
    let id = m.next_label;
    let s = mp.stack[start + k.scope];
    assert(mp.heap[s as int] == Datum::Label(id));
    lemma_stack_height(v, mp, start, fuel);
    lemma_cells_kept(v, mp, start, fuel);
    let (mv, rv) = evaluate(v, mp, start, fuel);
    assert(mv.heap[s as int] == Datum::Label(id));
    assert(evaluate(Exp::Throwcc(k1, Box::new(v)), mp, start, fuel) == (
        mv,
        Err::<Held, Failure>(Failure { kind: ErrorKind::Escape(id), v: rv->Ok_0 }),
    ));
}

/// Scope resolution in the parser: a `let x` step declares `x` at the
/// current depth of the enclosing function (the number of its bindings
/// open) and opens one more binding, after which `x` resolves to that depth;
/// and a step on an identifier emits a variable whose depth is that of the
/// latest declaration of the identifier in the enclosing function's scope.
pub proof fn lemma_scope_resolution(a: ParseState, b: ParseState)
    requires
        step(a, b),
    ensures
        a.tokens.last() is Let ==> ({
            let name = a.tokens.drop_last().last()->Operand_0->Var_0;
            &&& b.scopes.last().var_scope == a.scopes.last().var_scope + 1
            &&& lookup(b.scopes.last().variable_map@, name@) == Some(a.scopes.last().var_scope)
        }),
        (a.tokens.last() is Operand && a.tokens.last()->Operand_0 is Var) ==> ({
            let name = a.tokens.last()->Operand_0->Var_0;
            &&& lookup(a.scopes.last().variable_map@, name@) is Some
            &&& b.out == a.out.push(
                Exp::Var(Var { name, scope: lookup(a.scopes.last().variable_map@, name@)->Some_0 }),
            )
        }),
{
    if a.tokens.last() is Let {
        let m = b.scopes.last().variable_map@;
        assert(m.last().0@ == a.tokens.drop_last().last()->Operand_0->Var_0@);
    }
}

} // verus!
