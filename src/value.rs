//! Runtime values, the evaluator's machine state, and their mathematical views.
use vstd::prelude::*;

use crate::expression::Exp;

verus! {

/// A function value: its arity, its body, and the cells that a call binds
/// after the arguments. Bodies capture nothing else: a call evaluates the body
/// in a fresh frame that holds the arguments, then those cells. A function
/// literal has none; the interactive driver gives a declared function its own
/// cell, so that the body can call it by name.
pub struct Function<'a> {
    pub num_args: usize,
    pub body: &'a Exp,
    pub external_values: Vec<usize>,
}

/// A value stored in a heap cell. A list holds the cells of its elements, so
/// that two names bound to the same list observe each other's writes.
pub enum Value<'a> {
    Unit,
    Int(i64),
    Bool(bool),
    Str(String),
    List(Vec<usize>),
    Fn(Function<'a>),
    /// A continuation label, minted fresh by each `callcc`.
    Label(u64),
}

/// The result of evaluating an expression: an existing cell (by reference),
/// or a freshly computed value (by value).
pub enum V<'a> {
    Ptr(usize),
    Val(Value<'a>),
}

/// The evaluator's state. `stack` holds one cell per bound variable; a frame
/// starting at `start` finds the variable of depth `d` at `stack[start + d]`.
/// `heap` holds the cells; `next_label` is the next continuation label.
pub struct Machine<'a> {
    pub stack: Vec<usize>,
    pub heap: Vec<Value<'a>>,
    pub next_label: u64,
}

/// The mathematical view of a value.
pub enum Datum {
    Unit,
    Int(i64),
    Bool(bool),
    Str(Seq<char>),
    List(Seq<usize>),
    Fn(usize, Exp, Seq<usize>),
    Label(u64),
}

/// The mathematical view of an evaluation result.
pub enum Held {
    Ptr(usize),
    Val(Datum),
}

/// The mathematical view of a machine.
pub struct MachineView {
    pub stack: Seq<usize>,
    pub heap: Seq<Datum>,
    pub next_label: u64,
}

impl<'a> Value<'a> {
    pub open spec fn view(&self) -> Datum {
        match self {
            Value::Unit => Datum::Unit,
            Value::Int(i) => Datum::Int(*i),
            Value::Bool(b) => Datum::Bool(*b),
            Value::Str(s) => Datum::Str(s@),
            Value::List(l) => Datum::List(l@),
            Value::Fn(f) => Datum::Fn(f.num_args, *f.body, f.external_values@),
            Value::Label(k) => Datum::Label(*k),
        }
    }

    /// A copy of this value; a list copy shares the element cells.
    pub fn copy(&self) -> (r: Value<'a>)
        ensures
            r.view() == self.view(),
    {
        match self {
            Value::Unit => Value::Unit,
            Value::Int(i) => Value::Int(*i),
            Value::Bool(b) => Value::Bool(*b),
            Value::Str(s) => Value::Str(s.clone()),
            Value::List(l) => Value::List(copy_slots(l)),
            Value::Fn(f) => Value::Fn(
                Function {
                    num_args: f.num_args,
                    body: f.body,
                    external_values: copy_slots(&f.external_values),
                },
            ),
            Value::Label(k) => Value::Label(*k),
        }
    }
}

impl<'a> V<'a> {
    pub open spec fn view(&self) -> Held {
        match self {
            V::Ptr(p) => Held::Ptr(*p),
            V::Val(v) => Held::Val(v.view()),
        }
    }
}

impl<'a> Machine<'a> {
    pub open spec fn view(&self) -> MachineView {
        MachineView {
            stack: self.stack@,
            heap: self.heap@.map_values(|v: Value<'a>| v.view()),
            next_label: self.next_label,
        }
    }

    /// An empty machine: no variables, no cells.
    pub fn new() -> (r: Machine<'a>)
        ensures
            r.view() == (MachineView { stack: Seq::empty(), heap: Seq::empty(), next_label: 0 }),
    {
        let r = Machine { stack: Vec::new(), heap: Vec::new(), next_label: 0 };
        assert(r.view().heap =~= Seq::<Datum>::empty());
        r
    }

    /// The value that an evaluation result stands for, if its cell exists.
    pub fn resolve(&self, v: &V<'a>) -> (r: Option<Value<'a>>)
        ensures
            match r {
                Some(x) => deref(self.view(), v.view()) == Some(x.view()),
                None => deref(self.view(), v.view()) is None,
            },
    {
        match v {
            V::Ptr(p) => {
                if *p < self.heap.len() {
                    Some(self.heap[*p].copy())
                } else {
                    None
                }
            },
            V::Val(x) => Some(x.copy()),
        }
    }
}

/// The value that a result stands for: the contents of its cell, or itself.
pub open spec fn deref(m: MachineView, h: Held) -> Option<Datum> {
    match h {
        Held::Ptr(p) => if p < m.heap.len() {
            Some(m.heap[p as int])
        } else {
            None
        },
        Held::Val(d) => Some(d),
    }
}

pub(crate) fn copy_slots(l: &Vec<usize>) -> (r: Vec<usize>)
    ensures
        r@ == l@,
{
    let mut r: Vec<usize> = Vec::new();
    let mut i: usize = 0;
    while i < l.len()
        invariant
            i <= l@.len(),
            r@ == l@.subrange(0, i as int),
        decreases l@.len() - i,
    {
        r.push(l[i]);
        i = i + 1;
        assert(r@ =~= l@.subrange(0, i as int));
    }
    assert(r@ =~= l@);
    r
}

} // verus!
