//! The abstract syntax tree produced by the parser and consumed by the evaluator.
use vstd::prelude::*;

verus! {

/// A literal constant.
pub enum Const {
    Integer(i32),
    Boolean(bool),
    String(String),
    Unit,
}

/// A variable reference, resolved to its depth in the enclosing function frame.
pub struct Var {
    pub name: String,
    pub scope: usize,
}

/// An expression tree. Children are owned; the tree is immutable once built.
pub enum Exp {
    Const(Const),
    Var(Var),
    /// `let x = e1; e2`: binds `x` to the value of `e1` while evaluating `e2`.
    Decl(Var, Box<Exp>, Box<Exp>),
    /// `target = value`, where the target is a variable or a list selection.
    Assign(Box<Exp>, Box<Exp>),
    /// `e1; e2`
    Sequence(Box<Exp>, Box<Exp>),
    /// `[e1, ..., en]`
    List(Vec<Exp>),
    /// `list[index]`
    ListSelection(Box<Exp>, Box<Exp>),
    Sum(Box<Exp>, Box<Exp>),
    Sub(Box<Exp>, Box<Exp>),
    Mul(Box<Exp>, Box<Exp>),
    Div(Box<Exp>, Box<Exp>),
    Mod(Box<Exp>, Box<Exp>),
    Lt(Box<Exp>, Box<Exp>),
    Lte(Box<Exp>, Box<Exp>),
    Gt(Box<Exp>, Box<Exp>),
    Gte(Box<Exp>, Box<Exp>),
    Eq(Box<Exp>, Box<Exp>),
    Neq(Box<Exp>, Box<Exp>),
    And(Box<Exp>, Box<Exp>),
    Or(Box<Exp>, Box<Exp>),
    Not(Box<Exp>),
    /// `if c { e1 } else { e2 }`; a missing `else` is the unit constant.
    IfThenElse(Box<Exp>, Box<Exp>, Box<Exp>),
    /// `while guard { body }`
    While(Box<Exp>, Box<Exp>),
    /// `fn(params) { body }`
    Function(Vec<Var>, Box<Exp>),
    /// `callee(args)`
    FunctionCall(Box<Exp>, Vec<Exp>),
    /// `try { body }` without a handler.
    Try(Box<Exp>),
    /// `try { body } catch e { handler }`
    TryCatch(Box<Exp>, Var, Box<Exp>),
    /// `callcc k in { body }`
    Callcc(Var, Box<Exp>),
    /// `throw e`
    Throw(Box<Exp>),
    /// `throw k e`
    Throwcc(Var, Box<Exp>),
}

} // verus!
