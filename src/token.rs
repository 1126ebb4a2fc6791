//! The token vocabulary that the parser consumes.
use vstd::prelude::*;

use crate::expression::{Const, Exp};

verus! {

/// A token handed over by the lexer. `FunctionCallOpen` and `ListSelectionOpen`
/// may be emitted by a lexer that already knows the context; the parser also
/// classifies plain brackets itself.
pub enum Token {
    Operand(Operand),
    Operator(Operator),
    While,
    If,
    Else,
    Let,
    Fn,
    FunctionCallOpen,
    ListSelectionOpen,
    RoundBracketOpen,
    RoundBracketClosed,
    SquareBracketOpen,
    SquareBracketClosed,
    CurlyBracketOpen,
    CurlyBracketClosed,
    Comma,
    Try,
    Catch,
    Callcc,
    In,
}

/// Whether a `(` or `[` right after a token of this kind opens a call or a selection.
pub open spec fn callable_spec(t: Token) -> bool {
    t is Operand || t is RoundBracketClosed || t is SquareBracketClosed
}

impl Token {
    /// If a token is callable, then a `(` token right after it
    /// begins a function call, and a `[` begins a list selection.
    pub fn is_callable(&self) -> (r: bool)
        ensures
            r == callable_spec(*self),
    {
        match self {
            Token::Operand(_) => true,
            Token::RoundBracketClosed => true,
            Token::SquareBracketClosed => true,
            _ => false,
        }
    }
}

/// A literal or an identifier.
pub enum Operand {
    Null,
    Int(i32),
    Bool(bool),
    Str(String),
    Var(String),
}

/// The constant that a literal operand denotes.
pub open spec fn literal_exp(o: Operand) -> Exp
    recommends
        !(o is Var),
{
    match o {
        Operand::Null => Exp::Const(Const::Unit),
        Operand::Int(i) => Exp::Const(Const::Integer(i)),
        Operand::Bool(b) => Exp::Const(Const::Boolean(b)),
        Operand::Str(s) => Exp::Const(Const::String(s)),
        Operand::Var(_) => Exp::Const(Const::Unit),
    }
}

impl Operand {
    /// The constant expression of a literal. Identifiers are resolved by the
    /// parser against its scopes instead.
    pub fn to_exp(&self) -> (r: Exp)
        requires
            !(*self is Var),
        ensures
            r == literal_exp(*self),
    {
        match self {
            Operand::Null => Exp::Const(Const::Unit),
            Operand::Int(i) => Exp::Const(Const::Integer(*i)),
            Operand::Bool(b) => Exp::Const(Const::Boolean(*b)),
            Operand::Str(s) => Exp::Const(Const::String(s.clone())),
            Operand::Var(_) => Exp::Const(Const::Unit),
        }
    }
}

/// Infix and prefix operators. `Throwcc` is the labelled throw, which the
/// parser chooses when a label and a value follow `throw`.
#[derive(Clone, Copy, Debug, PartialEq, Eq, Structural)]
pub enum Operator {
    Semicolon,
    Assign,
    And,
    Or,
    Not,
    Eq,
    Neq,
    Lt,
    Lte,
    Gt,
    Gte,
    Sum,
    Sub,
    Mul,
    Div,
    Mod,
    Throw,
    Throwcc,
}

/// Binding strength of an operator: a lower number binds tighter.
pub open spec fn precedence_spec(op: Operator) -> i32 {
    match op {
        Operator::Throw | Operator::Throwcc => 0,
        Operator::Mul | Operator::Div | Operator::Mod => 1,
        Operator::Sum | Operator::Sub => 2,
        Operator::Not | Operator::Lt | Operator::Lte | Operator::Gt | Operator::Gte
        | Operator::Eq | Operator::Neq => 4,
        Operator::And => 5,
        Operator::Or => 6,
        Operator::Assign => 7,
        Operator::Semicolon => 8,
    }
}

impl Operator {
    pub fn precedence(&self) -> (r: i32)
        ensures
            r == precedence_spec(*self),
    {
        match self {
            Operator::Throw => 0,
            Operator::Throwcc => 0,
            Operator::Mul => 1,
            Operator::Div => 1,
            Operator::Mod => 1,
            Operator::Sum => 2,
            Operator::Sub => 2,
            Operator::Not => 4,
            Operator::Lt => 4,
            Operator::Lte => 4,
            Operator::Gt => 4,
            Operator::Gte => 4,
            Operator::Eq => 4,
            Operator::Neq => 4,
            Operator::And => 5,
            Operator::Or => 6,
            Operator::Assign => 7,
            Operator::Semicolon => 8,
        }
    }
}

} // verus!
