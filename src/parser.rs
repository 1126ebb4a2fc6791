//! The shunting-yard parser: from a token stream to an expression tree, with
//! variables resolved to their depth in the enclosing function frame.
use vstd::prelude::*;
use vstd::string::StringExecFns;

use crate::expression::{Const, Exp, Var};
use crate::operators::decimal_u64;
use crate::semantics::decimal_nat;
use crate::token::{Operand, Operator, Token};

verus! {

/// A syntax diagnostic.
pub struct SyntaxError {
    pub msg: String,
}

fn syntax_error(msg: &str) -> (e: SyntaxError)
    ensures
        e.msg@ == msg@,
{
    SyntaxError { msg: String::from_str(msg) }
}

fn syntax_error_with(msg: &str, name: &String) -> (e: SyntaxError)
    ensures
        e.msg@ == msg@ + name@,
{
    SyntaxError { msg: String::from_str(msg).concat(name.as_str()) }
}

/// The lexical scope of one function being parsed. `variable_map` lists the
/// declarations in order, each with the depth it was given; the latest
/// declaration of a name wins. `var_scope` is the number of active bindings.
pub struct FunctionScope {
    pub input_vars: Vec<Var>,
    pub external_variables: Vec<Var>,
    pub var_scope: usize,
    pub variable_map: Vec<(String, usize)>,
}

/// The depth of the latest declaration of `name` among `bindings`.
pub open spec fn lookup(bindings: Seq<(String, usize)>, name: Seq<char>) -> Option<usize>
    decreases bindings.len(),
{
    if bindings.len() == 0 {
        None
    } else if bindings.last().0@ == name {
        Some(bindings.last().1)
    } else {
        lookup(bindings.drop_last(), name)
    }
}

impl FunctionScope {
    /// The outermost scope: no parameters and no bindings.
    pub fn new() -> (r: FunctionScope)
        ensures
            r.var_scope == 0,
            r.variable_map@.len() == 0,
            r.input_vars@.len() == 0,
    {
        FunctionScope {
            input_vars: Vec::new(),
            external_variables: Vec::new(),
            var_scope: 0,
            variable_map: Vec::new(),
        }
    }

    /// The depth that `name` resolves to: that of its latest declaration.
    pub fn lookup(&self, name: &String) -> (r: Option<usize>)
        ensures
            r == lookup(self.variable_map@, name@),
    {
        let mut i: usize = self.variable_map.len();
        assert(self.variable_map@.subrange(0, i as int) =~= self.variable_map@);
        while i > 0
            invariant
                i <= self.variable_map@.len(),
                lookup(self.variable_map@, name@) == lookup(
                    self.variable_map@.subrange(0, i as int),
                    name@,
                ),
            decreases i,
        {
            let ghost prefix = self.variable_map@.subrange(0, i as int);
            assert(prefix.drop_last() =~= self.variable_map@.subrange(0, i - 1));
            if self.variable_map[i - 1].0 == *name {
                return Some(self.variable_map[i - 1].1);
            }
            i = i - 1;
        }
        None
    }

    /// Declares `name` at the current depth, without opening a binding.
    pub fn bind(&mut self, name: String)
        ensures
            final(self).variable_map@ == old(self).variable_map@.push((name, old(self).var_scope)),
            final(self).var_scope == old(self).var_scope,
            final(self).input_vars == old(self).input_vars,
            final(self).external_variables == old(self).external_variables,
            final(self).variable_map@.drop_last() == old(self).variable_map@,
    {
        let d = self.var_scope;
        self.variable_map.push((name, d));
        assert(self.variable_map@.drop_last() =~= old(self).variable_map@);
    }
}

/// `s` with its depth set to `d`.
pub open spec fn set_depth(s: FunctionScope, d: usize) -> FunctionScope {
    FunctionScope {
        input_vars: s.input_vars,
        external_variables: s.external_variables,
        var_scope: d,
        variable_map: s.variable_map,
    }
}

/// `b` is `a` with `name` declared at the depth of `a`; when `opens`, the
/// binding is also opened, one depth further.
pub open spec fn declares(a: FunctionScope, b: FunctionScope, name: Seq<char>, opens: bool) -> bool {
    &&& b.input_vars == a.input_vars
    &&& b.external_variables == a.external_variables
    &&& b.variable_map@.len() == a.variable_map@.len() + 1
    &&& b.variable_map@.drop_last() == a.variable_map@
    &&& b.variable_map@.last().0@ == name
    &&& b.variable_map@.last().1 == a.var_scope
    &&& b.var_scope == if opens {
        a.var_scope + 1
    } else {
        a.var_scope as int
    }
}

/// The scope of a function literal with parameters `names`: parameter `i` is
/// bound at depth `i`, and the body's own bindings start above them.
pub open spec fn fresh_scope(sc: FunctionScope, names: Seq<Seq<char>>) -> bool {
    &&& sc.var_scope == names.len()
    &&& sc.input_vars@.len() == names.len()
    &&& sc.variable_map@.len() == names.len()
    &&& sc.external_variables@.len() == 0
    &&& forall|i: int|
        0 <= i < names.len() ==> (#[trigger] sc.input_vars@[i]).scope == i
            && sc.input_vars@[i].name@ == names[i]
    &&& forall|i: int|
        0 <= i < names.len() ==> (#[trigger] sc.variable_map@[i]).1 == i
            && sc.variable_map@[i].0@ == names[i]
}

/// The number of function literals whose body is still open on the operator
/// stack; each of them has pushed one scope.
pub open spec fn open_functions(s: Seq<Token>) -> nat
    decreases s.len(),
{
    if s.len() == 0 {
        0
    } else {
        open_functions(s.drop_last()) + if s.last() is Fn {
            1nat
        } else {
            0nat
        }
    }
}

proof fn lemma_open_functions_push(s: Seq<Token>, t: Token)
    ensures
        open_functions(s.push(t)) == open_functions(s) + if t is Fn {
            1nat
        } else {
            0nat
        },
{
    assert(s.push(t).drop_last() =~= s);
}

/// Pushes a token on the operator stack.
fn push_token(stack: &mut Vec<Token>, t: Token)
    ensures
        final(stack)@ == old(stack)@.push(t),
        open_functions(final(stack)@) == open_functions(old(stack)@) + if t is Fn {
            1nat
        } else {
            0nat
        },
        entry_bindings(final(stack)@) == entry_bindings(old(stack)@) + if open_functions(
            old(stack)@,
        ) == 0 && binds_here(t, old(stack)@) {
            1nat
        } else {
            0nat
        },
{
    proof {
        lemma_open_functions_push(stack@, t);
        assert(stack@.push(t).drop_last() =~= stack@);
    }
    stack.push(t);
}

/// Whether token `t`, standing on the operator stack right above `below`,
/// holds a binding open: a `let`, or the block of a `catch` or a `callcc`.
pub open spec fn binds_here(t: Token, below: Seq<Token>) -> bool {
    t is Let || (t is CurlyBracketOpen && below.len() > 0 && (below.last() is In
        || below.last() is Catch))
}

/// The number of bindings that the operator stack holds open in the scope
/// the parse started in: those below the first function literal.
pub open spec fn entry_bindings(s: Seq<Token>) -> nat
    decreases s.len(),
{
    if s.len() == 0 {
        0
    } else {
        let below = s.drop_last();
        entry_bindings(below) + if open_functions(below) == 0 && binds_here(s.last(), below) {
            1nat
        } else {
            0nat
        }
    }
}

/// The weight of a pending token: a `}` may still add a `;`, and a `;` may
/// still add a unit operand.
pub open spec fn token_weight(t: Token) -> nat {
    match t {
        Token::CurlyBracketClosed => 3,
        Token::Operator(Operator::Semicolon) => 2,
        _ => 1,
    }
}

/// The total weight of the pending tokens; each step of the parser lowers it.
pub open spec fn weight(ts: Seq<Token>) -> nat
    decreases ts.len(),
{
    if ts.len() == 0 {
        0
    } else {
        weight(ts.drop_last()) + token_weight(ts.last())
    }
}

proof fn lemma_weight_push(ts: Seq<Token>, t: Token)
    ensures
        weight(ts.push(t)) == weight(ts) + token_weight(t),
{
    assert(ts.push(t).drop_last() =~= ts);
}

proof fn lemma_weight_prefix(ts: Seq<Token>, k: int)
    requires
        0 <= k <= ts.len(),
    ensures
        weight(ts.subrange(0, k)) <= weight(ts),
    decreases ts.len(),
{
    if k < ts.len() {
        assert(ts.drop_last().subrange(0, k) =~= ts.subrange(0, k));
        lemma_weight_prefix(ts.drop_last(), k);
    } else {
        assert(ts.subrange(0, k) =~= ts);
    }
}

/// The expression of a binary operator.
pub open spec fn binary_node(op: Operator, a: Exp, b: Exp) -> Exp {
    match op {
        Operator::Assign => Exp::Assign(Box::new(a), Box::new(b)),
        Operator::And => Exp::And(Box::new(a), Box::new(b)),
        Operator::Or => Exp::Or(Box::new(a), Box::new(b)),
        Operator::Eq => Exp::Eq(Box::new(a), Box::new(b)),
        Operator::Neq => Exp::Neq(Box::new(a), Box::new(b)),
        Operator::Lt => Exp::Lt(Box::new(a), Box::new(b)),
        Operator::Lte => Exp::Lte(Box::new(a), Box::new(b)),
        Operator::Gt => Exp::Gt(Box::new(a), Box::new(b)),
        Operator::Gte => Exp::Gte(Box::new(a), Box::new(b)),
        Operator::Sum => Exp::Sum(Box::new(a), Box::new(b)),
        Operator::Sub => Exp::Sub(Box::new(a), Box::new(b)),
        Operator::Mul => Exp::Mul(Box::new(a), Box::new(b)),
        Operator::Div => Exp::Div(Box::new(a), Box::new(b)),
        Operator::Mod => Exp::Mod(Box::new(a), Box::new(b)),
        _ => Exp::Sequence(Box::new(a), Box::new(b)),
    }
}

/// What emitting operator `op` does to the output stack: it replaces its
/// operands on top with one node. `None` when the operands are missing.
pub open spec fn apply_operator(op: Operator, out: Seq<Exp>) -> Option<Seq<Exp>> {
    let n = out.len();
    match op {
        Operator::Semicolon => if n == 0 {
            None
        } else if n == 1 {
            Some(seq![Exp::Sequence(Box::new(Exp::Const(Const::Unit)), Box::new(out[0]))])
        } else {
            Some(
                out.subrange(0, n - 2).push(
                    Exp::Sequence(Box::new(out[n - 2]), Box::new(out[n - 1])),
                ),
            )
        },
        Operator::Not => if n == 0 {
            None
        } else {
            Some(out.drop_last().push(Exp::Not(Box::new(out[n - 1]))))
        },
        Operator::Throw => if n == 0 {
            None
        } else {
            Some(out.drop_last().push(Exp::Throw(Box::new(out[n - 1]))))
        },
        Operator::Throwcc => if n < 2 {
            None
        } else {
            match out[n - 2] {
                Exp::Var(k) => Some(
                    out.subrange(0, n - 2).push(Exp::Throwcc(k, Box::new(out[n - 1]))),
                ),
                _ => None,
            }
        },
        _ => if n < 2 {
            None
        } else {
            Some(out.subrange(0, n - 2).push(binary_node(op, out[n - 2], out[n - 1])))
        },
    }
}

fn binary_exp(op: Operator, a: Exp, b: Exp) -> (e: Exp)
    ensures
        e == binary_node(op, a, b),
{
    match op {
        Operator::Assign => Exp::Assign(Box::new(a), Box::new(b)),
        Operator::And => Exp::And(Box::new(a), Box::new(b)),
        Operator::Or => Exp::Or(Box::new(a), Box::new(b)),
        Operator::Eq => Exp::Eq(Box::new(a), Box::new(b)),
        Operator::Neq => Exp::Neq(Box::new(a), Box::new(b)),
        Operator::Lt => Exp::Lt(Box::new(a), Box::new(b)),
        Operator::Lte => Exp::Lte(Box::new(a), Box::new(b)),
        Operator::Gt => Exp::Gt(Box::new(a), Box::new(b)),
        Operator::Gte => Exp::Gte(Box::new(a), Box::new(b)),
        Operator::Sum => Exp::Sum(Box::new(a), Box::new(b)),
        Operator::Sub => Exp::Sub(Box::new(a), Box::new(b)),
        Operator::Mul => Exp::Mul(Box::new(a), Box::new(b)),
        Operator::Div => Exp::Div(Box::new(a), Box::new(b)),
        Operator::Mod => Exp::Mod(Box::new(a), Box::new(b)),
        _ => Exp::Sequence(Box::new(a), Box::new(b)),
    }
}

/// The text of an operator in diagnostics.
pub open spec fn op_text(op: Operator) -> Seq<char> {
    match op {
        Operator::Semicolon => ";"@,
        Operator::Assign => "="@,
        Operator::And => "&&"@,
        Operator::Or => "||"@,
        Operator::Not => "!"@,
        Operator::Eq => "=="@,
        Operator::Neq => "!="@,
        Operator::Lt => "<"@,
        Operator::Lte => "<="@,
        Operator::Gt => ">"@,
        Operator::Gte => ">="@,
        Operator::Sum => "+"@,
        Operator::Sub => "-"@,
        Operator::Mul => "*"@,
        Operator::Div => "/"@,
        Operator::Mod => "%"@,
        Operator::Throw => "throw"@,
        Operator::Throwcc => "throw"@,
    }
}

fn op_str(op: Operator) -> (s: &'static str)
    ensures
        s@ == op_text(op),
{
    match op {
        Operator::Semicolon => {
            proof {
                reveal_strlit(";");
            }
            ";"
        },
        Operator::Assign => {
            proof {
                reveal_strlit("=");
            }
            "="
        },
        Operator::And => {
            proof {
                reveal_strlit("&&");
            }
            "&&"
        },
        Operator::Or => {
            proof {
                reveal_strlit("||");
            }
            "||"
        },
        Operator::Not => {
            proof {
                reveal_strlit("!");
            }
            "!"
        },
        Operator::Eq => {
            proof {
                reveal_strlit("==");
            }
            "=="
        },
        Operator::Neq => {
            proof {
                reveal_strlit("!=");
            }
            "!="
        },
        Operator::Lt => {
            proof {
                reveal_strlit("<");
            }
            "<"
        },
        Operator::Lte => {
            proof {
                reveal_strlit("<=");
            }
            "<="
        },
        Operator::Gt => {
            proof {
                reveal_strlit(">");
            }
            ">"
        },
        Operator::Gte => {
            proof {
                reveal_strlit(">=");
            }
            ">="
        },
        Operator::Sum => {
            proof {
                reveal_strlit("+");
            }
            "+"
        },
        Operator::Sub => {
            proof {
                reveal_strlit("-");
            }
            "-"
        },
        Operator::Mul => {
            proof {
                reveal_strlit("*");
            }
            "*"
        },
        Operator::Div => {
            proof {
                reveal_strlit("/");
            }
            "/"
        },
        Operator::Mod => {
            proof {
                reveal_strlit("%");
            }
            "%"
        },
        Operator::Throw => {
            proof {
                reveal_strlit("throw");
            }
            "throw"
        },
        Operator::Throwcc => {
            proof {
                reveal_strlit("throw");
            }
            "throw"
        },
    }
}

/// The diagnostic for an operator whose operands are missing.
fn unexpected_operator(op: Operator) -> (e: SyntaxError)
    ensures
        e.msg@ == "Unexpected operator "@ + op_text(op),
{
    SyntaxError { msg: String::from_str("Unexpected operator ").concat(op_str(op)) }
}

/// The diagnostic of `apply_operator` where it fails.
pub open spec fn operator_error(op: Operator, out: Seq<Exp>) -> Seq<char> {
    if op == Operator::Throwcc && out.len() >= 2 && !(out[out.len() - 2] is Var) {
        "Expected var after callcc token"@
    } else {
        "Unexpected operator "@ + op_text(op)
    }
}

/// Emits operator `op`: its operands on top of `out` become one node.
fn push_operator_to_out(op: Operator, out: &mut Vec<Exp>) -> (r: Result<(), SyntaxError>)
    ensures
        r is Ok <==> apply_operator(op, old(out)@) is Some,
        r is Ok ==> final(out)@ == apply_operator(op, old(out)@)->Some_0,
        r is Err ==> final(out)@ == old(out)@,
        r is Err ==> r->Err_0.msg@ == operator_error(op, old(out)@),
{
    let n = out.len();
    match op {
        Operator::Semicolon => {
            let e2 = match out.pop() {
                Some(e) => e,
                None => {
                    return Err(unexpected_operator(op));
                },
            };
            let e1 = match out.pop() {
                Some(e) => e,
                None => Exp::Const(Const::Unit),
            };
            out.push(Exp::Sequence(Box::new(e1), Box::new(e2)));
            proof {
                if n >= 2 {
                    assert(final(out)@ =~= apply_operator(op, old(out)@)->Some_0);
                } else {
                    assert(final(out)@ =~= apply_operator(op, old(out)@)->Some_0);
                }
            }
            Ok(())
        },
        Operator::Not | Operator::Throw => {
            let e = match out.pop() {
                Some(e) => e,
                None => {
                    return Err(unexpected_operator(op));
                },
            };
            if op == Operator::Not {
                out.push(Exp::Not(Box::new(e)));
            } else {
                out.push(Exp::Throw(Box::new(e)));
            }
            Ok(())
        },
        Operator::Throwcc => {
            if n < 2 {
                return Err(unexpected_operator(op));
            }
            let is_label = match &out[n - 2] {
                Exp::Var(_) => true,
                _ => false,
            };
            if !is_label {
                return Err(syntax_error("Expected var after callcc token"));
            }
            let e = out.pop().unwrap();
            let k = out.pop().unwrap();
            match k {
                Exp::Var(v) => {
                    out.push(Exp::Throwcc(v, Box::new(e)));
                },
                _ => {},
            }
            assert(final(out)@ =~= apply_operator(op, old(out)@)->Some_0);
            Ok(())
        },
        _ => {
            if n < 2 {
                return Err(unexpected_operator(op));
            }
            let b = out.pop().unwrap();
            let a = out.pop().unwrap();
            out.push(binary_exp(op, a, b));
            assert(final(out)@ =~= apply_operator(op, old(out)@)->Some_0);
            Ok(())
        },
    }
}

/// What closing a `let` at depth `scope` does to the output stack: the
/// `x = e1; e2` (or `x; e2`) on top becomes a declaration, provided that `x`
/// was resolved to that depth.
pub open spec fn let_reduce(out: Seq<Exp>, scope: usize) -> Option<Seq<Exp>> {
    if out.len() == 0 {
        None
    } else {
        match out.last() {
            Exp::Sequence(e1, e2) => match *e1 {
                Exp::Assign(l, r) => match *l {
                    Exp::Var(v) => if v.scope == scope {
                        Some(out.drop_last().push(Exp::Decl(v, r, e2)))
                    } else {
                        None
                    },
                    _ => None,
                },
                Exp::Var(v) => if v.scope == scope {
                    Some(out.drop_last().push(Exp::Decl(v, Box::new(Exp::Const(Const::Unit)), e2)))
                } else {
                    None
                },
                _ => None,
            },
            _ => None,
        }
    }
}

/// The diagnostic for a declaration resolved at another depth than the
/// `let` that closes it.
pub open spec fn wrong_depth(v: Var, scope: usize) -> Seq<char> {
    "Variable "@ + v.name@ + " has scope "@ + decimal_nat(v.scope as nat)
        + ", but was expecting scope "@ + decimal_nat(scope as nat)
}

/// The diagnostic of `let_reduce` where it fails.
pub open spec fn let_error(out: Seq<Exp>, scope: usize) -> Seq<char> {
    if out.len() == 0 {
        "Expected ; after let"@
    } else {
        match out.last() {
            Exp::Sequence(e1, _) => match *e1 {
                Exp::Assign(l, _) => match *l {
                    Exp::Var(v) => wrong_depth(v, scope),
                    _ => "Expecting variable name after let"@,
                },
                Exp::Var(v) => wrong_depth(v, scope),
                _ => "Expecting variable or assignment after let"@,
            },
            _ => "Expected ; after let"@,
        }
    }
}

fn wrong_depth_error(v: &Var, scope: usize) -> (e: SyntaxError)
    ensures
        e.msg@ == wrong_depth(*v, scope),
{
    let d = decimal_u64(v.scope as u64);
    let s = decimal_u64(scope as u64);
    let msg = String::from_str("Variable ").concat(v.name.as_str()).concat(" has scope ").concat(
        d.as_str(),
    ).concat(", but was expecting scope ").concat(s.as_str());
    proof {
        reveal_strlit("Variable ");
        reveal_strlit(" has scope ");
        reveal_strlit(", but was expecting scope ");
    }
    SyntaxError { msg }
}

fn let_check(e: &Exp, scope: usize) -> (r: Result<(), SyntaxError>)
    ensures
        r is Ok <==> let_reduce(seq![*e], scope) is Some,
        r is Err ==> r->Err_0.msg@ == let_error(seq![*e], scope),
{
    match e {
        Exp::Sequence(e1, _) => match &**e1 {
            Exp::Assign(l, _) => match &**l {
                Exp::Var(v) => if v.scope == scope {
                    Ok(())
                } else {
                    Err(wrong_depth_error(v, scope))
                },
                _ => Err(syntax_error("Expecting variable name after let")),
            },
            Exp::Var(v) => if v.scope == scope {
                Ok(())
            } else {
                Err(wrong_depth_error(v, scope))
            },
            _ => Err(syntax_error("Expecting variable or assignment after let")),
        },
        _ => Err(syntax_error("Expected ; after let")),
    }
}

/// Turns the `let` body on top of `out` into a declaration at depth `scope`.
fn push_let_expr_to_out(out: &mut Vec<Exp>, scope: usize) -> (r: Result<(), SyntaxError>)
    ensures
        r is Ok <==> let_reduce(old(out)@, scope) is Some,
        r is Ok ==> final(out)@ == let_reduce(old(out)@, scope)->Some_0,
        r is Err ==> final(out)@ == old(out)@,
        r is Err ==> r->Err_0.msg@ == let_error(old(out)@, scope),
{
    let n = out.len();
    if n == 0 {
        return Err(syntax_error("Expected ; after let"));
    }
    let check = let_check(&out[n - 1], scope);
    assert(seq![out@[n - 1]].last() == out@.last());
    if check.is_err() {
        return check;
    }
    let top = out.pop().unwrap();
    match top {
        Exp::Sequence(e1, e2) => match *e1 {
            Exp::Assign(l, r) => match *l {
                Exp::Var(v) => {
                    out.push(Exp::Decl(v, r, e2));
                    Ok(())
                },
                _ => Ok(()),
            },
            Exp::Var(v) => {
                out.push(Exp::Decl(v, Box::new(Exp::Const(Const::Unit)), e2));
                Ok(())
            },
            _ => Ok(()),
        },
        _ => Ok(()),
    }
}

/// The names of a parameter list `( a, b, ... )`, read from the end of `ts`
/// (the next token is the last one), after its `(`; with the number of tokens
/// left once the `)` is read.
pub open spec fn params_after_open(ts: Seq<Token>, names: Seq<Seq<char>>) -> Option<
    (Seq<Seq<char>>, nat),
>
    decreases ts.len(),
{
    if ts.len() == 0 {
        None
    } else {
        match ts.last() {
            Token::RoundBracketClosed => Some((names, (ts.len() - 1) as nat)),
            Token::Operand(Operand::Var(n)) => {
                let rest = ts.drop_last();
                if rest.len() == 0 {
                    None
                } else {
                    match rest.last() {
                        Token::RoundBracketClosed => Some((names.push(n@), (rest.len() - 1) as nat)),
                        Token::Comma => params_after_open(rest.drop_last(), names.push(n@)),
                        _ => None,
                    }
                }
            },
            _ => None,
        }
    }
}

/// The parameter list at the end of `ts`, `(` included.
pub open spec fn params_spec(ts: Seq<Token>) -> Option<(Seq<Seq<char>>, nat)> {
    if ts.len() > 0 && ts.last() is RoundBracketOpen {
        params_after_open(ts.drop_last(), Seq::empty())
    } else {
        None
    }
}

/// The diagnostic of a malformed parameter list (see `params_after_open`).
pub open spec fn params_after_open_error(ts: Seq<Token>) -> Seq<char>
    decreases ts.len(),
{
    if ts.len() == 0 {
        "Malformed function params"@
    } else {
        match ts.last() {
            Token::RoundBracketClosed => Seq::empty(),
            Token::Operand(Operand::Var(_)) => {
                let rest = ts.drop_last();
                if rest.len() == 0 {
                    "Expected `,` after function argument"@
                } else {
                    match rest.last() {
                        Token::RoundBracketClosed => Seq::empty(),
                        Token::Comma => params_after_open_error(rest.drop_last()),
                        _ => "Expected `,` after function argument"@,
                    }
                }
            },
            _ => "Malformed function params"@,
        }
    }
}

/// The diagnostic of `params_spec` where it fails.
pub open spec fn params_error(ts: Seq<Token>) -> Seq<char> {
    if ts.len() > 0 && ts.last() is RoundBracketOpen {
        params_after_open_error(ts.drop_last())
    } else {
        "Expected ( after fn"@
    }
}

pub open spec fn names_view(v: Seq<String>) -> Seq<Seq<char>> {
    v.map_values(|s: String| s@)
}

/// Reads the parameter list of a function literal.
pub(crate) fn parse_function_def(tokens: &mut Vec<Token>) -> (r: Result<Vec<String>, SyntaxError>)
    ensures
        final(tokens)@.len() <= old(tokens)@.len(),
        final(tokens)@ == old(tokens)@.subrange(0, final(tokens)@.len() as int),
        match r {
            Ok(names) => params_spec(old(tokens)@) == Some(
                (names_view(names@), final(tokens)@.len()),
            ),
            Err(e) => params_spec(old(tokens)@) is None && e.msg@ == params_error(old(tokens)@),
        },
{
    let ghost t0 = tokens@;
    match tokens.pop() {
        Some(Token::RoundBracketOpen) => {},
        _ => {
            return Err(syntax_error("Expected ( after fn"));
        },
    }
    let mut input_vars: Vec<String> = Vec::new();
    assert(names_view(input_vars@) =~= Seq::<Seq<char>>::empty());
    loop
        invariant
            t0 == old(tokens)@,
            tokens@.len() < t0.len(),
            tokens@ == t0.subrange(0, tokens@.len() as int),
            params_spec(t0) == params_after_open(tokens@, names_view(input_vars@)),
            params_error(t0) == params_after_open_error(tokens@),
        decreases tokens@.len(),
    {
        let ghost before = tokens@;
        match tokens.pop() {
            Some(Token::RoundBracketClosed) => {
                return Ok(input_vars);
            },
            Some(Token::Operand(Operand::Var(name))) => {
                let ghost n = name@;
                let ghost old_names = names_view(input_vars@);
                input_vars.push(name);
                assert(names_view(input_vars@) =~= old_names.push(n));
                match tokens.pop() {
                    Some(Token::RoundBracketClosed) => {
                        return Ok(input_vars);
                    },
                    Some(Token::Comma) => {},
                    _ => {
                        return Err(syntax_error("Expected `,` after function argument"));
                    },
                }
            },
            _ => {
                return Err(syntax_error("Malformed function params"));
            },
        }
    }
}

/// Declares the variable that follows `let` and opens its binding.
fn handle_let_token(tokens: &Vec<Token>, stack: &mut Vec<Token>, scope: &mut FunctionScope) -> (r:
    Result<(), SyntaxError>)
    ensures
        r is Ok <==> (tokens@.len() > 0 && tokens@.last() is Operand
            && tokens@.last()->Operand_0 is Var && old(scope).var_scope < usize::MAX),
        r is Ok ==> final(stack)@ == old(stack)@.push(Token::Let) && final(scope).var_scope
            == old(scope).var_scope + 1 && final(scope).variable_map@.len()
            == old(scope).variable_map@.len() + 1 && final(scope).variable_map@.last().0@
            == tokens@.last()->Operand_0->Var_0@ && final(scope).variable_map@.last().1
            == old(scope).var_scope,
        r is Err ==> *final(stack) == *old(stack) && *final(scope) == *old(scope),
        r is Err ==> r->Err_0.msg@ == if tokens@.len() > 0 && tokens@.last() is Operand
            && tokens@.last()->Operand_0 is Var {
            "Too many variables"@
        } else {
            "Expected variable name after let"@
        },
        r is Ok ==> open_functions(final(stack)@) == open_functions(old(stack)@),
        r is Ok ==> declares(*old(scope), *final(scope), tokens@.last()->Operand_0->Var_0@, true),
        r is Ok ==> entry_bindings(final(stack)@) == entry_bindings(old(stack)@) + if open_functions(
            old(stack)@,
        ) == 0 {
            1nat
        } else {
            0nat
        },
        final(scope).input_vars == old(scope).input_vars,
{
    let n = tokens.len();
    if n == 0 {
        return Err(syntax_error("Expected variable name after let"));
    }
    match &tokens[n - 1] {
        Token::Operand(Operand::Var(name)) => {
            if scope.var_scope == usize::MAX {
                return Err(syntax_error("Too many variables"));
            }
            scope.bind(name.clone());
        },
        _ => {
            return Err(syntax_error("Expected variable name after let"));
        },
    }
    push_token(stack, Token::Let);
    scope.var_scope = scope.var_scope + 1;
    Ok(())
}

/// Whether an operator already on the stack is emitted before `op` is pushed:
/// it binds tighter, or as tightly and `op` is left-associative. Prefix
/// operators have no left operand and emit nothing. The binary operators are
/// left-associative, except `;` and `=`, which group to the right: a `let`
/// closes over `x = e1; rest` as one sequence whose left side is the binding,
/// so `a; b; c` must be `a; (b; c)`, and `x = y = e` assigns `y = e` to `x`.
pub open spec fn pops_before(op: Operator, top: Operator) -> bool {
    let p = crate::token::precedence_spec(op);
    let q = crate::token::precedence_spec(top);
    !(op is Not || op is Throw) && (q < p || (q == p && !(op is Semicolon || op is Assign)))
}

/// Emits the operators on top of the stack that bind before `op`.
pub open spec fn flush(op: Operator, stack: Seq<Token>, out: Seq<Exp>) -> Option<
    (Seq<Token>, Seq<Exp>),
>
    decreases stack.len(),
{
    if stack.len() > 0 && stack.last() is Operator && pops_before(
        op,
        stack.last()->Operator_0,
    ) {
        match apply_operator(stack.last()->Operator_0, out) {
            Some(o) => flush(op, stack.drop_last(), o),
            None => None,
        }
    } else {
        Some((stack, out))
    }
}

proof fn lemma_flush_keeps_functions(op: Operator, stack: Seq<Token>, out: Seq<Exp>)
    ensures
        flush(op, stack, out) is Some ==> open_functions(flush(op, stack, out)->Some_0.0)
            == open_functions(stack) && entry_bindings(flush(op, stack, out)->Some_0.0)
            == entry_bindings(stack),
    decreases stack.len(),
{
    if stack.len() > 0 && stack.last() is Operator && pops_before(op, stack.last()->Operator_0) {
        match apply_operator(stack.last()->Operator_0, out) {
            Some(o) => lemma_flush_keeps_functions(op, stack.drop_last(), o),
            None => {},
        }
    }
}

/// The diagnostic of `flush` where it fails.
pub open spec fn flush_error(op: Operator, stack: Seq<Token>, out: Seq<Exp>) -> Seq<char>
    decreases stack.len(),
{
    if stack.len() > 0 && stack.last() is Operator && pops_before(
        op,
        stack.last()->Operator_0,
    ) {
        match apply_operator(stack.last()->Operator_0, out) {
            Some(o) => flush_error(op, stack.drop_last(), o),
            None => operator_error(stack.last()->Operator_0, out),
        }
    } else {
        Seq::empty()
    }
}

/// A token that ends the operand of a `throw`.
pub open spec fn ends_operand(t: Token) -> bool {
    t == Token::Operator(Operator::Semicolon) || t is RoundBracketClosed || t is SquareBracketClosed
        || t is CurlyBracketClosed
}

/// `throw` followed by an identifier and then by more than a terminator is a
/// labelled throw; otherwise it is a plain throw.
pub open spec fn throw_kind(tokens: Seq<Token>) -> Operator {
    let n = tokens.len();
    if n >= 2 && tokens[n - 1] is Operand && tokens[n - 1]->Operand_0 is Var && !ends_operand(
        tokens[n - 2],
    ) {
        Operator::Throwcc
    } else {
        Operator::Throw
    }
}

/// The operator that goes on the stack for `op`.
pub open spec fn pushed_operator(op: Operator, tokens: Seq<Token>) -> Operator {
    if op == Operator::Throw {
        throw_kind(tokens)
    } else {
        op
    }
}

fn is_operand_end(t: &Token) -> (r: bool)
    ensures
        r == ends_operand(*t),
{
    match t {
        Token::Operator(Operator::Semicolon) => true,
        Token::RoundBracketClosed => true,
        Token::SquareBracketClosed => true,
        Token::CurlyBracketClosed => true,
        _ => false,
    }
}

/// Handles operator `op`: emits what binds before it, then pushes it.
fn handle_operator_token(
    op: Operator,
    stack: &mut Vec<Token>,
    out: &mut Vec<Exp>,
    tokens: &Vec<Token>,
) -> (r: Result<(), SyntaxError>)
    ensures
        r is Ok <==> flush(op, old(stack)@, old(out)@) is Some,
        r is Ok ==> ({
            let (s, o) = flush(op, old(stack)@, old(out)@)->Some_0;
            final(stack)@ == s.push(Token::Operator(pushed_operator(op, tokens@))) && final(out)@
                == o
        }),
        r is Ok ==> open_functions(final(stack)@) == open_functions(old(stack)@),
        r is Ok ==> entry_bindings(final(stack)@) == entry_bindings(old(stack)@),
        r is Err ==> r->Err_0.msg@ == flush_error(op, old(stack)@, old(out)@),
{
    proof {
        lemma_flush_keeps_functions(op, stack@, out@);
    }
    let prefix = op == Operator::Not || op == Operator::Throw;
    let p = op.precedence();
    loop
        invariant
            prefix == (op is Not || op is Throw),
            p == crate::token::precedence_spec(op),
            flush(op, old(stack)@, old(out)@) == flush(op, stack@, out@),
            flush_error(op, old(stack)@, old(out)@) == flush_error(op, stack@, out@),
        ensures
            flush(op, old(stack)@, old(out)@) == Some((stack@, out@)),
        decreases stack@.len(),
    {
        let n = stack.len();
        if n == 0 || prefix {
            break;
        }
        let top = match &stack[n - 1] {
            Token::Operator(o2) => *o2,
            _ => {
                break;
            },
        };
        let q = top.precedence();
        let left = !(op == Operator::Semicolon || op == Operator::Assign);
        if q < p || (q == p && left) {
            push_operator_to_out(top, out)?;
            stack.pop();
        } else {
            break;
        }
    }
    let pushed = if op == Operator::Throw {
        let n = tokens.len();
        let labelled = n >= 2 && match &tokens[n - 1] {
            Token::Operand(Operand::Var(_)) => !is_operand_end(&tokens[n - 2]),
            _ => false,
        };
        if labelled {
            Operator::Throwcc
        } else {
            Operator::Throw
        }
    } else {
        op
    };
    push_token(stack, Token::Operator(pushed));
    Ok(())
}

/// Whether a token opens the bracket pair that `)` (`round`) or `]` closes.
pub open spec fn opens(t: Token, round: bool) -> bool {
    if round {
        t is FunctionCallOpen || t is RoundBracketOpen
    } else {
        t is ListSelectionOpen || t is SquareBracketOpen
    }
}

/// Pops the stack down to the opening bracket, emitting operators and
/// counting commas: the stack below the bracket, the output, the number of
/// commas, and the bracket.
pub open spec fn unwind(stack: Seq<Token>, out: Seq<Exp>, commas: nat, round: bool) -> Option<
    (Seq<Token>, Seq<Exp>, nat, Token),
>
    decreases stack.len(),
{
    if stack.len() == 0 {
        None
    } else {
        let t = stack.last();
        if opens(t, round) {
            Some((stack.drop_last(), out, commas, t))
        } else {
            match t {
                Token::Operator(op) => match apply_operator(op, out) {
                    Some(o) => unwind(stack.drop_last(), o, commas, round),
                    None => None,
                },
                Token::Comma => unwind(stack.drop_last(), out, commas + 1, round),
                _ => None,
            }
        }
    }
}

proof fn lemma_unwind_keeps_functions(stack: Seq<Token>, out: Seq<Exp>, commas: nat, round: bool)
    ensures
        unwind(stack, out, commas, round) is Some ==> open_functions(
            unwind(stack, out, commas, round)->Some_0.0,
        ) == open_functions(stack) && entry_bindings(unwind(stack, out, commas, round)->Some_0.0)
            == entry_bindings(stack),
    decreases stack.len(),
{
    if stack.len() > 0 && !opens(stack.last(), round) {
        match stack.last() {
            Token::Operator(op) => match apply_operator(op, out) {
                Some(o) => lemma_unwind_keeps_functions(stack.drop_last(), o, commas, round),
                None => {},
            },
            Token::Comma => lemma_unwind_keeps_functions(stack.drop_last(), out, commas + 1, round),
            _ => {},
        }
    }
}

/// The diagnostic of `unwind` where it fails.
pub open spec fn unwind_error(stack: Seq<Token>, out: Seq<Exp>, round: bool) -> Seq<char>
    decreases stack.len(),
{
    if stack.len() == 0 {
        "Mismatched round brackets"@
    } else {
        let t = stack.last();
        if opens(t, round) {
            Seq::empty()
        } else {
            match t {
                Token::Operator(op) => match apply_operator(op, out) {
                    Some(o) => unwind_error(stack.drop_last(), o, round),
                    None => operator_error(op, out),
                },
                Token::Comma => unwind_error(stack.drop_last(), out, round),
                Token::FunctionCallOpen | Token::RoundBracketOpen => "Round brackets mismatch"@,
                Token::ListSelectionOpen | Token::SquareBracketOpen => "Square brackets mismatch"@,
                Token::CurlyBracketOpen => if round {
                    "Round brackets mismatch"@
                } else {
                    "Curly brackets mismatch"@
                },
                Token::Let => "Unexpected let statement in round brackets"@,
                Token::Fn => "Unexpected `fn` token in round brackets"@,
                _ => "Unexpected token inside brackets"@,
            }
        }
    }
}

/// The diagnostic of `)` where it fails.
pub open spec fn round_error(stack: Seq<Token>, out: Seq<Exp>, args: bool) -> Seq<char> {
    let u = unwind(stack, out, 0, true);
    if u is None {
        unwind_error(stack, out, true)
    } else {
        let (s, o, c, t) = u->Some_0;
        let n = if args {
            c + 1
        } else {
            c
        };
        if t is FunctionCallOpen {
            if o.len() < n {
                "Wrong number of function call arguments"@
            } else {
                "Missing callable expression before function call"@
            }
        } else {
            "Unexpected `,` inside round brackets"@
        }
    }
}

/// The diagnostic of `]` where it fails.
pub open spec fn square_error(stack: Seq<Token>, out: Seq<Exp>) -> Seq<char> {
    let u = unwind(stack, out, 0, false);
    if u is None {
        unwind_error(stack, out, false)
    } else {
        let (s, o, c, t) = u->Some_0;
        if t is ListSelectionOpen {
            if c != 0 {
                "Unexpected `,` in list selection"@
            } else if o.len() == 0 {
                "List selection must contain one expression"@
            } else {
                "Missing list expression before list selection"@
            }
        } else {
            "Malformed list"@
        }
    }
}

fn unwind_exec(stack: &mut Vec<Token>, out: &mut Vec<Exp>, round: bool) -> (r: Result<
    (usize, Token),
    SyntaxError,
>)
    ensures
        r is Ok <==> unwind(old(stack)@, old(out)@, 0, round) is Some,
        r is Ok ==> ({
            let (s, o, c, t) = unwind(old(stack)@, old(out)@, 0, round)->Some_0;
            final(stack)@ == s && final(out)@ == o && r->Ok_0.0 == c && r->Ok_0.1 == t
        }),
        r is Err ==> r->Err_0.msg@ == unwind_error(old(stack)@, old(out)@, round),
{
    let mut commas: usize = 0;
    assert(stack@.len() == stack.len());
    loop
        invariant
            commas <= old(stack)@.len() - stack@.len(),
            old(stack)@.len() <= usize::MAX,
            stack@.len() <= old(stack)@.len(),
            unwind(old(stack)@, old(out)@, 0, round) == unwind(stack@, out@, commas as nat, round),
            unwind_error(old(stack)@, old(out)@, round) == unwind_error(stack@, out@, round),
        decreases stack@.len(),
    {
        let t = match stack.pop() {
            Some(t) => t,
            None => {
                return Err(syntax_error("Mismatched round brackets"));
            },
        };
        match t {
            Token::FunctionCallOpen | Token::RoundBracketOpen => {
                if round {
                    return Ok((commas, t));
                }
                return Err(syntax_error("Round brackets mismatch"));
            },
            Token::ListSelectionOpen | Token::SquareBracketOpen => {
                if !round {
                    return Ok((commas, t));
                }
                return Err(syntax_error("Square brackets mismatch"));
            },
            Token::Operator(op) => {
                push_operator_to_out(op, out)?;
            },
            Token::Comma => {
                commas = commas + 1;
            },
            Token::CurlyBracketOpen => {
                if round {
                    return Err(syntax_error("Round brackets mismatch"));
                }
                return Err(syntax_error("Curly brackets mismatch"));
            },
            Token::Let => {
                return Err(syntax_error("Unexpected let statement in round brackets"));
            },
            Token::Fn => {
                return Err(syntax_error("Unexpected `fn` token in round brackets"));
            },
            _ => {
                return Err(syntax_error("Unexpected token inside brackets"));
            },
        }
    }
}

/// `)` closes its bracket pair: `s2` and `o2` are the stack and output after
/// the call or the grouping is complete; `args` is false for `()`.
pub open spec fn round_closed(stack: Seq<Token>, out: Seq<Exp>, args: bool, s2: Seq<Token>, o2: Seq<
    Exp,
>) -> bool {
    let u = unwind(stack, out, 0, true);
    u is Some && ({
        let (s, o, c, t) = u->Some_0;
        let n = if args {
            c + 1
        } else {
            c
        };
        &&& s2 == s
        &&& if t is FunctionCallOpen {
            &&& o.len() >= n + 1
            &&& o2.len() == o.len() - n
            &&& o2.drop_last() == o.subrange(0, o.len() - n - 1)
            &&& match o2.last() {
                Exp::FunctionCall(callee, a) => *callee == o[o.len() - n - 1] && a@ == o.subrange(
                    o.len() - n,
                    o.len() as int,
                ),
                _ => false,
            }
        } else {
            n <= 1 && o2 == o
        }
    })
}

/// `]` closes its bracket pair: a selection or a list literal.
pub open spec fn square_closed(stack: Seq<Token>, out: Seq<Exp>, s2: Seq<Token>, o2: Seq<Exp>) -> bool {
    let u = unwind(stack, out, 0, false);
    u is Some && ({
        let (s, o, c, t) = u->Some_0;
        &&& s2 == s
        &&& if t is ListSelectionOpen {
            c == 0 && o.len() >= 2 && o2 == o.subrange(0, o.len() - 2).push(
                Exp::ListSelection(Box::new(o[o.len() - 2]), Box::new(o[o.len() - 1])),
            )
        } else {
            &&& o.len() >= c + 1
            &&& o2.len() == o.len() - c
            &&& o2.drop_last() == o.subrange(0, o.len() - c - 1)
            &&& match o2.last() {
                Exp::List(items) => items@ == o.subrange(o.len() - c - 1, o.len() as int),
                _ => false,
            }
        }
    })
}

/// Closes a round bracket pair. A call bracket takes the callee and its
/// `n` arguments off the output and emits the call; `args` is false for an
/// empty argument list. A grouping bracket holds at most one expression.
fn handle_round_bracket_closed_token(stack: &mut Vec<Token>, out: &mut Vec<Exp>, args: bool) -> (r:
    Result<(), SyntaxError>)
    ensures
        r is Ok <==> ({
            let u = unwind(old(stack)@, old(out)@, 0, true);
            u is Some && ({
                let (s, o, c, t) = u->Some_0;
                let n = if args {
                    c + 1
                } else {
                    c
                };
                if t is FunctionCallOpen {
                    o.len() >= n + 1
                } else {
                    n <= 1
                }
            })
        }),
        r is Ok ==> ({
            let (s, o, c, t) = unwind(old(stack)@, old(out)@, 0, true)->Some_0;
            let n = if args {
                c + 1
            } else {
                c
            };
            &&& final(stack)@ == s
            &&& t is FunctionCallOpen ==> final(out)@.len() == o.len() - n && final(out)@.drop_last()
                == o.subrange(0, o.len() - n - 1) && (match final(out)@.last() {
                Exp::FunctionCall(callee, a) => *callee == o[o.len() - n - 1] && a@ == o.subrange(
                    o.len() - n,
                    o.len() as int,
                ),
                _ => false,
            })
            &&& !(t is FunctionCallOpen) ==> final(out)@ == o
        }),
        r is Ok ==> open_functions(final(stack)@) == open_functions(old(stack)@),
        r is Ok ==> round_closed(old(stack)@, old(out)@, args, final(stack)@, final(out)@),
        r is Err ==> r->Err_0.msg@ == round_error(old(stack)@, old(out)@, args),
        r is Ok ==> entry_bindings(final(stack)@) == entry_bindings(old(stack)@),
{
    proof {
        lemma_unwind_keeps_functions(stack@, out@, 0, true);
    }
    let (commas, opener) = unwind_exec(stack, out, true)?;
    let n: usize = if args {
        if commas == usize::MAX {
            assert(out@.len() == out.len());
            if let Token::FunctionCallOpen = opener {
                return Err(syntax_error("Wrong number of function call arguments"));
            }
            return Err(syntax_error("Unexpected `,` inside round brackets"));
        }
        commas + 1
    } else {
        commas
    };
    match opener {
        Token::FunctionCallOpen => {
            if out.len() < n {
                return Err(syntax_error("Wrong number of function call arguments"));
            }
            if out.len() == n {
                return Err(syntax_error("Missing callable expression before function call"));
            }
            let ghost o = out@;
            let arguments = out.split_off(out.len() - n);
            let callee = out.pop().unwrap();
            out.push(Exp::FunctionCall(Box::new(callee), arguments));
            assert(out@.drop_last() =~= o.subrange(0, o.len() - n - 1));
            Ok(())
        },
        _ => {
            if n > 1 {
                return Err(syntax_error("Unexpected `,` inside round brackets"));
            }
            Ok(())
        },
    }
}

/// Closes a square bracket pair: a selection `list[index]` needs exactly one
/// index; a list literal takes its `n` elements off the output.
fn handle_square_bracket_closed_token(stack: &mut Vec<Token>, out: &mut Vec<Exp>) -> (r: Result<
    (),
    SyntaxError,
>)
    ensures
        r is Ok <==> ({
            let u = unwind(old(stack)@, old(out)@, 0, false);
            u is Some && ({
                let (s, o, c, t) = u->Some_0;
                if t is ListSelectionOpen {
                    c == 0 && o.len() >= 2
                } else {
                    o.len() >= c + 1
                }
            })
        }),
        r is Ok ==> ({
            let (s, o, c, t) = unwind(old(stack)@, old(out)@, 0, false)->Some_0;
            &&& final(stack)@ == s
            &&& t is ListSelectionOpen ==> final(out)@ == o.subrange(0, o.len() - 2).push(
                Exp::ListSelection(Box::new(o[o.len() - 2]), Box::new(o[o.len() - 1])),
            )
            &&& !(t is ListSelectionOpen) ==> final(out)@.len() == o.len() - c
                && final(out)@.drop_last() == o.subrange(0, o.len() - c - 1)
                && (match final(out)@.last() {
                Exp::List(items) => items@ == o.subrange(o.len() - c - 1, o.len() as int),
                _ => false,
            })
        }),
        r is Ok ==> open_functions(final(stack)@) == open_functions(old(stack)@),
        r is Ok ==> square_closed(old(stack)@, old(out)@, final(stack)@, final(out)@),
        r is Err ==> r->Err_0.msg@ == square_error(old(stack)@, old(out)@),
        r is Ok ==> entry_bindings(final(stack)@) == entry_bindings(old(stack)@),
{
    proof {
        lemma_unwind_keeps_functions(stack@, out@, 0, false);
    }
    let (commas, opener) = unwind_exec(stack, out, false)?;
    match opener {
        Token::ListSelectionOpen => {
            if commas != 0 {
                return Err(syntax_error("Unexpected `,` in list selection"));
            }
            if out.len() == 0 {
                return Err(syntax_error("List selection must contain one expression"));
            }
            if out.len() < 2 {
                return Err(syntax_error("Missing list expression before list selection"));
            }
            let ghost o = out@;
            let index = out.pop().unwrap();
            let list = out.pop().unwrap();
            out.push(Exp::ListSelection(Box::new(list), Box::new(index)));
            assert(out@ =~= o.subrange(0, o.len() - 2).push(
                Exp::ListSelection(Box::new(o[o.len() - 2]), Box::new(o[o.len() - 1])),
            ));
            Ok(())
        },
        _ => {
            if out.len() <= commas {
                return Err(syntax_error("Malformed list"));
            }
            let ghost o = out@;
            let items = out.split_off(out.len() - commas - 1);
            out.push(Exp::List(items));
            assert(out@.drop_last() =~= o.subrange(0, o.len() - commas - 1));
            Ok(())
        },
    }
}

/// Emits the operators of the current list element or argument, down to the
/// bracket or separator that starts it; `None` when something else is in the
/// way.
pub open spec fn flush_element(stack: Seq<Token>, out: Seq<Exp>) -> Option<(Seq<Token>, Seq<Exp>)>
    decreases stack.len(),
{
    if stack.len() == 0 {
        None
    } else {
        match stack.last() {
            Token::SquareBracketOpen | Token::FunctionCallOpen | Token::Comma => Some((stack, out)),
            Token::Operator(op) => match apply_operator(op, out) {
                Some(o) => flush_element(stack.drop_last(), o),
                None => None,
            },
            _ => None,
        }
    }
}

/// The diagnostic of `flush_element` where it fails.
pub open spec fn element_error(stack: Seq<Token>, out: Seq<Exp>) -> Seq<char>
    decreases stack.len(),
{
    if stack.len() == 0 {
        "Unexpected `,`"@
    } else {
        match stack.last() {
            Token::SquareBracketOpen | Token::FunctionCallOpen | Token::Comma => Seq::empty(),
            Token::Operator(op) => match apply_operator(op, out) {
                Some(o) => element_error(stack.drop_last(), o),
                None => operator_error(op, out),
            },
            _ => "Unexpected `,`"@,
        }
    }
}

proof fn lemma_flush_element_keeps_functions(stack: Seq<Token>, out: Seq<Exp>)
    ensures
        flush_element(stack, out) is Some ==> open_functions(flush_element(stack, out)->Some_0.0)
            == open_functions(stack) && entry_bindings(flush_element(stack, out)->Some_0.0)
            == entry_bindings(stack),
    decreases stack.len(),
{
    if stack.len() > 0 && stack.last() is Operator {
        match apply_operator(stack.last()->Operator_0, out) {
            Some(o) => lemma_flush_element_keeps_functions(stack.drop_last(), o),
            None => {},
        }
    }
}

/// Handles `,`: emits the pending operators of the current element, then
/// pushes the separator.
fn handle_comma(stack: &mut Vec<Token>, out: &mut Vec<Exp>) -> (r: Result<(), SyntaxError>)
    ensures
        r is Ok <==> flush_element(old(stack)@, old(out)@) is Some,
        r is Ok ==> ({
            let (s, o) = flush_element(old(stack)@, old(out)@)->Some_0;
            final(stack)@ == s.push(Token::Comma) && final(out)@ == o
        }),
        r is Ok ==> open_functions(final(stack)@) == open_functions(old(stack)@),
        r is Ok ==> entry_bindings(final(stack)@) == entry_bindings(old(stack)@),
        r is Err ==> r->Err_0.msg@ == element_error(old(stack)@, old(out)@),
{
    proof {
        lemma_flush_element_keeps_functions(stack@, out@);
    }
    loop
        invariant
            flush_element(old(stack)@, old(out)@) == flush_element(stack@, out@),
            element_error(old(stack)@, old(out)@) == element_error(stack@, out@),
        ensures
            flush_element(old(stack)@, old(out)@) == Some((stack@, out@)),
        decreases stack@.len(),
    {
        let n = stack.len();
        if n == 0 {
            return Err(syntax_error("Unexpected `,`"));
        }
        let op = match &stack[n - 1] {
            Token::SquareBracketOpen | Token::FunctionCallOpen | Token::Comma => {
                break;
            },
            Token::Operator(op) => *op,
            _ => {
                return Err(syntax_error("Unexpected `,`"));
            },
        };
        push_operator_to_out(op, out)?;
        stack.pop();
    }
    push_token(stack, Token::Comma);
    Ok(())
}

/// The control form that a closing `}` completes.
#[derive(Clone, Copy, PartialEq, Eq, Structural)]
enum Marker {
    While,
    If,
    Else,
    Try,
    Catch,
    Fn,
    In,
    Block,
}

spec fn marker_spec(t: Token) -> Marker {
    match t {
        Token::While => Marker::While,
        Token::If => Marker::If,
        Token::Else => Marker::Else,
        Token::Try => Marker::Try,
        Token::Catch => Marker::Catch,
        Token::Fn => Marker::Fn,
        Token::In => Marker::In,
        _ => Marker::Block,
    }
}

fn marker_of(t: &Token) -> (m: Marker)
    ensures
        m == marker_spec(*t),
{
    match t {
        Token::While => Marker::While,
        Token::If => Marker::If,
        Token::Else => Marker::Else,
        Token::Try => Marker::Try,
        Token::Catch => Marker::Catch,
        Token::Fn => Marker::Fn,
        Token::In => Marker::In,
        _ => Marker::Block,
    }
}

/// Closes the innermost binding of the current function: the depth goes
/// down by one, and never below zero.
fn close_binding(function_stack: &mut Vec<FunctionScope>) -> (r: Result<usize, SyntaxError>)
    requires
        old(function_stack)@.len() >= 1,
    ensures
        final(function_stack)@.len() == old(function_stack)@.len(),
        r is Ok <==> old(function_stack)@.last().var_scope > 0,
        r is Ok ==> r->Ok_0 == old(function_stack)@.last().var_scope - 1
            && final(function_stack)@.last().var_scope == r->Ok_0,
        final(function_stack)@.last().input_vars == old(function_stack)@.last().input_vars,
        final(function_stack)@.drop_last() == old(function_stack)@.drop_last(),
        r is Ok ==> final(function_stack)@ == old(function_stack)@.drop_last().push(
            set_depth(old(function_stack)@.last(), r->Ok_0),
        ),
        r is Err ==> final(function_stack)@ == old(function_stack)@,
        r is Err ==> r->Err_0.msg@ == "Scope depth would go below zero"@,
{
    let ghost outer = function_stack@.drop_last();
    let ghost whole = function_stack@;
    let mut scope = function_stack.pop().unwrap();
    if scope.var_scope == 0 {
        function_stack.push(scope);
        assert(function_stack@.drop_last() =~= outer);
        assert(function_stack@ =~= whole);
        return Err(syntax_error("Scope depth would go below zero"));
    }
    scope.var_scope = scope.var_scope - 1;
    let d = scope.var_scope;
    function_stack.push(scope);
    assert(function_stack@.drop_last() =~= outer);
    Ok(d)
}

/// Opens the binding of a `catch` or `callcc` variable for its block.
fn open_binding(function_stack: &mut Vec<FunctionScope>) -> (r: Result<(), SyntaxError>)
    requires
        old(function_stack)@.len() >= 1,
    ensures
        final(function_stack)@.len() == old(function_stack)@.len(),
        r is Ok <==> old(function_stack)@.last().var_scope < usize::MAX,
        r is Ok ==> final(function_stack)@.last().var_scope == old(function_stack)@.last().var_scope
            + 1,
        r is Ok ==> final(function_stack)@ == old(function_stack)@.drop_last().push(
            set_depth(
                old(function_stack)@.last(),
                (old(function_stack)@.last().var_scope + 1) as usize,
            ),
        ),
        r is Err ==> final(function_stack)@ == old(function_stack)@,
        r is Err ==> r->Err_0.msg@ == "Too many variables"@,
{
    let ghost whole = function_stack@;
    let mut scope = function_stack.pop().unwrap();
    if scope.var_scope == usize::MAX {
        function_stack.push(scope);
        assert(function_stack@ =~= whole);
        return Err(syntax_error("Too many variables"));
    }
    scope.var_scope = scope.var_scope + 1;
    function_stack.push(scope);
    Ok(())
}

/// Closes a `let` marker: the depth goes down and the declaration is built.
fn close_let(out: &mut Vec<Exp>, function_stack: &mut Vec<FunctionScope>) -> (r: Result<
    (),
    SyntaxError,
>)
    requires
        old(function_stack)@.len() >= 1,
    ensures
        final(function_stack)@.len() == old(function_stack)@.len(),
        r is Ok <==> old(function_stack)@.last().var_scope > 0 && let_reduce(
            old(out)@,
            (old(function_stack)@.last().var_scope - 1) as usize,
        ) is Some,
        r is Ok ==> old(function_stack)@.last().var_scope > 0 && let_reduce(
            old(out)@,
            (old(function_stack)@.last().var_scope - 1) as usize,
        ) is Some && final(out)@ == let_reduce(
            old(out)@,
            (old(function_stack)@.last().var_scope - 1) as usize,
        )->Some_0,
        r is Ok ==> final(function_stack)@.last().var_scope == old(function_stack)@.last().var_scope
            - 1,
        final(function_stack)@.last().input_vars == old(function_stack)@.last().input_vars,
        final(function_stack)@.drop_last() == old(function_stack)@.drop_last(),
        r is Ok ==> final(function_stack)@ == old(function_stack)@.drop_last().push(
            set_depth(
                old(function_stack)@.last(),
                (old(function_stack)@.last().var_scope - 1) as usize,
            ),
        ),
        r is Err ==> r->Err_0.msg@ == if old(function_stack)@.last().var_scope == 0 {
            "Scope depth would go below zero"@
        } else {
            let_error(old(out)@, (old(function_stack)@.last().var_scope - 1) as usize)
        },
{
    let d = close_binding(function_stack)?;
    push_let_expr_to_out(out, d)
}

/// Pops the stack down to the `{` of the block, emitting operators and
/// closing the `let` bindings opened in the block, `depth` being the number
/// of bindings open: the stack below the `{`, the output, and the depth left.
pub open spec fn unwind_block(stack: Seq<Token>, out: Seq<Exp>, depth: usize) -> Option<
    (Seq<Token>, Seq<Exp>, usize),
>
    decreases stack.len(),
{
    if stack.len() == 0 {
        None
    } else {
        match stack.last() {
            Token::CurlyBracketOpen => Some((stack.drop_last(), out, depth)),
            Token::Operator(op) => match apply_operator(op, out) {
                Some(o) => unwind_block(stack.drop_last(), o, depth),
                None => None,
            },
            Token::Let => if depth == 0 {
                None
            } else {
                match let_reduce(out, (depth - 1) as usize) {
                    Some(o) => unwind_block(stack.drop_last(), o, (depth - 1) as usize),
                    None => None,
                }
            },
            _ => None,
        }
    }
}

/// How a closed block completes the control form below it: `s` and `o` are
/// the stack and output once the block is unwound, `s2` and `o2` what they
/// become, `params` the parameters of the innermost function scope, and
/// `is_fn` whether the block was a function body.
pub open spec fn block_closed(
    s: Seq<Token>,
    o: Seq<Exp>,
    s2: Seq<Token>,
    o2: Seq<Exp>,
    params: Seq<Var>,
    is_fn: bool,
) -> bool {
    let n = o.len();
    if s.len() == 0 {
        s2 == s && o2 == o && !is_fn
    } else {
        match s.last() {
            Token::While => !is_fn && s2 == s.drop_last() && n >= 2 && o2 == o.subrange(
                0,
                n - 2,
            ).push(Exp::While(Box::new(o[n - 2]), Box::new(o[n - 1]))),
            Token::If => !is_fn && s2 == s.drop_last() && n >= 2 && o2 == o.subrange(0, n - 2).push(
                Exp::IfThenElse(
                    Box::new(o[n - 2]),
                    Box::new(o[n - 1]),
                    Box::new(Exp::Const(Const::Unit)),
                ),
            ),
            Token::Else => !is_fn && s2 == s.drop_last() && n >= 2 && match o[n - 2] {
                Exp::IfThenElse(c, t, f) => *f == Exp::Const(Const::Unit) && o2 == o.subrange(
                    0,
                    n - 2,
                ).push(Exp::IfThenElse(c, t, Box::new(o[n - 1]))),
                _ => false,
            },
            Token::Try => !is_fn && s2 == s.drop_last() && n >= 1 && o2 == o.drop_last().push(
                Exp::Try(Box::new(o[n - 1])),
            ),
            Token::Catch => !is_fn && s2 == s.drop_last() && n >= 3 && match (o[n - 3], o[n - 2]) {
                (Exp::Try(b), Exp::Var(v)) => o2 == o.subrange(0, n - 3).push(
                    Exp::TryCatch(b, v, Box::new(o[n - 1])),
                ),
                _ => false,
            },
            Token::Fn => is_fn && s2 == s.drop_last() && n >= 1 && o2.len() == n && o2.drop_last()
                == o.drop_last() && match o2.last() {
                Exp::Function(ps, b) => ps@ == params && *b == o[n - 1],
                _ => false,
            },
            Token::In => !is_fn && s.len() >= 2 && s[s.len() - 2] is Callcc && s2 == s.subrange(
                0,
                s.len() - 2,
            ) && n >= 2 && match o[n - 2] {
                Exp::Var(k) => o2 == o.subrange(0, n - 2).push(Exp::Callcc(k, Box::new(o[n - 1]))),
                _ => false,
            },
            _ => s2 == s && o2 == o && !is_fn,
        }
    }
}

/// Whether the control form below a block that has been unwound can be
/// completed: `s` and `o` are the stack and output once the block is unwound,
/// `d` the depth left, `scopes` the number of scopes.
pub open spec fn block_completes(s: Seq<Token>, o: Seq<Exp>, d: usize, scopes: nat) -> bool {
    let n = o.len();
    if s.len() == 0 {
        true
    } else {
        match s.last() {
            Token::While | Token::If => n >= 2,
            Token::Else => n >= 2 && match o[n - 2] {
                Exp::IfThenElse(_, _, f) => *f == Exp::Const(Const::Unit),
                _ => false,
            },
            Token::Try => n >= 1,
            Token::Catch => n >= 3 && d > 0 && o[n - 2] is Var && o[n - 3] is Try,
            Token::Fn => scopes >= 2 && n >= 1,
            Token::In => s.len() >= 2 && s[s.len() - 2] is Callcc && n >= 2 && d > 0
                && o[n - 2] is Var,
            _ => true,
        }
    }
}

proof fn lemma_unwind_block_bindings(s: Seq<Token>, o: Seq<Exp>, d: usize)
    ensures
        unwind_block(s, o, d) is Some ==> ({
            let (s2, o2, d2) = unwind_block(s, o, d)->Some_0;
            let closes = s2.len() > 0 && (s2.last() is In || s2.last() is Catch);
            &&& open_functions(s2) == open_functions(s)
            &&& d2 <= d
            &&& open_functions(s) == 0 ==> entry_bindings(s) == entry_bindings(s2) + (d - d2) + if closes {
                1int
            } else {
                0int
            }
            &&& open_functions(s) > 0 ==> entry_bindings(s) == entry_bindings(s2)
        }),
    decreases s.len(),
{
    if s.len() > 0 {
        match s.last() {
            Token::Operator(op) => match apply_operator(op, o) {
                Some(o1) => lemma_unwind_block_bindings(s.drop_last(), o1, d),
                None => {},
            },
            Token::Let => if d > 0 {
                match let_reduce(o, (d - 1) as usize) {
                    Some(o1) => lemma_unwind_block_bindings(s.drop_last(), o1, (d - 1) as usize),
                    None => {},
                }
            },
            _ => {},
        }
    }
}

/// The diagnostic of `unwind_block` where it fails.
pub open spec fn unwind_block_error(stack: Seq<Token>, out: Seq<Exp>, depth: usize) -> Seq<char>
    decreases stack.len(),
{
    if stack.len() == 0 {
        "Curly brackets mismatch"@
    } else {
        match stack.last() {
            Token::CurlyBracketOpen => Seq::empty(),
            Token::Operator(op) => match apply_operator(op, out) {
                Some(o) => unwind_block_error(stack.drop_last(), o, depth),
                None => operator_error(op, out),
            },
            Token::Let => if depth == 0 {
                "Scope depth would go below zero"@
            } else {
                match let_reduce(out, (depth - 1) as usize) {
                    Some(o) => unwind_block_error(stack.drop_last(), o, (depth - 1) as usize),
                    None => let_error(out, (depth - 1) as usize),
                }
            },
            Token::Comma => "Unexpected `,`"@,
            Token::FunctionCallOpen | Token::RoundBracketOpen => "Round brackets mismatch"@,
            Token::ListSelectionOpen | Token::SquareBracketOpen => "Square brackets mismatch"@,
            Token::Fn => "Unexpected `fn` token in curly brackets"@,
            _ => "Unexpected token in a block"@,
        }
    }
}

/// The diagnostic for a control form that the closed block cannot complete
/// (see `block_completes`).
pub open spec fn complete_error(s: Seq<Token>, o: Seq<Exp>, d: usize, scopes: nat) -> Seq<char> {
    let n = o.len();
    if s.len() == 0 {
        Seq::empty()
    } else {
        match s.last() {
            Token::While => "Malformed while"@,
            Token::If => "Malformed if"@,
            Token::Else => if n < 2 {
                "Malformed else"@
            } else {
                match o[n - 2] {
                    Exp::IfThenElse(_, _, _) => "If expression already has an else branch"@,
                    _ => "Unexpected else"@,
                }
            },
            Token::Try => "Malformed Try"@,
            Token::Catch => if n < 3 {
                "Malformed Try-Catch"@
            } else if d == 0 {
                "Scope depth would go below zero"@
            } else if !(o[n - 2] is Var) {
                "Malformed Try-Catch"@
            } else {
                "Unexpected Catch"@
            },
            Token::Fn => if scopes < 2 {
                "Unexpected end of function"@
            } else {
                "Missing function declaration body"@
            },
            Token::In => if !(s.len() >= 2 && s[s.len() - 2] is Callcc) || n < 2 {
                "Malformed call/cc"@
            } else if d == 0 {
                "Scope depth would go below zero"@
            } else {
                "Malformed call/cc"@
            },
            _ => Seq::empty(),
        }
    }
}

/// The diagnostic of `}` where it fails.
pub open spec fn block_error(stack: Seq<Token>, out: Seq<Exp>, depth: usize, scopes: nat) -> Seq<
    char,
> {
    let u = unwind_block(stack, out, depth);
    if u is None {
        unwind_block_error(stack, out, depth)
    } else {
        complete_error(u->Some_0.0, u->Some_0.1, u->Some_0.2, scopes)
    }
}

/// Handles `}`: emits everything down to the matching `{`, closing the `let`
/// bindings opened in the block, then completes the control form that the
/// block belongs to. Returns whether the block was a function body.
fn handle_curly_bracket_closed_token(
    stack: &mut Vec<Token>,
    out: &mut Vec<Exp>,
    function_stack: &mut Vec<FunctionScope>,
) -> (r: Result<bool, SyntaxError>)
    requires
        old(function_stack)@.len() >= 1,
    ensures
        final(function_stack)@.len() >= 1,
        r is Ok ==> final(stack)@.len() < old(stack)@.len(),
        r matches Ok(true) ==> final(function_stack)@.len() == old(function_stack)@.len() - 1,
        r matches Ok(false) ==> final(function_stack)@.len() == old(function_stack)@.len(),
        r matches Ok(true) ==> open_functions(final(stack)@) + 1 == open_functions(old(stack)@),
        r matches Ok(false) ==> open_functions(final(stack)@) == open_functions(old(stack)@),
        r is Ok <==> ({
            let u = unwind_block(old(stack)@, old(out)@, old(function_stack)@.last().var_scope);
            u is Some && block_completes(
                u->Some_0.0,
                u->Some_0.1,
                u->Some_0.2,
                old(function_stack)@.len(),
            )
        }),
        r is Err ==> r->Err_0.msg@ == block_error(
            old(stack)@,
            old(out)@,
            old(function_stack)@.last().var_scope,
            old(function_stack)@.len(),
        ),
        r matches Ok(true) ==> final(function_stack)@ == old(function_stack)@.drop_last(),
        r matches Ok(true) ==> entry_bindings(final(stack)@) == entry_bindings(old(stack)@),
        r matches Ok(false) && open_functions(old(stack)@) == 0 ==> entry_bindings(old(stack)@)
            == entry_bindings(final(stack)@) + (old(function_stack)@.last().var_scope
            - final(function_stack)@.last().var_scope),
        r matches Ok(false) && open_functions(old(stack)@) > 0 ==> entry_bindings(final(stack)@)
            == entry_bindings(old(stack)@),
        r matches Ok(false) ==> ({
            let u = unwind_block(old(stack)@, old(out)@, old(function_stack)@.last().var_scope);
            let d = u->Some_0.2;
            let s = u->Some_0.0;
            let closes = s.len() > 0 && (s.last() is Catch || s.last() is In);
            final(function_stack)@ == old(function_stack)@.drop_last().push(
                set_depth(
                    old(function_stack)@.last(),
                    if closes {
                        (d - 1) as usize
                    } else {
                        d
                    },
                ),
            ) && (closes ==> d > 0)
        }),
        r is Ok ==> ({
            let u = unwind_block(old(stack)@, old(out)@, old(function_stack)@.last().var_scope);
            &&& u is Some
            &&& block_closed(
                u->Some_0.0,
                u->Some_0.1,
                final(stack)@,
                final(out)@,
                old(function_stack)@.last().input_vars@,
                r->Ok_0,
            )
        }),
{
    let ghost depth0 = function_stack@.last().var_scope;
    proof {
        lemma_unwind_block_bindings(stack@, out@, depth0);
    }
    let ghost params = function_stack@.last().input_vars@;
    loop
        invariant_except_break
            unwind_block_error(old(stack)@, old(out)@, depth0) == unwind_block_error(
                stack@,
                out@,
                function_stack@.last().var_scope,
            ),
            unwind_block(old(stack)@, old(out)@, depth0) == unwind_block(
                stack@,
                out@,
                function_stack@.last().var_scope,
            ),
        invariant
            function_stack@.len() == old(function_stack)@.len(),
            old(function_stack)@.len() >= 1,
            stack@.len() <= old(stack)@.len(),
            open_functions(stack@) == open_functions(old(stack)@),
            depth0 == old(function_stack)@.last().var_scope,
            params == old(function_stack)@.last().input_vars@,
            function_stack@.last().input_vars@ == params,
            function_stack@ == old(function_stack)@.drop_last().push(
                set_depth(old(function_stack)@.last(), function_stack@.last().var_scope),
            ),
        ensures
            function_stack@.len() == old(function_stack)@.len(),
            stack@.len() < old(stack)@.len(),
            open_functions(stack@) == open_functions(old(stack)@),
            function_stack@.last().input_vars@ == params,
            function_stack@ == old(function_stack)@.drop_last().push(
                set_depth(old(function_stack)@.last(), function_stack@.last().var_scope),
            ),
            unwind_block(old(stack)@, old(out)@, depth0) == Some(
                (stack@, out@, function_stack@.last().var_scope),
            ),
        decreases stack@.len(),
    {
        match stack.pop() {
            Some(Token::CurlyBracketOpen) => {
                break;
            },
            Some(Token::Operator(op)) => {
                push_operator_to_out(op, out)?;
            },
            Some(Token::Let) => {
                close_let(out, function_stack)?;
            },
            Some(Token::Comma) => {
                return Err(syntax_error("Unexpected `,`"));
            },
            None => {
                return Err(syntax_error("Curly brackets mismatch"));
            },
            Some(Token::FunctionCallOpen) | Some(Token::RoundBracketOpen) => {
                return Err(syntax_error("Round brackets mismatch"));
            },
            Some(Token::ListSelectionOpen) | Some(Token::SquareBracketOpen) => {
                return Err(syntax_error("Square brackets mismatch"));
            },
            Some(Token::Fn) => {
                return Err(syntax_error("Unexpected `fn` token in curly brackets"));
            },
            Some(_) => {
                return Err(syntax_error("Unexpected token in a block"));
            },
        }
    }
    let n = stack.len();
    if n == 0 {
        return Ok(false);
    }
    let marker = marker_of(&stack[n - 1]);
    if marker == Marker::Block {
        return Ok(false);
    }
    let ghost before_marker = stack@;
    let ghost o = out@;
    let ghost n_out = o.len();
    stack.pop();
    assert(open_functions(before_marker) == open_functions(stack@) + if marker == Marker::Fn {
        1nat
    } else {
        0nat
    });
    assert(entry_bindings(before_marker) == entry_bindings(stack@));
    match marker {
        Marker::While => {
            if out.len() < 2 {
                return Err(syntax_error("Malformed while"));
            }
            let body = out.pop().unwrap();
            let guard = out.pop().unwrap();
            out.push(Exp::While(Box::new(guard), Box::new(body)));
            assert(out@ =~= o.subrange(0, n_out - 2).push(
                Exp::While(Box::new(o[n_out - 2]), Box::new(o[n_out - 1])),
            ));
            Ok(false)
        },
        Marker::If => {
            if out.len() < 2 {
                return Err(syntax_error("Malformed if"));
            }
            let then_branch = out.pop().unwrap();
            let clause = out.pop().unwrap();
            out.push(
                Exp::IfThenElse(
                    Box::new(clause),
                    Box::new(then_branch),
                    Box::new(Exp::Const(Const::Unit)),
                ),
            );
            assert(out@ =~= o.subrange(0, n_out - 2).push(
                Exp::IfThenElse(
                    Box::new(o[n_out - 2]),
                    Box::new(o[n_out - 1]),
                    Box::new(Exp::Const(Const::Unit)),
                ),
            ));
            Ok(false)
        },
        Marker::Else => {
            if out.len() < 2 {
                return Err(syntax_error("Malformed else"));
            }
            let else_branch = out.pop().unwrap();
            match out.pop().unwrap() {
                Exp::IfThenElse(clause, then_branch, default) => match *default {
                    Exp::Const(Const::Unit) => {
                        out.push(Exp::IfThenElse(clause, then_branch, Box::new(else_branch)));
                        assert(out@ =~= o.subrange(0, n_out - 2).push(
                            Exp::IfThenElse(clause, then_branch, Box::new(o[n_out - 1])),
                        ));
                        Ok(false)
                    },
                    _ => Err(syntax_error("If expression already has an else branch")),
                },
                _ => Err(syntax_error("Unexpected else")),
            }
        },
        Marker::Try => {
            if out.len() < 1 {
                return Err(syntax_error("Malformed Try"));
            }
            let block = out.pop().unwrap();
            out.push(Exp::Try(Box::new(block)));
            Ok(false)
        },
        Marker::Catch => {
            if out.len() < 3 {
                return Err(syntax_error("Malformed Try-Catch"));
            }
            close_binding(function_stack)?;
            let handler = out.pop().unwrap();
            let exc = match out.pop().unwrap() {
                Exp::Var(v) => v,
                _ => {
                    return Err(syntax_error("Malformed Try-Catch"));
                },
            };
            match out.pop().unwrap() {
                Exp::Try(block) => {
                    out.push(Exp::TryCatch(block, exc, Box::new(handler)));
                    assert(out@ =~= o.subrange(0, n_out - 3).push(
                        Exp::TryCatch(block, exc, Box::new(o[n_out - 1])),
                    ));
                    Ok(false)
                },
                _ => Err(syntax_error("Unexpected Catch")),
            }
        },
        Marker::Fn => {
            if function_stack.len() < 2 {
                return Err(syntax_error("Unexpected end of function"));
            }
            let scope = function_stack.pop().unwrap();
            let body = match out.pop() {
                Some(b) => b,
                None => {
                    return Err(syntax_error("Missing function declaration body"));
                },
            };
            out.push(Exp::Function(scope.input_vars, Box::new(body)));
            assert(out@.drop_last() =~= o.drop_last());
            Ok(true)
        },
        Marker::In => {
            let m = stack.len();
            let owner = if m > 0 {
                match &stack[m - 1] {
                    Token::Callcc => true,
                    _ => false,
                }
            } else {
                false
            };
            if !owner || out.len() < 2 {
                return Err(syntax_error("Malformed call/cc"));
            }
            let ghost before_owner = stack@;
            stack.pop();
            assert(open_functions(before_owner) == open_functions(stack@));
            assert(entry_bindings(before_owner) == entry_bindings(stack@));
            assert(stack@ =~= before_marker.subrange(0, before_marker.len() - 2));
            close_binding(function_stack)?;
            let body = out.pop().unwrap();
            match out.pop().unwrap() {
                Exp::Var(k) => {
                    out.push(Exp::Callcc(k, Box::new(body)));
                    assert(out@ =~= o.subrange(0, n_out - 2).push(
                        Exp::Callcc(k, Box::new(o[n_out - 1])),
                    ));
                    Ok(false)
                },
                _ => Err(syntax_error("Malformed call/cc")),
            }
        },
        Marker::Block => Ok(false),
    }
}

fn is_curly_closed(t: &Token) -> (r: bool)
    ensures
        r == (*t is CurlyBracketClosed),
{
    match t {
        Token::CurlyBracketClosed => true,
        _ => false,
    }
}

fn is_semicolon(t: &Token) -> (r: bool)
    ensures
        r == (*t == Token::Operator(Operator::Semicolon)),
{
    match t {
        Token::Operator(Operator::Semicolon) => true,
        _ => false,
    }
}

/// No `;` is inserted after `}` before these tokens.
pub open spec fn continues_block(t: Token) -> bool {
    t == Token::Operator(Operator::Semicolon) || t is Catch || t is Else || t is CurlyBracketClosed
}

fn continues_after_block(t: &Token) -> (r: bool)
    ensures
        r == continues_block(*t),
{
    match t {
        Token::Operator(Operator::Semicolon) => true,
        Token::Catch => true,
        Token::Else => true,
        Token::CurlyBracketClosed => true,
        _ => false,
    }
}

fn name_expected(after_catch: bool) -> (e: SyntaxError)
    ensures
        e.msg@ == if after_catch {
            "Expected variable name after catch token"@
        } else {
            "Expected variable name after callcc token"@
        },
{
    if after_catch {
        syntax_error("Expected variable name after catch token")
    } else {
        syntax_error("Expected variable name after callcc token")
    }
}

/// Declares the identifier that follows `catch` or `callcc`, at the current
/// depth; its binding opens with the block.
fn bind_next_name(
    tokens: &Vec<Token>,
    function_stack: &mut Vec<FunctionScope>,
    after_catch: bool,
) -> (r: Result<
    (),
    SyntaxError,
>)
    requires
        old(function_stack)@.len() >= 1,
    ensures
        final(function_stack)@.len() == old(function_stack)@.len(),
        r is Ok <==> (tokens@.len() > 0 && tokens@.last() is Operand
            && tokens@.last()->Operand_0 is Var),
        r is Ok ==> final(function_stack)@.drop_last() == old(function_stack)@.drop_last()
            && declares(
            old(function_stack)@.last(),
            final(function_stack)@.last(),
            tokens@.last()->Operand_0->Var_0@,
            false,
        ),
        r is Err ==> r->Err_0.msg@ == if after_catch {
            "Expected variable name after catch token"@
        } else {
            "Expected variable name after callcc token"@
        },
{
    let n = tokens.len();
    if n == 0 {
        return Err(name_expected(after_catch));
    }
    match &tokens[n - 1] {
        Token::Operand(Operand::Var(name)) => {
            let ghost outer = function_stack@.drop_last();
            let mut scope = function_stack.pop().unwrap();
            scope.bind(name.clone());
            function_stack.push(scope);
            assert(function_stack@.drop_last() =~= outer);
            Ok(())
        },
        _ => Err(name_expected(after_catch)),
    }
}

/// The scope of a function literal: parameter `i` is bound at depth `i`, and
/// the body's own bindings start above them.
pub(crate) fn function_scope(names: &Vec<String>) -> (r: FunctionScope)
    ensures
        r.var_scope == names@.len(),
        r.input_vars@.len() == names@.len(),
        forall|i: int| 0 <= i < names@.len() ==> r.input_vars@[i].scope == i
            && r.input_vars@[i].name@ == names@[i]@,
        forall|i: int| 0 <= i < names@.len() ==> r.variable_map@[i].1 == i
            && r.variable_map@[i].0@ == names@[i]@,
        r.variable_map@.len() == names@.len(),
        r.external_variables@.len() == 0,
        fresh_scope(r, names_view(names@)),
{
    let mut input_vars: Vec<Var> = Vec::new();
    let mut variable_map: Vec<(String, usize)> = Vec::new();
    let mut i: usize = 0;
    while i < names.len()
        invariant
            i <= names@.len(),
            input_vars@.len() == i,
            variable_map@.len() == i,
            forall|j: int| 0 <= j < i ==> input_vars@[j].scope == j && input_vars@[j].name@
                == names@[j]@,
            forall|j: int| 0 <= j < i ==> variable_map@[j].1 == j && variable_map@[j].0@
                == names@[j]@,
        decreases names@.len() - i,
    {
        input_vars.push(Var { name: names[i].clone(), scope: i });
        variable_map.push((names[i].clone(), i));
        i = i + 1;
    }
    FunctionScope { input_vars, external_variables: Vec::new(), var_scope: names.len(), variable_map }
}


/// The number of operators on top of the stack.
pub open spec fn trailing_operators(s: Seq<Token>) -> nat
    decreases s.len(),
{
    if s.len() > 0 && s.last() is Operator {
        1 + trailing_operators(s.drop_last())
    } else {
        0
    }
}

/// Emits the `k` operators on top of the stack, in order.
pub open spec fn emit_operators(s: Seq<Token>, out: Seq<Exp>, k: nat) -> Option<
    (Seq<Token>, Seq<Exp>),
>
    decreases k,
{
    if k == 0 || s.len() == 0 {
        Some((s, out))
    } else {
        match s.last() {
            Token::Operator(op) => match apply_operator(op, out) {
                Some(o) => emit_operators(s.drop_last(), o, (k - 1) as nat),
                None => None,
            },
            _ => None,
        }
    }
}

/// The diagnostic of `emit_operators` where it fails.
pub open spec fn emit_error(s: Seq<Token>, out: Seq<Exp>, k: nat) -> Seq<char>
    decreases k,
{
    if k == 0 || s.len() == 0 {
        Seq::empty()
    } else {
        match s.last() {
            Token::Operator(op) => match apply_operator(op, out) {
                Some(o) => emit_error(s.drop_last(), o, (k - 1) as nat),
                None => operator_error(op, out),
            },
            _ => "Malformed guard"@,
        }
    }
}

/// Whether the operators on top of the stack are the guard of an `if` or a
/// `while`.
pub open spec fn guarded(s: Seq<Token>) -> bool {
    let j = s.len() - trailing_operators(s);
    j > 0 && (s[j - 1] is If || s[j - 1] is While)
}

proof fn lemma_trailing_operators(s: Seq<Token>)
    ensures
        trailing_operators(s) <= s.len(),
        forall|i: int| s.len() - trailing_operators(s) <= i < s.len() ==> (#[trigger] s[i]) is Operator,
        trailing_operators(s) < s.len() ==> !(s[s.len() - trailing_operators(s) - 1] is Operator),
    decreases s.len(),
{
    if s.len() > 0 && s.last() is Operator {
        let t = s.drop_last();
        lemma_trailing_operators(t);
        assert forall|i: int| s.len() - trailing_operators(s) <= i < s.len() implies (
        #[trigger] s[i]) is Operator by {
            if i < s.len() - 1 {
                assert(s[i] == t[i]);
            }
        }
        if trailing_operators(s) < s.len() {
            assert(s[s.len() - trailing_operators(s) - 1] == t[t.len() - trailing_operators(t) - 1]);
        }
    }
}

proof fn lemma_emit_keeps_functions(s: Seq<Token>, out: Seq<Exp>, k: nat)
    ensures
        emit_operators(s, out, k) is Some ==> open_functions(emit_operators(s, out, k)->Some_0.0)
            == open_functions(s) && entry_bindings(emit_operators(s, out, k)->Some_0.0)
            == entry_bindings(s),
    decreases k,
{
    if k > 0 && s.len() > 0 && s.last() is Operator {
        match apply_operator(s.last()->Operator_0, out) {
            Some(o) => lemma_emit_keeps_functions(s.drop_last(), o, (k - 1) as nat),
            None => {},
        }
    }
}

fn is_operator(t: &Token) -> (r: bool)
    ensures
        r == (*t is Operator),
{
    match t {
        Token::Operator(_) => true,
        _ => false,
    }
}

/// At the `{` of an `if` or `while`, emits the operators of its guard, which
/// stand above the marker on the stack; elsewhere it does nothing.
fn flush_guard(stack: &mut Vec<Token>, out: &mut Vec<Exp>) -> (r: Result<(), SyntaxError>)
    ensures
        guarded(old(stack)@) ==> (r is Ok <==> emit_operators(
            old(stack)@,
            old(out)@,
            trailing_operators(old(stack)@),
        ) is Some),
        guarded(old(stack)@) && r is Ok ==> (final(stack)@, final(out)@) == emit_operators(
            old(stack)@,
            old(out)@,
            trailing_operators(old(stack)@),
        )->Some_0,
        !guarded(old(stack)@) ==> r is Ok && final(stack)@ == old(stack)@ && final(out)@ == old(
            out,
        )@,
        r is Ok ==> open_functions(final(stack)@) == open_functions(old(stack)@),
        r is Ok ==> entry_bindings(final(stack)@) == entry_bindings(old(stack)@),
        r is Err ==> r->Err_0.msg@ == emit_error(
            old(stack)@,
            old(out)@,
            trailing_operators(old(stack)@),
        ),
{
    proof {
        lemma_trailing_operators(stack@);
        lemma_emit_keeps_functions(stack@, out@, trailing_operators(stack@));
    }
    let mut j: usize = stack.len();
    while j > 0 && is_operator(&stack[j - 1])
        invariant
            stack@ == old(stack)@,
            out@ == old(out)@,
            j <= stack@.len(),
            forall|i: int| j <= i < stack@.len() ==> (#[trigger] stack@[i]) is Operator,
            j >= stack@.len() - trailing_operators(stack@),
            trailing_operators(stack@) <= stack@.len(),
            trailing_operators(stack@) < stack@.len() ==> !(stack@[stack@.len()
                - trailing_operators(stack@) - 1] is Operator),
        decreases j,
    {
        j = j - 1;
    }
    assert(j == stack@.len() - trailing_operators(stack@));
    let guard = j > 0 && match &stack[j - 1] {
        Token::If | Token::While => true,
        _ => false,
    };
    if !guard {
        return Ok(());
    }
    let ghost k0 = trailing_operators(stack@);
    let ghost goal = emit_operators(stack@, out@, k0);
    while stack.len() > j
        invariant
            guarded(old(stack)@),
            goal == emit_operators(old(stack)@, old(out)@, trailing_operators(old(stack)@)),
            j <= stack@.len(),
            forall|i: int| j <= i < stack@.len() ==> (#[trigger] stack@[i]) is Operator,
            goal == emit_operators(stack@, out@, (stack@.len() - j) as nat),
            emit_error(old(stack)@, old(out)@, trailing_operators(old(stack)@)) == emit_error(
                stack@,
                out@,
                (stack@.len() - j) as nat,
            ),
            open_functions(stack@) == open_functions(old(stack)@),
            goal is Some ==> open_functions(goal->Some_0.0) == open_functions(old(stack)@),
            goal is Some ==> entry_bindings(goal->Some_0.0) == entry_bindings(old(stack)@),
        decreases stack@.len(),
    {
        match stack.pop() {
            Some(Token::Operator(op)) => push_operator_to_out(op, out)?,
            _ => {
                return Err(syntax_error("Malformed guard"));
            },
        }
    }
    Ok(())
}

/// The reference to identifier `name` in `scope`: a variable at the depth of
/// the latest declaration of `name`, or an error when there is none.
fn resolve_var(name: String, scope: &FunctionScope) -> (r: Result<Exp, SyntaxError>)
    ensures
        r is Ok <==> lookup(scope.variable_map@, name@) is Some,
        r is Ok ==> r->Ok_0 == Exp::Var(
            Var { name, scope: lookup(scope.variable_map@, name@)->Some_0 },
        ),
        r is Err ==> r->Err_0.msg@ == "Unknown variable "@ + name@,
{
    match scope.lookup(&name) {
        Some(d) => Ok(Exp::Var(Var { name, scope: d })),
        None => Err(syntax_error_with("Unknown variable ", &name)),
    }
}

/// The diagnostic for a token left on the operator stack at the end of the
/// input.
pub open spec fn leftover_text(t: Token) -> Seq<char> {
    match t {
        Token::RoundBracketOpen => "Unexpected bracket `(`"@,
        Token::FunctionCallOpen => "Unexpected function call open `(`"@,
        Token::ListSelectionOpen => "Unexpected list selection open `[`"@,
        Token::SquareBracketOpen => "Unexpected `[`"@,
        Token::CurlyBracketOpen => "Unexpected `{`"@,
        Token::CurlyBracketClosed => "Unexpected `}`"@,
        Token::Fn => "Unexpected `fn` token"@,
        Token::While => "Unexpected `while`"@,
        Token::If => "Unexpected `if`"@,
        Token::Else => "Unexpected `else`"@,
        Token::Try => "Unexpected `try`"@,
        Token::Catch => "Unexpected `catch`"@,
        Token::Callcc => "Unexpected `callcc`"@,
        Token::In => "Unexpected `in`"@,
        Token::Comma => "Unexpected `,`"@,
        _ => "Unexpected token"@,
    }
}

fn leftover_message(t: &Token) -> (s: &'static str)
    ensures
        s@ == leftover_text(*t),
{
    match t {
        Token::RoundBracketOpen => {
            proof {
                reveal_strlit("Unexpected bracket `(`");
            }
            "Unexpected bracket `(`"
        },
        Token::FunctionCallOpen => {
            proof {
                reveal_strlit("Unexpected function call open `(`");
            }
            "Unexpected function call open `(`"
        },
        Token::ListSelectionOpen => {
            proof {
                reveal_strlit("Unexpected list selection open `[`");
            }
            "Unexpected list selection open `[`"
        },
        Token::SquareBracketOpen => {
            proof {
                reveal_strlit("Unexpected `[`");
            }
            "Unexpected `[`"
        },
        Token::CurlyBracketOpen => {
            proof {
                reveal_strlit("Unexpected `{`");
            }
            "Unexpected `{`"
        },
        Token::CurlyBracketClosed => {
            proof {
                reveal_strlit("Unexpected `}`");
            }
            "Unexpected `}`"
        },
        Token::Fn => {
            proof {
                reveal_strlit("Unexpected `fn` token");
            }
            "Unexpected `fn` token"
        },
        Token::While => {
            proof {
                reveal_strlit("Unexpected `while`");
            }
            "Unexpected `while`"
        },
        Token::If => {
            proof {
                reveal_strlit("Unexpected `if`");
            }
            "Unexpected `if`"
        },
        Token::Else => {
            proof {
                reveal_strlit("Unexpected `else`");
            }
            "Unexpected `else`"
        },
        Token::Try => {
            proof {
                reveal_strlit("Unexpected `try`");
            }
            "Unexpected `try`"
        },
        Token::Catch => {
            proof {
                reveal_strlit("Unexpected `catch`");
            }
            "Unexpected `catch`"
        },
        Token::Callcc => {
            proof {
                reveal_strlit("Unexpected `callcc`");
            }
            "Unexpected `callcc`"
        },
        Token::In => {
            proof {
                reveal_strlit("Unexpected `in`");
            }
            "Unexpected `in`"
        },
        Token::Comma => {
            proof {
                reveal_strlit("Unexpected `,`");
            }
            "Unexpected `,`"
        },
        _ => {
            proof {
                reveal_strlit("Unexpected token");
            }
            "Unexpected token"
        },
    }
}

/// A scope stack that holds one empty scope.
pub open spec fn outermost(scopes: Seq<FunctionScope>) -> bool {
    scopes.len() == 1 && scopes[0].var_scope == 0 && scopes[0].variable_map@.len() == 0
        && scopes[0].input_vars@.len() == 0
}

/// Parses a whole program: its tokens, consumed from the end of the vector,
/// in a fresh outermost scope. On success the result is what a run of the
/// parser's steps, started with that scope alone, leaves once drained; on
/// failure a run of those steps ends in a syntax error.
pub fn parse(tokens: &mut Vec<Token>) -> (r: Result<Exp, SyntaxError>)
    ensures
        r is Ok ==> final(tokens)@.len() == 0,
        exists|scopes: Seq<FunctionScope>|
            #[trigger] outermost(scopes) && (match r {
                Ok(e) => parses_to(old(tokens)@, scopes, e),
                Err(e) => rejects(old(tokens)@, scopes, e.msg@),
            }),
{
    let mut scopes: Vec<FunctionScope> = Vec::new();
    scopes.push(FunctionScope::new());
    let ghost s0 = scopes@;
    let r = parse_tokens(tokens, &mut scopes);
    assert(outermost(s0));
    r
}

/// The parser's state between two tokens: the pending tokens (the next one
/// last), the operator stack, the output stack, the scope stack, and whether
/// the previous token ends an operand, so that `(` calls and `[` selects.
pub struct ParseState {
    pub tokens: Seq<Token>,
    pub stack: Seq<Token>,
    pub out: Seq<Exp>,
    pub scopes: Seq<FunctionScope>,
    pub callable: bool,
}

/// `a` with its next token consumed and `t` pushed on the operator stack.
pub open spec fn pushed(a: ParseState, t: Token) -> ParseState {
    ParseState {
        tokens: a.tokens.drop_last(),
        stack: a.stack.push(t),
        out: a.out,
        scopes: a.scopes,
        callable: false,
    }
}

/// An operator: a `;` right before another is dropped; a `;` before `}` or at
/// the end gets a unit right operand; then the operators that bind before it
/// are emitted, and it is pushed (a `throw` as plain or labelled).
pub open spec fn step_operator(a: ParseState, b: ParseState, op: Operator) -> bool {
    let rest = a.tokens.drop_last();
    if op == Operator::Semicolon && rest.len() > 0 && rest.last() == Token::Operator(
        Operator::Semicolon,
    ) {
        b == ParseState {
            tokens: rest,
            stack: a.stack,
            out: a.out,
            scopes: a.scopes,
            callable: false,
        }
    } else {
        let toks = if op == Operator::Semicolon && (rest.len() == 0
            || rest.last() is CurlyBracketClosed) {
            rest.push(Token::Operand(Operand::Null))
        } else {
            rest
        };
        match flush(op, a.stack, a.out) {
            Some((s, o)) => b == ParseState {
                tokens: toks,
                stack: s.push(Token::Operator(pushed_operator(op, toks))),
                out: o,
                scopes: a.scopes,
                callable: false,
            },
            None => false,
        }
    }
}

/// `(`: after an operand it opens a call (closed at once when `)` follows),
/// elsewhere a grouping.
pub open spec fn step_round_open(a: ParseState, b: ParseState) -> bool {
    let rest = a.tokens.drop_last();
    let is_call = a.tokens.last() is FunctionCallOpen || a.callable;
    if !is_call {
        b == pushed(a, Token::RoundBracketOpen)
    } else if rest.len() > 0 && rest.last() is RoundBracketClosed {
        &&& b.tokens == rest.drop_last()
        &&& b.scopes == a.scopes
        &&& b.callable
        &&& round_closed(a.stack.push(Token::FunctionCallOpen), a.out, false, b.stack, b.out)
    } else {
        b == pushed(a, Token::FunctionCallOpen)
    }
}

/// `[`: after an operand it opens a selection; elsewhere a list literal, the
/// empty one when `]` follows.
pub open spec fn step_square_open(a: ParseState, b: ParseState) -> bool {
    let rest = a.tokens.drop_last();
    if a.callable {
        b == pushed(a, Token::ListSelectionOpen)
    } else if rest.len() > 0 && rest.last() is SquareBracketClosed {
        &&& b.tokens == rest.drop_last()
        &&& b.stack == a.stack
        &&& b.scopes == a.scopes
        &&& b.callable
        &&& b.out.len() == a.out.len() + 1
        &&& b.out.drop_last() == a.out
        &&& match b.out.last() {
            Exp::List(v) => v@.len() == 0,
            _ => false,
        }
    } else {
        b == pushed(a, Token::SquareBracketOpen)
    }
}

/// `{`: the guard of an `if` or `while` is emitted; the block of a `catch` or
/// a `callcc` opens the binding of its variable.
pub open spec fn step_curly_open(a: ParseState, b: ParseState) -> bool {
    let g = guarded(a.stack);
    let e = emit_operators(a.stack, a.out, trailing_operators(a.stack));
    let top = a.scopes.last();
    (g ==> e is Some) && ({
        let (s1, o1) = if g {
            e->Some_0
        } else {
            (a.stack, a.out)
        };
        let binds = s1.len() > 0 && (s1.last() is In || s1.last() is Catch);
        &&& b.tokens == a.tokens.drop_last()
        &&& b.stack == s1.push(Token::CurlyBracketOpen)
        &&& b.out == o1
        &&& !b.callable
        &&& if binds {
            top.var_scope < usize::MAX && b.scopes == a.scopes.drop_last().push(
                set_depth(top, (top.var_scope + 1) as usize),
            )
        } else {
            b.scopes == a.scopes
        }
    })
}

/// `}`: the block is unwound and completes its control form; a `;` follows
/// unless the next token continues the form, ends a block or the input, or
/// calls the function literal just closed.
pub open spec fn step_curly_closed(a: ParseState, b: ParseState) -> bool {
    let top = a.scopes.last();
    let rest = a.tokens.drop_last();
    match unwind_block(a.stack, a.out, top.var_scope) {
        None => false,
        Some((s, o, d)) => {
            let is_fn = s.len() > 0 && s.last() is Fn;
            let closes = s.len() > 0 && (s.last() is Catch || s.last() is In);
            &&& block_closed(s, o, b.stack, b.out, top.input_vars@, is_fn)
            &&& if is_fn {
                a.scopes.len() >= 2 && b.scopes == a.scopes.drop_last()
            } else {
                (closes ==> d > 0) && b.scopes == a.scopes.drop_last().push(
                    set_depth(
                        top,
                        if closes {
                            (d - 1) as usize
                        } else {
                            d
                        },
                    ),
                )
            }
            &&& if rest.len() == 0 || continues_block(rest.last()) {
                b.tokens == rest && !b.callable
            } else if is_fn && rest.last() is RoundBracketOpen {
                b.tokens == rest && b.callable
            } else {
                b.tokens == rest.push(Token::Operator(Operator::Semicolon)) && !b.callable
            }
        },
    }
}

/// One step of the parser: handling the next token, `a.tokens.last()`, turns
/// state `a` into state `b`. There is no step where the token is a syntax
/// error.
pub open spec fn step(a: ParseState, b: ParseState) -> bool {
    &&& a.tokens.len() > 0
    &&& a.scopes.len() >= 1
    &&& b.scopes.len() >= 1
    &&& ({
        let t = a.tokens.last();
        let rest = a.tokens.drop_last();
        let top = a.scopes.last();
        match t {
            Token::Operand(Operand::Var(name)) => match lookup(top.variable_map@, name@) {
                Some(d) => b == ParseState {
                    tokens: rest,
                    stack: a.stack,
                    out: a.out.push(Exp::Var(Var { name, scope: d })),
                    scopes: a.scopes,
                    callable: true,
                },
                None => false,
            },
            Token::Operand(o) => b == ParseState {
                tokens: rest,
                stack: a.stack,
                out: a.out.push(crate::token::literal_exp(o)),
                scopes: a.scopes,
                callable: true,
            },
            Token::Operator(op) => step_operator(a, b, op),
            Token::FunctionCallOpen | Token::RoundBracketOpen => step_round_open(a, b),
            Token::RoundBracketClosed => b.tokens == rest && b.scopes == a.scopes && b.callable
                && round_closed(a.stack, a.out, true, b.stack, b.out),
            Token::ListSelectionOpen => b == pushed(a, Token::ListSelectionOpen),
            Token::SquareBracketOpen => step_square_open(a, b),
            Token::SquareBracketClosed => b.tokens == rest && b.scopes == a.scopes && b.callable
                && square_closed(a.stack, a.out, b.stack, b.out),
            Token::While | Token::If | Token::Else | Token::Try => b == pushed(a, t),
            Token::Catch | Token::Callcc => {
                &&& rest.len() > 0 && rest.last() is Operand && rest.last()->Operand_0 is Var
                &&& b.tokens == rest && b.stack == a.stack.push(t) && b.out == a.out && !b.callable
                &&& b.scopes.len() == a.scopes.len() && b.scopes.drop_last() == a.scopes.drop_last()
                &&& declares(top, b.scopes.last(), rest.last()->Operand_0->Var_0@, false)
            },
            Token::In => a.stack.len() > 0 && a.stack.last() is Callcc && b == pushed(a, Token::In),
            Token::Let => {
                &&& rest.len() > 0 && rest.last() is Operand && rest.last()->Operand_0 is Var
                &&& top.var_scope < usize::MAX
                &&& b.tokens == rest && b.stack == a.stack.push(Token::Let) && b.out == a.out
                    && !b.callable
                &&& b.scopes.len() == a.scopes.len() && b.scopes.drop_last() == a.scopes.drop_last()
                &&& declares(top, b.scopes.last(), rest.last()->Operand_0->Var_0@, true)
            },
            Token::Fn => match params_spec(rest) {
                Some((names, k)) => {
                    &&& b.tokens == rest.subrange(0, k as int)
                    &&& b.stack == a.stack.push(Token::Fn) && b.out == a.out && !b.callable
                    &&& b.scopes.len() == a.scopes.len() + 1 && b.scopes.drop_last() == a.scopes
                    &&& fresh_scope(b.scopes.last(), names)
                },
                None => false,
            },
            Token::CurlyBracketOpen => step_curly_open(a, b),
            Token::CurlyBracketClosed => step_curly_closed(a, b),
            Token::Comma => match flush_element(a.stack, a.out) {
                Some((s, o)) => b == ParseState {
                    tokens: rest,
                    stack: s.push(Token::Comma),
                    out: o,
                    scopes: a.scopes,
                    callable: false,
                },
                None => false,
            },
        }
    })
}

/// The end of the input: the operator stack is emptied, emitting operators
/// and closing `let` bindings (`depth` of them open); anything else left on
/// it is a syntax error.
pub open spec fn drain(stack: Seq<Token>, out: Seq<Exp>, depth: usize) -> Option<Seq<Exp>>
    decreases stack.len(),
{
    if stack.len() == 0 {
        Some(out)
    } else {
        match stack.last() {
            Token::Operator(op) => match apply_operator(op, out) {
                Some(o) => drain(stack.drop_last(), o, depth),
                None => None,
            },
            Token::Let => if depth == 0 {
                None
            } else {
                match let_reduce(out, (depth - 1) as usize) {
                    Some(o) => drain(stack.drop_last(), o, (depth - 1) as usize),
                    None => None,
                }
            },
            _ => None,
        }
    }
}

/// `trace` is a run of the parser on `tokens` within `scopes`: it starts with
/// empty stacks, and each state follows from the previous one by a step.
pub open spec fn parse_run(trace: Seq<ParseState>, tokens: Seq<Token>, scopes: Seq<FunctionScope>) -> bool {
    &&& trace.len() >= 1
    &&& trace[0] == ParseState {
        tokens,
        stack: Seq::empty(),
        out: Seq::empty(),
        scopes,
        callable: false,
    }
    &&& forall|i: int| 0 <= i < trace.len() - 1 ==> #[trigger] step(trace[i], trace[i + 1])
}

/// The state made of these parts.
pub open spec fn state(
    tokens: Seq<Token>,
    stack: Seq<Token>,
    out: Seq<Exp>,
    scopes: Seq<FunctionScope>,
    callable: bool,
) -> ParseState {
    ParseState { tokens, stack, out, scopes, callable }
}

/// The parser's rules give no step from `a`: its next token is a syntax error.
pub open spec fn stuck(a: ParseState) -> bool {
    forall|b: ParseState| !#[trigger] step(a, b)
}

/// `a` has no tokens left, and draining it leaves the single expression `e`.
pub open spec fn finishes(a: ParseState, e: Exp) -> bool {
    a.tokens.len() == 0 && drain(a.stack, a.out, a.scopes.last().var_scope) == Some(seq![e])
}

/// Parsing ends in an error at `a`: no step applies to its next token, or,
/// with no tokens left, draining fails or leaves other than one expression.
pub open spec fn fails_at(a: ParseState) -> bool {
    ||| a.tokens.len() > 0 && stuck(a)
    ||| a.tokens.len() == 0 && !(drain(a.stack, a.out, a.scopes.last().var_scope) is Some
        && drain(a.stack, a.out, a.scopes.last().var_scope)->Some_0.len() == 1)
}

/// Some run of the parser on `tokens` within `scopes` finishes with `e`.
pub open spec fn parses_to(tokens: Seq<Token>, scopes: Seq<FunctionScope>, e: Exp) -> bool {
    exists|trace: Seq<ParseState>| #[trigger] parse_run(trace, tokens, scopes) && finishes(trace.last(), e)
}

/// The diagnostic for the next token of `a` when no step accepts it: the
/// one of the rule that refuses it.
pub open spec fn step_error(a: ParseState) -> Seq<char> {
    let t = a.tokens.last();
    let rest = a.tokens.drop_last();
    match t {
        Token::Operand(Operand::Var(name)) => "Unknown variable "@ + name@,
        Token::Operator(op) => flush_error(op, a.stack, a.out),
        Token::FunctionCallOpen | Token::RoundBracketOpen => round_error(
            a.stack.push(Token::FunctionCallOpen),
            a.out,
            false,
        ),
        Token::RoundBracketClosed => round_error(a.stack, a.out, true),
        Token::SquareBracketClosed => square_error(a.stack, a.out),
        Token::Catch => "Expected variable name after catch token"@,
        Token::Callcc => "Expected variable name after callcc token"@,
        Token::In => "Unexpected token `in`"@,
        Token::Let => if rest.len() > 0 && rest.last() is Operand && rest.last()->Operand_0 is Var {
            "Too many variables"@
        } else {
            "Expected variable name after let"@
        },
        Token::Fn => params_error(rest),
        Token::CurlyBracketOpen => if guarded(a.stack) && emit_operators(
            a.stack,
            a.out,
            trailing_operators(a.stack),
        ) is None {
            emit_error(a.stack, a.out, trailing_operators(a.stack))
        } else {
            "Too many variables"@
        },
        Token::CurlyBracketClosed => block_error(
            a.stack,
            a.out,
            a.scopes.last().var_scope,
            a.scopes.len(),
        ),
        Token::Comma => element_error(a.stack, a.out),
        _ => Seq::empty(),
    }
}

/// The diagnostic at the end of the input, where draining fails or leaves
/// other than one expression.
pub open spec fn drain_error(stack: Seq<Token>, out: Seq<Exp>, depth: usize) -> Seq<char>
    decreases stack.len(),
{
    if stack.len() == 0 {
        if out.len() != 1 {
            "Can not parse a single expression. Probabily missing a ;"@
        } else {
            Seq::empty()
        }
    } else {
        match stack.last() {
            Token::Operator(op) => match apply_operator(op, out) {
                Some(o) => drain_error(stack.drop_last(), o, depth),
                None => operator_error(op, out),
            },
            Token::Let => if depth == 0 {
                "Scope depth would go below zero"@
            } else {
                match let_reduce(out, (depth - 1) as usize) {
                    Some(o) => drain_error(stack.drop_last(), o, (depth - 1) as usize),
                    None => let_error(out, (depth - 1) as usize),
                }
            },
            t => leftover_text(t),
        }
    }
}

/// The diagnostic of a run that ends in an error at `a`.
pub open spec fn failure_message(a: ParseState) -> Seq<char> {
    if a.tokens.len() > 0 {
        step_error(a)
    } else {
        drain_error(a.stack, a.out, a.scopes.last().var_scope)
    }
}

/// Some run of the parser on `tokens` within `scopes` ends in an error whose
/// diagnostic is `msg`.
pub open spec fn rejects(tokens: Seq<Token>, scopes: Seq<FunctionScope>, msg: Seq<char>) -> bool {
    exists|trace: Seq<ParseState>|
        #[trigger] parse_run(trace, tokens, scopes) && fails_at(trace.last()) && failure_message(
            trace.last(),
        ) == msg
}

proof fn lemma_same_below_top(a: Seq<FunctionScope>, b: Seq<FunctionScope>)
    requires
        a.len() >= 1,
        b.len() + 1 >= a.len(),
        b.subrange(0, a.len() - 1) == a.drop_last(),
    ensures
        forall|i: int| 0 <= i < a.len() - 1 ==> #[trigger] b[i] == a[i],
{
    assert forall|i: int| 0 <= i < a.len() - 1 implies #[trigger] b[i] == a[i] by {
        assert(b.subrange(0, a.len() - 1)[i] == b[i]);
        assert(a.drop_last()[i] == a[i]);
    }
}

/// Handles the next token, the last of `tokens`: one step of the parser.
#[verifier::rlimit(100)]
fn parse_step(
    tokens: &mut Vec<Token>,
    stack: &mut Vec<Token>,
    out: &mut Vec<Exp>,
    function_stack: &mut Vec<FunctionScope>,
    callable: &mut bool,
) -> (r: Result<(), SyntaxError>)
    requires
        old(tokens)@.len() > 0,
        old(function_stack)@.len() >= 1,
    ensures
        final(function_stack)@.len() >= 1,
        r is Ok ==> step(
            state(old(tokens)@, old(stack)@, old(out)@, old(function_stack)@, *old(callable)),
            state(final(tokens)@, final(stack)@, final(out)@, final(function_stack)@, *final(callable)),
        ),
        r is Err ==> stuck(
            state(old(tokens)@, old(stack)@, old(out)@, old(function_stack)@, *old(callable)),
        ),
        r is Err ==> r->Err_0.msg@ == step_error(
            state(old(tokens)@, old(stack)@, old(out)@, old(function_stack)@, *old(callable)),
        ),
        r is Ok ==> weight(final(tokens)@) < weight(old(tokens)@),
        r is Ok ==> final(function_stack)@.len() + 1 >= old(function_stack)@.len(),
        r is Ok ==> forall|i: int|
            0 <= i < old(function_stack)@.len() - 1 ==> #[trigger] final(function_stack)@[i] == old(
                function_stack,
            )@[i],
        r is Ok && open_functions(old(stack)@) > 0 ==> entry_bindings(final(stack)@)
            == entry_bindings(old(stack)@),
        r is Ok && open_functions(old(stack)@) == 0 ==> final(function_stack)@.len() >= old(
            function_stack,
        )@.len() && ({
            let a = old(function_stack)@.last();
            let b = final(function_stack)@[old(function_stack)@.len() - 1];
            &&& b.var_scope - entry_bindings(final(stack)@) == a.var_scope - entry_bindings(
                old(stack)@,
            )
            &&& b.input_vars == a.input_vars
            &&& b.external_variables == a.external_variables
        }),
        r is Ok ==> final(function_stack)@.len() - open_functions(final(stack)@) == old(
            function_stack,
        )@.len() - open_functions(old(stack)@),
{
    let ghost before = tokens@;
    let ghost fs0 = function_stack@;
    let token = tokens.pop().unwrap();
    let ghost w = weight(tokens@);
    assert(weight(before) == w + token_weight(token));
    let was_callable = *callable;
    *callable = false;
    match token {
        Token::Operand(Operand::Var(name)) => {
            let n = function_stack.len();
            let e = resolve_var(name, &function_stack[n - 1])?;
            out.push(e);
            *callable = true;
        },
        Token::Operand(o) => {
            out.push(o.to_exp());
            *callable = true;
        },
        Token::Operator(op) => {
            if op == Operator::Semicolon {
                let n = tokens.len();
                if n == 0 || is_curly_closed(&tokens[n - 1]) {
                    proof {
                        lemma_weight_push(tokens@, Token::Operand(Operand::Null));
                    }
                    tokens.push(Token::Operand(Operand::Null));
                } else if is_semicolon(&tokens[n - 1]) {
                    return Ok(());
                }
            }
            handle_operator_token(op, stack, out, tokens)?;
        },
        Token::FunctionCallOpen | Token::RoundBracketOpen => {
            let is_call = match token {
                Token::FunctionCallOpen => true,
                _ => was_callable,
            };
            if is_call {
                push_token(stack, Token::FunctionCallOpen);
                let n = tokens.len();
                let empty = n > 0 && match &tokens[n - 1] {
                    Token::RoundBracketClosed => true,
                    _ => false,
                };
                if empty {
                    tokens.pop();
                    handle_round_bracket_closed_token(stack, out, false)?;
                    *callable = true;
                }
            } else {
                push_token(stack, Token::RoundBracketOpen);
            }
        },
        Token::RoundBracketClosed => {
            handle_round_bracket_closed_token(stack, out, true)?;
            *callable = true;
        },
        Token::ListSelectionOpen => push_token(stack, Token::ListSelectionOpen),
        Token::SquareBracketOpen => {
            if was_callable {
                push_token(stack, Token::ListSelectionOpen);
            } else {
                let n = tokens.len();
                let empty = n > 0 && match &tokens[n - 1] {
                    Token::SquareBracketClosed => true,
                    _ => false,
                };
                if empty {
                    tokens.pop();
                    let ghost o0 = out@;
                    out.push(Exp::List(Vec::new()));
                    assert(out@.drop_last() =~= o0);
                    *callable = true;
                } else {
                    push_token(stack, Token::SquareBracketOpen);
                }
            }
        },
        Token::SquareBracketClosed => {
            handle_square_bracket_closed_token(stack, out)?;
            *callable = true;
        },
        Token::While => push_token(stack, Token::While),
        Token::If => push_token(stack, Token::If),
        Token::Else => push_token(stack, Token::Else),
        Token::Try => push_token(stack, Token::Try),
        Token::Catch => {
            bind_next_name(tokens, function_stack, true)?;
            push_token(stack, Token::Catch);
        },
        Token::Callcc => {
            bind_next_name(tokens, function_stack, false)?;
            push_token(stack, Token::Callcc);
        },
        Token::In => {
            let n = stack.len();
            let after_callcc = n > 0 && match &stack[n - 1] {
                Token::Callcc => true,
                _ => false,
            };
            if !after_callcc {
                return Err(syntax_error("Unexpected token `in`"));
            }
            push_token(stack, Token::In);
        },
        Token::Let => {
            let ghost outer = function_stack@.drop_last();
            let mut scope = function_stack.pop().unwrap();
            let r = handle_let_token(tokens, stack, &mut scope);
            function_stack.push(scope);
            assert(function_stack@.drop_last() =~= outer);
            r?;
        },
        Token::Fn => {
            let names = parse_function_def(tokens)?;
            proof {
                lemma_weight_prefix(before.drop_last(), tokens@.len() as int);
            }
            let ghost scopes0 = function_stack@;
            function_stack.push(function_scope(&names));
            assert(function_stack@.drop_last() =~= scopes0);
            push_token(stack, Token::Fn);
        },
        Token::CurlyBracketOpen => {
            flush_guard(stack, out)?;
            let n = stack.len();
            let binds = n > 0 && match &stack[n - 1] {
                Token::In | Token::Catch => true,
                _ => false,
            };
            if binds {
                open_binding(function_stack)?;
            }
            push_token(stack, Token::CurlyBracketOpen);
        },
        Token::CurlyBracketClosed => {
            let closed_fn = handle_curly_bracket_closed_token(stack, out, function_stack)?;
            let n = tokens.len();
            if n == 0 || continues_after_block(&tokens[n - 1]) {
            } else if closed_fn && match &tokens[n - 1] {
                Token::RoundBracketOpen => true,
                _ => false,
            } {
                *callable = true;
            } else {
                proof {
                    lemma_weight_push(tokens@, Token::Operator(Operator::Semicolon));
                }
                tokens.push(Token::Operator(Operator::Semicolon));
            }
        },
        Token::Comma => handle_comma(stack, out)?,
    }
    proof {
        if function_stack@.len() == fs0.len() {
            if function_stack@.drop_last() == fs0.drop_last() {
                assert(function_stack@.subrange(0, fs0.len() - 1) =~= function_stack@.drop_last());
            }
        } else if function_stack@.len() + 1 == fs0.len() {
            assert(function_stack@.subrange(0, fs0.len() - 1) =~= function_stack@);
        } else if function_stack@.len() == fs0.len() + 1 {
            assert(function_stack@.subrange(0, fs0.len() - 1) =~= function_stack@.drop_last().drop_last());
            assert(fs0.drop_last() =~= function_stack@.drop_last().drop_last());
        }
        if function_stack@.subrange(0, fs0.len() - 1) == fs0.drop_last() {
            lemma_same_below_top(fs0, function_stack@);
        }
    }
    Ok(())
}

/// Parses the token stream `tokens`, consumed from its end, within the scope
/// stack `function_stack`, whose last entry is the scope of the code parsed.
/// On success every token is consumed, the scope stack has its length of
/// entry (every function scope opened was closed), and the result is what a
/// run of the parser's steps over the tokens leaves once the operator stack
/// is drained: a single expression. On failure a run of those steps reaches a
/// token that no step accepts, or an end of input that does not drain to one
/// expression. The scope stack always keeps its outermost entry.
pub fn parse_tokens(tokens: &mut Vec<Token>, function_stack: &mut Vec<FunctionScope>) -> (r: Result<
    Exp,
    SyntaxError,
>)
    requires
        old(function_stack)@.len() >= 1,
    ensures
        final(function_stack)@.len() >= 1,
        r is Ok ==> final(tokens)@.len() == 0,
        r is Ok ==> final(function_stack)@.len() == old(function_stack)@.len(),
        r is Ok ==> parses_to(old(tokens)@, old(function_stack)@, r->Ok_0),
        r is Err ==> rejects(old(tokens)@, old(function_stack)@, r->Err_0.msg@),
        r is Ok ==> final(function_stack)@.drop_last() == old(function_stack)@.drop_last(),
        r is Ok ==> final(function_stack)@.last().var_scope == old(function_stack)@.last().var_scope,
        r is Ok ==> final(function_stack)@.last().input_vars == old(function_stack)@.last().input_vars,
        r is Ok ==> final(function_stack)@.last().external_variables == old(
            function_stack,
        )@.last().external_variables,
{
    let ghost b = old(function_stack)@.len() - 1;
    let ghost entry = old(function_stack)@.last();
    let mut stack: Vec<Token> = Vec::new();
    let mut out: Vec<Exp> = Vec::new();
    let mut callable = false;
    let ghost mut trace: Seq<ParseState> = seq![
        state(tokens@, stack@, out@, function_stack@, callable),
    ];
    loop
        invariant
            function_stack@.len() >= 1,
            function_stack@.len() == old(function_stack)@.len() + open_functions(stack@),
            parse_run(trace, old(tokens)@, old(function_stack)@),
            trace.last() == state(tokens@, stack@, out@, function_stack@, callable),
            forall|i: int| 0 <= i < b ==> #[trigger] function_stack@[i] == old(function_stack)@[i],
            function_stack@[b].var_scope == entry.var_scope + entry_bindings(stack@),
            function_stack@[b].input_vars == entry.input_vars,
            function_stack@[b].external_variables == entry.external_variables,
            old(function_stack)@.len() >= 1,
            b == old(function_stack)@.len() - 1,
            entry == old(function_stack)@.last(),
        ensures
            function_stack@.len() >= 1,
            function_stack@.len() == old(function_stack)@.len() + open_functions(stack@),
            parse_run(trace, old(tokens)@, old(function_stack)@),
            trace.last() == state(tokens@, stack@, out@, function_stack@, callable),
            tokens@.len() == 0,
            forall|i: int| 0 <= i < b ==> #[trigger] function_stack@[i] == old(function_stack)@[i],
            function_stack@[b].var_scope == entry.var_scope + entry_bindings(stack@),
            function_stack@[b].input_vars == entry.input_vars,
            function_stack@[b].external_variables == entry.external_variables,
            old(function_stack)@.len() >= 1,
            b == old(function_stack)@.len() - 1,
            entry == old(function_stack)@.last(),

        decreases weight(tokens@),
    {
        if tokens.len() == 0 {
            break;
        }
        let ghost a = state(tokens@, stack@, out@, function_stack@, callable);
        let ghost fa = function_stack@;
        let ghost sa = stack@;
        let stepped = parse_step(tokens, &mut stack, &mut out, function_stack, &mut callable);
        if stepped.is_err() {
            let e = stepped.unwrap_err();
            proof {
                assert(fails_at(trace.last()));
                assert(failure_message(trace.last()) == e.msg@);
                assert(parse_run(trace, old(tokens)@, old(function_stack)@));
            }
            return Err(e);
        }
        proof {
            if open_functions(sa) == 0 {
                assert(fa.len() - 1 == b);
            } else {
                assert(b < fa.len() - 1);
                assert(function_stack@[b] == fa[b]);
            }
            let b = state(tokens@, stack@, out@, function_stack@, callable);
            let t0 = trace;
            trace = trace.push(b);
            assert forall|i: int| 0 <= i < trace.len() - 1 implies #[trigger] step(
                trace[i],
                trace[i + 1],
            ) by {
                if i < t0.len() - 1 {
                    assert(trace[i] == t0[i] && trace[i + 1] == t0[i + 1]);
                } else {
                    assert(trace[i] == a && trace[i + 1] == b);
                }
            }
        }
    }
    let ghost last = trace.last();
    loop
        invariant
            function_stack@.len() >= 1,
            function_stack@.len() == old(function_stack)@.len() + open_functions(stack@),
            parse_run(trace, old(tokens)@, old(function_stack)@),
            last == trace.last(),
            last.tokens.len() == 0,
            drain(stack@, out@, function_stack@.last().var_scope) == drain(
                last.stack,
                last.out,
                last.scopes.last().var_scope,
            ),
            drain_error(stack@, out@, function_stack@.last().var_scope) == drain_error(
                last.stack,
                last.out,
                last.scopes.last().var_scope,
            ),
            forall|i: int| 0 <= i < b ==> #[trigger] function_stack@[i] == old(function_stack)@[i],
            function_stack@[b].var_scope == entry.var_scope + entry_bindings(stack@),
            function_stack@[b].input_vars == entry.input_vars,
            function_stack@[b].external_variables == entry.external_variables,
            old(function_stack)@.len() >= 1,
            b == old(function_stack)@.len() - 1,
            entry == old(function_stack)@.last(),
        ensures
            function_stack@.len() == old(function_stack)@.len() + open_functions(stack@),
            stack@.len() == 0,
            forall|i: int| 0 <= i < b ==> #[trigger] function_stack@[i] == old(function_stack)@[i],
            function_stack@[b].var_scope == entry.var_scope + entry_bindings(stack@),
            function_stack@[b].input_vars == entry.input_vars,
            function_stack@[b].external_variables == entry.external_variables,
            old(function_stack)@.len() >= 1,
            b == old(function_stack)@.len() - 1,
            entry == old(function_stack)@.last(),
            parse_run(trace, old(tokens)@, old(function_stack)@),
            last == trace.last(),
            last.tokens.len() == 0,
            drain(stack@, out@, function_stack@.last().var_scope) == drain(
                last.stack,
                last.out,
                last.scopes.last().var_scope,
            ),
            drain_error(stack@, out@, function_stack@.last().var_scope) == drain_error(
                last.stack,
                last.out,
                last.scopes.last().var_scope,
            ),
        decreases stack@.len(),
    {
        let ghost s0 = stack@;
        let ghost o0 = out@;
        let ghost d0 = function_stack@.last().var_scope;
        let ghost f0 = function_stack@;
        let failure = match stack.pop() {
            None => {
                break;
            },
            Some(Token::Operator(op)) => push_operator_to_out(op, &mut out),
            Some(Token::Let) => close_let(&mut out, function_stack),
            Some(t) => Err(syntax_error(leftover_message(&t))),
        };
        if failure.is_err() {
            let e = failure.unwrap_err();
            proof {
                assert(drain(s0, o0, d0) is None);
                assert(drain_error(s0, o0, d0) == e.msg@);
                assert(fails_at(trace.last()));
                assert(failure_message(trace.last()) == e.msg@);
                assert(parse_run(trace, old(tokens)@, old(function_stack)@));
            }
            return Err(e);
        }
        proof {
            assert(entry_bindings(s0) == entry_bindings(stack@) + if open_functions(stack@) == 0
                && binds_here(s0.last(), stack@) {
                1nat
            } else {
                0nat
            });
            assert(open_functions(s0) == open_functions(stack@));
            if open_functions(stack@) > 0 {
                assert(b < f0.len() - 1);
            } else {
                assert(b == f0.len() - 1);
            }
            if function_stack@ != f0 {
                assert(function_stack@.subrange(0, f0.len() - 1) =~= function_stack@.drop_last());
                lemma_same_below_top(f0, function_stack@);
            }
        }
    }
    assert(open_functions(stack@) == 0);
    assert(entry_bindings(stack@) == 0);
    assert(function_stack@.drop_last() =~= old(function_stack)@.drop_last());
    if out.len() != 1 {
        let e = syntax_error("Can not parse a single expression. Probabily missing a ;");
        proof {
            assert(fails_at(trace.last()));
            assert(failure_message(trace.last()) == e.msg@);
            assert(parse_run(trace, old(tokens)@, old(function_stack)@));
        }
        return Err(e);
    }
    let ghost o = out@;
    let e = out.pop().unwrap();
    assert(o =~= seq![e]);
    assert(parse_run(trace, old(tokens)@, old(function_stack)@));
    assert(finishes(trace.last(), e));
    Ok(e)
}

} // verus!
