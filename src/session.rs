//! The interactive driver's logic: reading one typed line, and binding the
//! names it declares for the lines that follow. Reading the terminal and
//! printing are left to the caller.
use vstd::prelude::*;
use vstd::string::StringExecFns;

use crate::expression::Exp;
use crate::parser::{
    FunctionScope, SyntaxError, lookup, params_spec, parse_tokens, parses_to, rejects,
};
use crate::semantics::store;
use crate::token::{Operand, Operator, Token};
use crate::value::{Datum, Function, Machine, MachineView, Value, V};

verus! {

/// One line typed at the prompt, parsed.
pub enum Input {
    /// `let name = e`: `e` is evaluated and its result bound to `name` for the
    /// lines that follow.
    Declare(String, Exp),
    /// `fn name(params) { body }`: a function of that many parameters whose
    /// body may call it by `name`, bound to `name` for the lines that follow.
    Define(String, usize, Exp),
    /// Any other expression, evaluated and shown.
    Evaluate(Exp),
}

fn session_error(msg: &str) -> (e: SyntaxError)
    ensures
        e.msg@ == msg@,
{
    SyntaxError { msg: String::from_str(msg) }
}

/// The scope of the body of `fn name(params)` typed at the prompt: parameter
/// `i` at depth `i`, then `name` itself at the next depth, where a call binds
/// the function's own cell.
pub open spec fn self_scope(sc: FunctionScope, names: Seq<Seq<char>>, name: Seq<char>) -> bool {
    &&& sc.var_scope == names.len() + 1
    &&& sc.input_vars@.len() == names.len()
    &&& sc.variable_map@.len() == names.len() + 1
    &&& forall|i: int|
        0 <= i < names.len() ==> (#[trigger] sc.input_vars@[i]).scope == i
            && sc.input_vars@[i].name@ == names[i]
    &&& forall|i: int|
        0 <= i < names.len() ==> (#[trigger] sc.variable_map@[i]).1 == i
            && sc.variable_map@[i].0@ == names[i]
    &&& sc.variable_map@.last().0@ == name
    &&& sc.variable_map@.last().1 == names.len()
}

/// Whether the line `t` (next token last) starts with `let name =`.
pub open spec fn declares_line(t: Seq<Token>) -> bool {
    let n = t.len();
    n >= 3 && t[n - 2] is Operand && t[n - 2]->Operand_0 is Var && t[n - 3] == Token::Operator(
        Operator::Assign,
    )
}

/// For the line `t` that starts with `fn name`, the tokens of the body block,
/// and the parameter names, when the parameter list is well formed and a
/// block follows it.
pub open spec fn function_line(t: Seq<Token>) -> Option<(Seq<Token>, Seq<Seq<char>>)> {
    let n = t.len();
    if n >= 2 && t[n - 2] is Operand && t[n - 2]->Operand_0 is Var {
        match params_spec(t.subrange(0, n - 2)) {
            Some((names, k)) => {
                let body = t.subrange(0, k as int);
                if body.len() > 0 && body.last() is CurlyBracketOpen && names.len() < usize::MAX {
                    Some((body, names))
                } else {
                    None
                }
            },
            None => None,
        }
    } else {
        None
    }
}
/// The `fn name(params) { body }` line `line`, whose first two tokens are
/// taken off `tokens` already.
fn read_function(tokens: &mut Vec<Token>, name: String, Ghost(line): Ghost<Seq<Token>>) -> (r:
    Result<Input, SyntaxError>)
    requires
        line.len() >= 2,
        line[line.len() - 1] is Fn,
        line[line.len() - 2] == Token::Operand(Operand::Var(name)),
        old(tokens)@ == line.subrange(0, line.len() - 2),
    ensures
        r is Ok ==> r->Ok_0 is Define,
        r matches Ok(Input::Define(nm, k, body)) ==> function_line(line) is Some && line[line.len()
            - 2] == Token::Operand(Operand::Var(nm)) && k == function_line(line)->Some_0.1.len()
            && exists|sc: FunctionScope|
            self_scope(sc, function_line(line)->Some_0.1, nm@) && #[trigger] parses_to(
                function_line(line)->Some_0.0,
                seq![sc],
                body,
            ),
        r is Err ==> function_line(line) is None || exists|sc: FunctionScope|
            self_scope(sc, function_line(line)->Some_0.1, name@) && #[trigger] rejects(
                function_line(line)->Some_0.0,
                seq![sc],
                r->Err_0.msg@,
            ),
{
    let ghost t = line;
    let ghost n = line.len();
    let params = match crate::parser::parse_function_def(tokens) {
        Ok(p) => p,
        Err(e) => {
            assert(function_line(t) is None);
            return Err(e);
        },
    };
    let ghost after = tokens@;
    proof {
        assert(t.subrange(0, n - 2).subrange(0, after.len() as int) =~= after);
    }
    let m = tokens.len();
    let opens_block = m > 0 && match &tokens[m - 1] {
        Token::CurlyBracketOpen => true,
        _ => false,
    };
    if !opens_block || params.len() == usize::MAX {
        assert(function_line(t) is None);
        return Err(session_error("Expected `{`"));
    }
    let mut scope = crate::parser::function_scope(&params);
    let ghost fresh = scope;
    scope.bind(name.clone());
    scope.var_scope = scope.var_scope + 1;
    let ghost sc = scope;
    let ghost names = crate::parser::names_view(params@);
    proof {
        assert forall|i: int| 0 <= i < names.len() implies (#[trigger] sc.variable_map@[i]).1
            == i && sc.variable_map@[i].0@ == names[i] by {
            assert(sc.variable_map@[i] == fresh.variable_map@[i]);
        }
        assert(self_scope(sc, names, name@));
    }
    let mut body_scopes: Vec<FunctionScope> = Vec::new();
    body_scopes.push(scope);
    let ghost s0 = body_scopes@;
    assert(s0 =~= seq![sc]);
    let ghost body_tokens = tokens@;
    assert(t.subrange(0, n - 2).subrange(0, body_tokens.len() as int) =~= body_tokens);
    assert(function_line(t) == Some((body_tokens, names)));
    let parsed = parse_tokens(tokens, &mut body_scopes);
    match parsed {
        Ok(body) => {
            assert(parses_to(function_line(t)->Some_0.0, seq![sc], body));
            assert(self_scope(sc, function_line(t)->Some_0.1, name@));
            Ok(Input::Define(name, params.len(), body))
        },
        Err(e) => {
            assert(rejects(function_line(t)->Some_0.0, seq![sc], e.msg@));
            assert(self_scope(sc, function_line(t)->Some_0.1, name@));
            let res: Result<Input, SyntaxError> = Err(e);
            assert(res->Err_0.msg@ == e.msg@);
            res
        },
    }
}

/// Reads one line's tokens (consumed from the end) in the scopes of the
/// session. A line that starts with `let name =` declares `name`; one that
/// starts with `fn name` defines a function that may call itself by `name`,
/// its body parsed in its own scope; any other line is an expression. The
/// result is what the parser gives on the rest of the line. On success the
/// session's scope keeps its depth, its parameters and the scopes below it;
/// only declarations made inside the line may have been added to its map.
pub fn read_input(tokens: &mut Vec<Token>, scopes: &mut Vec<FunctionScope>) -> (r: Result<
    Input,
    SyntaxError,
>)
    requires
        old(scopes)@.len() >= 1,
    ensures
        final(scopes)@.len() >= 1,
        r is Ok ==> final(scopes)@.len() == old(scopes)@.len() && final(scopes)@.drop_last() == old(
            scopes,
        )@.drop_last() && final(scopes)@.last().var_scope == old(scopes)@.last().var_scope
            && final(scopes)@.last().input_vars == old(scopes)@.last().input_vars
            && final(scopes)@.last().external_variables == old(scopes)@.last().external_variables,
        ({
            let t = old(tokens)@;
            let n = t.len();
            !(n > 0 && (t[n - 1] is Let || t[n - 1] is Fn)) ==> match r {
                Ok(Input::Evaluate(e)) => parses_to(t, old(scopes)@, e),
                Ok(_) => false,
                Err(e) => rejects(t, old(scopes)@, e.msg@),
            }
        }),
        ({
            let t = old(tokens)@;
            let n = t.len();
            n > 0 && t[n - 1] is Let ==> match r {
                Ok(Input::Declare(name, e)) => declares_line(t) && t[n - 2] == Token::Operand(
                    Operand::Var(name),
                ) && parses_to(t.subrange(0, n - 3), old(scopes)@, e),
                Ok(_) => false,
                Err(e) => !declares_line(t) || rejects(t.subrange(0, n - 3), old(scopes)@, e.msg@),
            }
        }),
        ({
            let t = old(tokens)@;
            let n = t.len();
            n > 0 && t[n - 1] is Fn ==> (r is Ok ==> r->Ok_0 is Define) && (r matches Ok(
                Input::Define(nm, k, body),
            ) ==> function_line(t) is Some && t[n - 2] == Token::Operand(Operand::Var(nm)) && k
                == function_line(t)->Some_0.1.len() && exists|sc: FunctionScope|
                self_scope(sc, function_line(t)->Some_0.1, nm@) && #[trigger] parses_to(
                    function_line(t)->Some_0.0,
                    seq![sc],
                    body,
                )) && (r is Err ==> function_line(t) is None || exists|sc: FunctionScope|
                self_scope(sc, function_line(t)->Some_0.1, t[n - 2]->Operand_0->Var_0@)
                    && #[trigger] rejects(function_line(t)->Some_0.0, seq![sc], r->Err_0.msg@))
        }),
{
    let ghost t = tokens@;
    let n = tokens.len();
    let first_is_let = n > 0 && match &tokens[n - 1] {
        Token::Let => true,
        _ => false,
    };
    let first_is_fn = n > 0 && match &tokens[n - 1] {
        Token::Fn => true,
        _ => false,
    };
    if !first_is_let && !first_is_fn {
        let e = parse_tokens(tokens, scopes)?;
        return Ok(Input::Evaluate(e));
    }
    tokens.pop();
    let name = match tokens.pop() {
        Some(Token::Operand(Operand::Var(name))) => name,
        _ => {
            assert(!declares_line(t) && function_line(t) is None);
            return Err(session_error("Expected a variable name"));
        },
    };
    if first_is_let {
        match tokens.pop() {
            Some(Token::Operator(Operator::Assign)) => {},
            _ => {
                return Err(session_error("Expected `=`"));
            },
        }
        assert(tokens@ =~= t.subrange(0, n - 3));
        let e = parse_tokens(tokens, scopes)?;
        Ok(Input::Declare(name, e))
    } else {
        assert(tokens@ =~= t.subrange(0, n - 2));
        read_function(tokens, name, Ghost(t))
    }
}

/// Binds `name` to the result `h` of a declaration typed at the prompt: the
/// name takes the next depth of the session's scope, and the result's cell
/// goes on top of the stack, so that the following lines find it there.
pub fn declare<'a>(
    name: String,
    h: V<'a>,
    m: &mut Machine<'a>,
    scopes: &mut Vec<FunctionScope>,
) -> (r: Result<(), SyntaxError>)
    requires
        old(scopes)@.len() >= 1,
    ensures
        final(scopes)@.len() == old(scopes)@.len(),
        r is Ok <==> old(scopes)@.last().var_scope < usize::MAX,
        r is Ok ==> ({
            let (m1, s) = store(old(m).view(), h.view());
            &&& final(m).view() == crate::semantics::push_slot(m1, s)
            &&& final(scopes)@.last().var_scope == old(scopes)@.last().var_scope + 1
            &&& lookup(final(scopes)@.last().variable_map@, name@) == Some(
                old(scopes)@.last().var_scope,
            )
        }),
        r is Err ==> *final(m) == *old(m),
{
    let mut scope = scopes.pop().unwrap();
    if scope.var_scope == usize::MAX {
        scopes.push(scope);
        return Err(session_error("Too many variables"));
    }
    scope.bind(name);
    scope.var_scope = scope.var_scope + 1;
    scopes.push(scope);
    let slot = crate::semantics::store_result(m, h);
    m.stack.push(slot);
    Ok(())
}

/// Binds `name` to a function of `num_args` parameters with body `body`,
/// defined at the prompt: a new cell holds the function, whose own cell is
/// bound after the arguments of every call, so that the body can call it by
/// name; the cell goes on top of the stack and `name` takes the next depth.
pub fn declare_function<'a>(
    name: String,
    num_args: usize,
    body: &'a Exp,
    m: &mut Machine<'a>,
    scopes: &mut Vec<FunctionScope>,
) -> (r: Result<(), SyntaxError>)
    requires
        old(scopes)@.len() >= 1,
    ensures
        final(scopes)@.len() == old(scopes)@.len(),
        r is Ok <==> old(scopes)@.last().var_scope < usize::MAX,
        r is Ok ==> ({
            let c = old(m).view().heap.len() as usize;
            &&& final(m).view() == (MachineView {
                stack: old(m).view().stack.push(c),
                heap: old(m).view().heap.push(Datum::Fn(num_args, *body, seq![c])),
                next_label: old(m).view().next_label,
            })
            &&& final(scopes)@.last().var_scope == old(scopes)@.last().var_scope + 1
            &&& lookup(final(scopes)@.last().variable_map@, name@) == Some(
                old(scopes)@.last().var_scope,
            )
        }),
        r is Err ==> *final(m) == *old(m),
{
    let mut scope = scopes.pop().unwrap();
    if scope.var_scope == usize::MAX {
        scopes.push(scope);
        return Err(session_error("Too many variables"));
    }
    scope.bind(name);
    scope.var_scope = scope.var_scope + 1;
    scopes.push(scope);
    let c = m.heap.len();
    let mut external_values: Vec<usize> = Vec::new();
    external_values.push(c);
    let ghost old_heap = m.view().heap;
    m.heap.push(Value::Fn(Function { num_args, body, external_values }));
    m.stack.push(c);
    assert(m.view().heap =~= old_heap.push(Datum::Fn(num_args, *body, seq![c])));
    Ok(())
}

} // verus!
