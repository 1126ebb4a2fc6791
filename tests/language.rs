use epilang::expression::{Const, Exp};
use epilang::parser::{parse, parse_tokens, FunctionScope};
use epilang::semantics::{eval, eval_expression, ErrorKind, Fault};
use epilang::session::{declare, declare_function, read_input, Input};
use epilang::token::{Operand, Operator, Token};
use epilang::value::{Machine, Value, V};

/// A small lexer for the tests: the tokens of `src`, last one first, as the
/// parser consumes them.
fn lex(src: &str) -> Vec<Token> {
    let chars: Vec<char> = src.chars().collect();
    let mut tokens: Vec<Token> = Vec::new();
    let mut i = 0;
    while i < chars.len() {
        let c = chars[i];
        if c.is_whitespace() {
            i += 1;
        } else if c.is_ascii_digit() {
            let mut n: i32 = 0;
            while i < chars.len() && chars[i].is_ascii_digit() {
                n = n * 10 + chars[i].to_digit(10).unwrap() as i32;
                i += 1;
            }
            tokens.push(Token::Operand(Operand::Int(n)));
        } else if c.is_alphabetic() || c == '_' {
            let mut word = String::new();
            while i < chars.len() && (chars[i].is_alphanumeric() || chars[i] == '_') {
                word.push(chars[i]);
                i += 1;
            }
            tokens.push(match word.as_str() {
                "while" => Token::While,
                "if" => Token::If,
                "else" => Token::Else,
                "let" => Token::Let,
                "fn" => Token::Fn,
                "try" => Token::Try,
                "catch" => Token::Catch,
                "callcc" => Token::Callcc,
                "in" => Token::In,
                "throw" => Token::Operator(Operator::Throw),
                "true" => Token::Operand(Operand::Bool(true)),
                "false" => Token::Operand(Operand::Bool(false)),
                "null" => Token::Operand(Operand::Null),
                _ => Token::Operand(Operand::Var(word)),
            });
        } else if c == '"' {
            let mut s = String::new();
            i += 1;
            while chars[i] != '"' {
                s.push(chars[i]);
                i += 1;
            }
            i += 1;
            tokens.push(Token::Operand(Operand::Str(s)));
        } else {
            let next = if i + 1 < chars.len() { chars[i + 1] } else { ' ' };
            let (t, len) = match (c, next) {
                ('=', '=') => (Token::Operator(Operator::Eq), 2),
                ('!', '=') => (Token::Operator(Operator::Neq), 2),
                ('<', '=') => (Token::Operator(Operator::Lte), 2),
                ('>', '=') => (Token::Operator(Operator::Gte), 2),
                ('&', '&') => (Token::Operator(Operator::And), 2),
                ('|', '|') => (Token::Operator(Operator::Or), 2),
                (';', _) => (Token::Operator(Operator::Semicolon), 1),
                ('=', _) => (Token::Operator(Operator::Assign), 1),
                ('!', _) => (Token::Operator(Operator::Not), 1),
                ('<', _) => (Token::Operator(Operator::Lt), 1),
                ('>', _) => (Token::Operator(Operator::Gt), 1),
                ('+', _) => (Token::Operator(Operator::Sum), 1),
                ('-', _) => (Token::Operator(Operator::Sub), 1),
                ('*', _) => (Token::Operator(Operator::Mul), 1),
                ('/', _) => (Token::Operator(Operator::Div), 1),
                ('%', _) => (Token::Operator(Operator::Mod), 1),
                ('(', _) => (Token::RoundBracketOpen, 1),
                (')', _) => (Token::RoundBracketClosed, 1),
                ('[', _) => (Token::SquareBracketOpen, 1),
                (']', _) => (Token::SquareBracketClosed, 1),
                ('{', _) => (Token::CurlyBracketOpen, 1),
                ('}', _) => (Token::CurlyBracketClosed, 1),
                (',', _) => (Token::Comma, 1),
                _ => panic!("unexpected character {}", c),
            };
            tokens.push(t);
            i += len;
        }
    }
    tokens.reverse();
    tokens
}

fn program(src: &str) -> Exp {
    match parse(&mut lex(src)) {
        Ok(e) => e,
        Err(e) => panic!("syntax error: {}", e.msg),
    }
}

fn int_of(src: &str) -> i64 {
    let e = program(src);
    match eval(&e) {
        Ok(Value::Int(i)) => i,
        Ok(_) => panic!("not an integer"),
        Err(_) => panic!("runtime error"),
    }
}

fn bool_of(src: &str) -> bool {
    let e = program(src);
    match eval(&e) {
        Ok(Value::Bool(b)) => b,
        Ok(_) => panic!("not a boolean"),
        Err(_) => panic!("runtime error"),
    }
}

fn str_of(src: &str) -> String {
    let e = program(src);
    match eval(&e) {
        Ok(Value::Str(s)) => s,
        Ok(_) => panic!("not a string"),
        Err(_) => panic!("runtime error"),
    }
}

fn error_of(src: &str) -> ErrorKind {
    let e = program(src);
    match eval(&e) {
        Ok(_) => panic!("no error"),
        Err(err) => err.kind,
    }
}

fn syntax_error_of(src: &str) -> String {
    match parse(&mut lex(src)) {
        Ok(_) => panic!("parsed"),
        Err(e) => e.msg,
    }
}

#[test]
fn list_aliasing() {
    assert_eq!(int_of("let a = [1,2,3]; let b = a; b[0] = 9; a[0]"), 9);
}

#[test]
fn callcc_returns_function_using_outer_name_is_rejected() {
    let msg = syntax_error_of(
        "let x=12; let f=callcc k in { let x=4; throw k fn(y){x} }; f(7)",
    );
    assert_eq!(msg, "Unknown variable x");
}

#[test]
fn callcc_returns_function_then_called() {
    assert_eq!(
        int_of("let x=12; let f=callcc k in { let x=4; throw k fn(x){x} }; f(7)"),
        7
    );
}

#[test]
fn callcc_without_throw() {
    assert_eq!(int_of("callcc k in { 15 }"), 15);
}

#[test]
fn callcc_throw_variable() {
    assert_eq!(int_of("callcc k in { let a=15; throw k a }"), 15);
}

#[test]
fn continuation_passed_to_function() {
    assert_eq!(int_of("let f=fn(x){throw x 1}; callcc k in { 3 + f(k) }"), 1);
}

#[test]
fn exception_from_called_literal() {
    assert_eq!(
        int_of("let res=0; try { let y=5; fn(x){throw x}(y) } catch e { res=e+5 }; res"),
        10
    );
}

#[test]
fn guarded_division_without_throw() {
    assert_eq!(
        int_of("let x=5; let y=1; try { if (x==0){throw \"DivZero\"}; y = 5/x } catch e { y = x - 42 }; y"),
        1
    );
}

#[test]
fn guarded_division_with_throw() {
    assert_eq!(
        int_of("let x=0; let y=1; try { if (x==0){throw \"DivZero\"}; y = 5/x } catch e { y = x - 42 }; y"),
        -42
    );
}

#[test]
fn list_selection() {
    assert_eq!(int_of("let a=[1,2,3]; a[1]"), 2);
}

#[test]
fn list_element_assignment() {
    assert_eq!(int_of("let a=[1,2,3]; a[1]=9; a[1]"), 9);
}

#[test]
fn stack_height_is_restored() {
    let e = program("let a = 1; let f = fn(x, y) { let z = x; z + y }; f(a, 2)");
    let mut m = Machine::new();
    let r = eval_expression(&e, &mut m, 0, 1000);
    assert!(r.is_ok());
    assert_eq!(m.stack.len(), 0);
    let bad = program("let a = 1; let f = fn(x) { throw x }; f(a)");
    let mut m2 = Machine::new();
    assert!(eval_expression(&bad, &mut m2, 0, 1000).is_err());
    assert_eq!(m2.stack.len(), 0);
}

#[test]
fn assignment_identity() {
    assert_eq!(int_of("let x = 1; x = 5; x"), 5);
    assert_eq!(int_of("let x = 1; x"), 1);
    assert_eq!(int_of("let x = 1; x = 5; x = x + 1; x"), 6);
}

#[test]
fn short_circuit() {
    assert!(!bool_of("false && (1 / 0 == 1)"));
    assert!(bool_of("true || (1 / 0 == 1)"));
    assert!(bool_of("true && !false"));
}

#[test]
fn catch_throw_round_trip() {
    assert_eq!(int_of("try { throw 7 } catch e { e }"), 7);
    assert_eq!(str_of("try { throw \"boom\" } catch e { e }"), "boom");
}

#[test]
fn callcc_identity() {
    assert_eq!(int_of("callcc k in { throw k 3 }"), 3);
}

#[test]
fn callcc_transparency() {
    assert!(bool_of("callcc k in { true }"));
}

#[test]
fn labelled_precedence() {
    assert_eq!(int_of("callcc k in { callcc k in { throw k 1 } }"), 1);
    assert_eq!(int_of("callcc k in { callcc k in { throw k 1 }; 2 }"), 2);
}

#[test]
fn parse_is_deterministic() {
    let src = "let a = [1, 2]; let f = fn(x) { x * 2 }; f(a[1])";
    let e1 = program(src);
    let e2 = program(src);
    let v1 = match eval(&e1) { Ok(Value::Int(i)) => i, _ => panic!() };
    let v2 = match eval(&e2) { Ok(Value::Int(i)) => i, _ => panic!() };
    assert_eq!(v1, v2);
    assert_eq!(v1, 4);
}

#[test]
fn variables_resolve_to_depths() {
    let e = program("let a = 1; let b = 2; b");
    match e {
        Exp::Decl(a, _, body) => {
            assert_eq!(a.scope, 0);
            match *body {
                Exp::Decl(b, _, rest) => {
                    assert_eq!(b.scope, 1);
                    match *rest {
                        Exp::Var(v) => {
                            assert_eq!(v.name, "b");
                            assert_eq!(v.scope, 1);
                        }
                        _ => panic!("expected a variable"),
                    }
                }
                _ => panic!("expected a declaration"),
            }
        }
        _ => panic!("expected a declaration"),
    }
}

#[test]
fn function_parameters_take_the_first_depths() {
    let e = program("fn(p, q) { let r = q; r }");
    match e {
        Exp::Function(params, body) => {
            assert_eq!(params.len(), 2);
            assert_eq!(params[1].scope, 1);
            match *body {
                Exp::Decl(r, _, _) => assert_eq!(r.scope, 2),
                _ => panic!("expected a declaration"),
            }
        }
        _ => panic!("expected a function"),
    }
}

#[test]
fn precedence_and_associativity() {
    assert_eq!(int_of("1 + 2 * 3"), 7);
    assert_eq!(int_of("10 - 3 - 2"), 5);
    assert_eq!(int_of("(1 + 2) * 3"), 9);
    assert_eq!(int_of("100 / 10 / 5"), 2);
    assert!(bool_of("1 + 1 == 2 && 3 < 4"));
}

#[test]
fn division_rounds_toward_zero() {
    assert_eq!(int_of("(0 - 7) / 2"), -3);
    assert_eq!(int_of("(0 - 7) % 3"), -1);
    assert_eq!(int_of("7 % (0 - 3)"), 1);
}

#[test]
fn string_concatenation() {
    assert_eq!(str_of("\"a\" + 1"), "a1");
    assert_eq!(str_of("\"n=\" + (0 - 15)"), "n=-15");
    assert_eq!(str_of("true + \"!\""), "true!");
    assert_eq!(str_of("null + \"\""), "unit");
}

#[test]
fn list_concatenation() {
    assert_eq!(int_of("let a = [1, 2] + [3]; a[2]"), 3);
    assert_eq!(str_of("[1] + 2"), "list2");
    assert_eq!(str_of("1 + [2]"), "1list");
}

#[test]
fn while_loop() {
    assert_eq!(int_of("let i = 0; let s = 0; while i < 5 { s = s + i; i = i + 1 }; s"), 10);
    assert_eq!(int_of("let i = 0; while i < 3 { i = i + 1; i * 10 }"), 30);
}

#[test]
fn while_that_never_runs_is_unit() {
    let e = program("while false { 1 }");
    assert!(matches!(eval(&e), Ok(Value::Unit)));
}

#[test]
fn if_else() {
    assert_eq!(int_of("if 1 < 2 { 10 } else { 20 }"), 10);
    assert_eq!(int_of("if 1 > 2 { 10 } else { 20 }"), 20);
    let e = program("if false { 1 }");
    assert!(matches!(eval(&e), Ok(Value::Unit)));
}

#[test]
fn empty_list_and_zero_argument_call() {
    assert_eq!(error_of("let a = []; a[0]"), ErrorKind::Fault(Fault::IndexOutOfRange));
    assert_eq!(int_of("let f = fn() { 42 }; f()"), 42);
}

#[test]
fn recursion_through_an_argument() {
    assert_eq!(
        int_of("let fact = fn(self, n) { if n == 0 { 1 } else { n * self(self, n - 1) } }; fact(fact, 5)"),
        120
    );
}

#[test]
fn runtime_faults() {
    assert_eq!(error_of("1 / 0"), ErrorKind::Fault(Fault::DivisionByZero));
    assert_eq!(error_of("1 % 0"), ErrorKind::Fault(Fault::DivisionByZero));
    assert_eq!(error_of("let f = fn(x) { x }; f(1, 2)"), ErrorKind::Fault(Fault::Arity(1, 2)));
    assert_eq!(error_of("let f = 3; f(1)"), ErrorKind::Fault(Fault::NotCallable));
    assert_eq!(error_of("let a = [1]; a[1]"), ErrorKind::Fault(Fault::IndexOutOfRange));
    assert_eq!(error_of("let a = [1]; a[0 - 1]"), ErrorKind::Fault(Fault::IndexOutOfRange));
    assert_eq!(error_of("1 < true"), ErrorKind::Fault(Fault::Type));
    assert_eq!(error_of("if 1 { 2 }"), ErrorKind::Fault(Fault::Type));
    assert_eq!(error_of("1 = 2"), ErrorKind::Fault(Fault::InvalidTarget));
    assert_eq!(error_of("let k = 1; throw k 2"), ErrorKind::Fault(Fault::NotALabel));
    assert_eq!(
        error_of("let x = 2147483647; x * x * x"),
        ErrorKind::Fault(Fault::Overflow)
    );
    assert_eq!(error_of("let a = 1; { let b = 2; b }; b"), ErrorKind::Fault(Fault::Unbound));
}

#[test]
fn step_limit() {
    let e = program("while true { 1 }");
    let mut m = Machine::new();
    match eval_expression(&e, &mut m, 0, 50) {
        Err(err) => assert_eq!(err.kind, ErrorKind::Fault(Fault::StepLimit)),
        Ok(_) => panic!("loop ended"),
    }
}

#[test]
fn uncaught_exception_carries_payload() {
    let e = program("throw 5");
    match eval(&e) {
        Err(err) => {
            assert_eq!(err.kind, ErrorKind::Exception);
            assert!(matches!(err.v, V::Val(Value::Int(5))));
        }
        Ok(_) => panic!("no exception"),
    }
}

#[test]
fn catch_also_catches_faults() {
    assert_eq!(int_of("try { 1 / 0 } catch e { 3 }"), 3);
}

#[test]
fn syntax_errors() {
    assert_eq!(syntax_error_of("y + 1"), "Unknown variable y");
    assert!(!syntax_error_of("(1 + 2").is_empty());
    assert!(!syntax_error_of("1 + 2)").is_empty());
    assert!(!syntax_error_of("let = 3; 1").is_empty());
    assert!(!syntax_error_of("1 2").is_empty());
    assert!(!syntax_error_of("fn x { 1 }").is_empty());
    assert!(!syntax_error_of("in").is_empty());
}

#[test]
fn semicolon_rules() {
    assert_eq!(int_of("1;; 2"), 2);
    let e = program("1;");
    assert!(matches!(eval(&e), Ok(Value::Unit)));
}

#[test]
fn parse_tokens_keeps_outer_scope() {
    let mut scopes = vec![FunctionScope::new()];
    let r = parse_tokens(&mut lex("let a = 1; a"), &mut scopes);
    assert!(r.is_ok());
    assert_eq!(scopes.len(), 1);
}

#[test]
fn token_classification() {
    assert!(Token::Operand(Operand::Int(1)).is_callable());
    assert!(Token::RoundBracketClosed.is_callable());
    assert!(Token::SquareBracketClosed.is_callable());
    assert!(!Token::CurlyBracketClosed.is_callable());
    assert!(!Token::Operator(Operator::Sum).is_callable());
}

#[test]
fn operator_precedence_table() {
    assert_eq!(Operator::Throw.precedence(), 0);
    assert_eq!(Operator::Mul.precedence(), 1);
    assert_eq!(Operator::Sum.precedence(), 2);
    assert_eq!(Operator::Lt.precedence(), 4);
    assert_eq!(Operator::And.precedence(), 5);
    assert_eq!(Operator::Or.precedence(), 6);
    assert_eq!(Operator::Assign.precedence(), 7);
    assert_eq!(Operator::Semicolon.precedence(), 8);
}

#[test]
fn literal_operands_become_constants() {
    assert!(matches!(Operand::Int(4).to_exp(), Exp::Const(Const::Integer(4))));
    assert!(matches!(Operand::Bool(true).to_exp(), Exp::Const(Const::Boolean(true))));
    assert!(matches!(Operand::Null.to_exp(), Exp::Const(Const::Unit)));
    match Operand::Str(String::from("hi")).to_exp() {
        Exp::Const(Const::String(s)) => assert_eq!(s, "hi"),
        _ => panic!("expected a string constant"),
    }
}

#[test]
fn session_declarations_carry_over() {
    let mut scopes = vec![FunctionScope::new()];
    let mut machine = Machine::new();
    let first = match read_input(&mut lex("let x = 40"), &mut scopes) {
        Ok(Input::Declare(name, e)) => {
            assert_eq!(name, "x");
            e
        }
        _ => panic!("expected a declaration"),
    };
    let v = eval_expression(&first, &mut machine, 0, 100).ok().unwrap();
    assert!(declare(String::from("x"), v, &mut machine, &mut scopes).is_ok());
    let second = match read_input(&mut lex("fn inc(n) { n + 1 }"), &mut scopes) {
        Ok(Input::Define(name, k, body)) => {
            assert_eq!(name, "inc");
            assert_eq!(k, 1);
            body
        }
        _ => panic!("expected a definition"),
    };
    assert!(declare_function(String::from("inc"), 1, &second, &mut machine, &mut scopes).is_ok());
    assert_eq!(machine.stack.len(), 2);
    assert_eq!(scopes[0].var_scope, 2);
    let third = match read_input(&mut lex("inc(x) + 1"), &mut scopes) {
        Ok(Input::Evaluate(e)) => e,
        _ => panic!("expected an expression"),
    };
    let r = eval_expression(&third, &mut machine, 0, 100).ok().unwrap();
    assert!(matches!(machine.resolve(&r), Some(Value::Int(42))));
}

#[test]
fn session_rejects_malformed_declaration() {
    let mut scopes = vec![FunctionScope::new()];
    assert!(read_input(&mut lex("let 3 = 4"), &mut scopes).is_err());
    assert!(read_input(&mut lex("let x 4"), &mut scopes).is_err());
}

#[test]
fn unparenthesized_guards() {
    assert_eq!(int_of("let n = 3; if n > 2 && n < 5 { 1 } else { 0 }"), 1);
    assert_eq!(int_of("let n = 0; while n + 1 < 4 { n = n + 1 }; n"), 3);
}

#[test]
fn declaration_initializer_sees_its_own_depth() {
    assert_eq!(int_of("let a = 1; let b = { let c = 5; c + a }; b"), 6);
    assert_eq!(int_of("let f = callcc k in { let z = 2; throw k z }; f + 1"), 3);
}

#[test]
fn unclosed_function_is_rejected() {
    let mut scopes = vec![FunctionScope::new()];
    assert!(parse_tokens(&mut lex("fn(x) { x"), &mut scopes).is_err());
    assert!(!syntax_error_of("let a = 1").is_empty());
}

#[test]
fn continuation_called_after_its_callcc_returned() {
    match error_of("let k2 = callcc k in { k }; throw k2 1") {
        ErrorKind::Escape(_) => {}
        other => panic!("unexpected {:?}", other),
    }
}

#[test]
fn session_function_calls_itself() {
    let mut scopes = vec![FunctionScope::new()];
    let mut machine = Machine::new();
    let body = match read_input(
        &mut lex("fn fact(n) { if n == 0 { 1 } else { n * fact(n - 1) } }"),
        &mut scopes,
    ) {
        Ok(Input::Define(_, 1, body)) => body,
        _ => panic!("expected a definition"),
    };
    assert!(declare_function(String::from("fact"), 1, &body, &mut machine, &mut scopes).is_ok());
    let call = match read_input(&mut lex("fact(5)"), &mut scopes) {
        Ok(Input::Evaluate(e)) => e,
        _ => panic!("expected an expression"),
    };
    let r = eval_expression(&call, &mut machine, 0, 1000).ok().unwrap();
    assert!(matches!(machine.resolve(&r), Some(Value::Int(120))));
}

#[test]
fn session_function_body_must_be_a_block() {
    let mut scopes = vec![FunctionScope::new()];
    assert!(read_input(&mut lex("fn f(n) n"), &mut scopes).is_err());
    assert!(read_input(&mut lex("fn f(n) { m }"), &mut scopes).is_err());
}

#[test]
fn parse_restores_entry_scope() {
    let mut scopes = vec![FunctionScope::new()];
    assert!(parse_tokens(&mut lex("let a = 1; let b = 2; b"), &mut scopes).is_ok());
    assert_eq!(scopes.len(), 1);
    assert_eq!(scopes[0].var_scope, 0);
    let mut given = vec![FunctionScope::new()];
    given[0].bind(String::from("x"));
    given[0].var_scope = 1;
    match parse_tokens(&mut lex("x + 1"), &mut given) {
        Ok(Exp::Sum(a, b)) => {
            assert!(matches!(*a, Exp::Var(ref v) if v.name == "x" && v.scope == 0));
            assert!(matches!(*b, Exp::Const(Const::Integer(1))));
        }
        _ => panic!("expected a sum"),
    }
    assert_eq!(given[0].var_scope, 1);
    assert_eq!(given[0].variable_map.len(), 1);
}

#[test]
fn syntax_error_messages() {
    assert_eq!(syntax_error_of("let x = 1; fn(y){ x }"), "Unknown variable x");
    assert_eq!(
        syntax_error_of("1 2"),
        "Can not parse a single expression. Probabily missing a ;"
    );
    assert_eq!(syntax_error_of("1 )"), "Mismatched round brackets");
    assert_eq!(syntax_error_of("(1"), "Unexpected bracket `(`");
    assert_eq!(syntax_error_of("{ 1"), "Unexpected `{`");
    assert_eq!(syntax_error_of("(1, 2)"), "Unexpected `,`");
    assert_eq!(syntax_error_of("let a = [1]; a[0, 1]"), "Unexpected `,`");
    assert_eq!(syntax_error_of("*"), "Unexpected operator *");
    assert_eq!(syntax_error_of("fn(a b) { a }"), "Expected `,` after function argument");
    assert_eq!(syntax_error_of("1 else { 2 }"), "Unexpected else");
    assert_eq!(
        syntax_error_of("if true { 1 } else { 2 } else { 3 }"),
        "If expression already has an else branch"
    );
    assert_eq!(syntax_error_of("1; catch e { 2 }"), "Unexpected Catch");
    assert_eq!(syntax_error_of("catch 1"), "Expected variable name after catch token");
    assert_eq!(syntax_error_of("callcc 1"), "Expected variable name after callcc token");
}
