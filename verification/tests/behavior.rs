//! Edge cases of the reader, the arithmetic, the error taxonomy and the
//! value model, exercised both through whole programs and through the
//! library's public pieces directly.

use rust_scheme::atom::{atom_equal, Atom, NativeFn, SchemeFnWrap, SchemeLambda};
use rust_scheme::environment::{env_get, env_set, env_spawn_child, Environment};
use rust_scheme::errors::SchemeError;
use rust_scheme::interpreter::{evaluate, execute_fn, run_program, INITIAL_FUEL};
use rust_scheme::numtext::{i32_to_string, parse_i32};
use rust_scheme::parse::{make_atom, read_from_tokens, tokenize};

fn good(program: &str, expected: &str) {
    match run_program(program) {
        Ok(result) => assert_eq!(result, expected.to_string()),
        Err(message) => panic!("program failed: {}", message),
    }
}

fn bad(program: &str, expected_message: &str) {
    match run_program(program) {
        Ok(result) => panic!("program unexpectedly succeeded: {}", result),
        Err(message) => assert_eq!(message, expected_message.to_string()),
    }
}

#[test]
fn test_nested_arithmetic() {
    good("(/ (- (+ 1 (+ 1 1)) 5) 2)", "-1");
    good("(* 2 (* 3 (* 4 5)))", "120");
    good("(- 0 2147483647)", "-2147483647");
}

#[test]
fn test_truncating_division() {
    good("(/ 7 2)", "3");
    good("(/ (- 0 7) 2)", "-3");
    good("(/ 7 (- 0 2))", "-3");
    good("(/ (- 0 7) (- 0 2))", "3");
}

#[test]
fn test_integer_literals() {
    good("2147483647", "2147483647");
    good("-2147483648", "-2147483648");
    good("+5", "5");
    // one digit beyond the 32-bit range reads as a symbol, which is unbound
    bad("2147483648", "Undefined symbol: 2147483648");
}

#[test]
fn test_arithmetic_overflow_is_reported() {
    bad("(+ 2147483647 1)", "Integer overflow");
    bad("(- (- 0 2147483647) 2)", "Integer overflow");
    bad("(* 65536 65536)", "Integer overflow");
    bad("(/ -2147483648 (- 0 1))", "Integer overflow");
    bad("(abs -2147483648)", "Integer overflow");
}

#[test]
fn test_division_by_zero_is_reported() {
    bad("(/ 1 0)", "Division by zero");
}

#[test]
fn test_add_multiply_drop_non_integers() {
    good("(+ 1 (list 2 3) 4)", "5");
    good("(* 2 (list 9) 3)", "6");
    good("(+)", "0");
    good("(*)", "1");
}

#[test]
fn test_binary_operator_errors() {
    bad("(- 1)", "Invalid number of operands");
    bad("(- 1 2 3)", "Invalid number of operands");
    bad("(- 1 (list))", "Not an int");
    bad("(< 1 (list))", "Not an int");
    bad("(abs)", "Invalid number of operands");
}

#[test]
fn test_cons_car_cdr_round_trip() {
    good("(car (cons 1 2))", "1");
    good("(cdr (cons 1 2))", "2");
    good("(cons 1 2)", "(1 . 2)");
    good("(cons (list 1 2) 3)", "((1 2) . 3)");
    bad("(car (list))", "Expected a pair");
    bad("(cdr (list))", "Expected a pair");
}

#[test]
fn test_eq_on_simple_values() {
    good("(eq? (> 1 0) (> 2 0))", "true");
    good("(eq? (> 0 1) (> 2 0))", "false");
    good("(eq? (cons 1 2) (cons 1 2))", "false");
}

#[test]
fn test_equal_on_compound_values() {
    good("(equal? (cons 1 2) (cons 1 2))", "true");
    good("(equal? (cons 1 2) (cons 1 3))", "false");
    good("(equal? (list (list 1) 2) (list (list 1) 2))", "true");
    good("(equal? (list 1 2) 3)", "false");
}

#[test]
fn test_if_branches() {
    good("(if (> 2 1) 10 20)", "10");
    good("(if (> 1 2) 10 20)", "20");
    // a false condition with no alternative yields the unit value
    good("(if (> 1 2) 10)", "Nil");
    bad("(if (> 1 2) 1 2 3)", "Too many arguments to 'if'");
    bad("(if 1 2)", "First argument to 'if' must be a boolean");
}

#[test]
fn test_define_errors() {
    good("(define x)", "Nil");
    bad("(define x 1 2)", "Ill formed define");
    bad("(define 5 5)", "First argument to define must be a symbol or list");
    bad("(define (f 5) 1)", "Non-symbol in parameter list");
    bad("(define)", "Ill formed define");
}

#[test]
fn test_define_binds_evaluated_value() {
    good("(begin (define x (+ 1 2)) (+ x 1))", "4");
    good("(begin (define x 1) (define x (+ x 1)) x)", "2");
}

#[test]
fn test_lambda_arity_and_shadowing() {
    bad(
        "(begin (define (f x) x) (f 1 2))",
        "Wrong number of arguments for f",
    );
    good("(begin (define x 1) (define (f x) (+ x 10)) (f 5))", "15");
    good("(begin (define (second a b) b) (second 1 2))", "2");
}

#[test]
fn test_reader_failures() {
    bad("", "Empty program");
    bad(")", "Unexpected right paren");
    bad("(", "Missing right paren");
    bad("'x", "Expected ( after quote");
    bad("'", "Expected ( after quote");
}

#[test]
fn test_evaluation_failures() {
    bad("()", "Ill-formed expression");
    bad("(begin ())", "Ill-formed expression");
    bad("(1 2)", "Not a callable");
    bad("(+ y 1)", "Undefined symbol: y");
    bad("(let)", "let not defined");
    bad("(begin)", "Invalid number of operands");
    bad("(eq? 1)", "Invalid number of operands");
    bad("(append 1)", "Not a list");
    bad("(apply +)", "Invalid number of operands");
    bad("(apply 1 (list))", "Not a callable");
    bad("(apply + 1)", "Not a list");
}

// `()` parses to an empty combination; evaluating it at the top level is
// the ill-formed-expression failure, so assert the exact message
#[test]
fn test_empty_combination_message() {
    match run_program("()") {
        Ok(_) => panic!("empty combination evaluated"),
        Err(message) => assert_eq!(message, "Ill-formed expression".to_string()),
    }
}

#[test]
fn test_exhausted_budget_is_reported() {
    let mut env = Environment::standard_env();
    match evaluate(Atom::Int(1), &mut env, 0, 0) {
        Err(e) => assert_eq!(e.message(), "Recursion limit exceeded".to_string()),
        Ok(_) => panic!("evaluation succeeded without budget"),
    }
}

#[test]
fn test_tokenize_directly() {
    let toks = tokenize("(+ 1 2)");
    let expected = vec!["(", "+", "1", "2", ")"];
    assert_eq!(toks.len(), expected.len());
    let mut i = 0;
    while i < toks.len() {
        assert_eq!(toks[i], expected[i].to_string());
        i += 1;
    }
    let quoted = tokenize("'(ab)");
    let expected_quoted = vec!["'", "(", "ab", ")"];
    assert_eq!(quoted.len(), expected_quoted.len());
    let mut j = 0;
    while j < quoted.len() {
        assert_eq!(quoted[j], expected_quoted[j].to_string());
        j += 1;
    }
    assert_eq!(tokenize("   ").len(), 0);
}

#[test]
fn test_read_from_tokens_directly() {
    let mut toks = tokenize("(+ 1) rest");
    let parsed = read_from_tokens(&mut toks).unwrap();
    assert_eq!(parsed.display_string(), "(+ 1)".to_string());
    // trailing tokens stay behind
    assert_eq!(toks.len(), 1);
    assert_eq!(toks[0], "rest".to_string());
}

#[test]
fn test_make_atom_directly() {
    match make_atom("12") {
        Ok(Atom::Int(i)) => assert_eq!(i, 12),
        _ => panic!("expected an integer"),
    }
    match make_atom("12x") {
        Ok(Atom::Symbol(s)) => assert_eq!(s, "12x".to_string()),
        _ => panic!("expected a symbol"),
    }
}

#[test]
fn test_parse_i32_directly() {
    assert_eq!(parse_i32("42"), Some(42));
    assert_eq!(parse_i32("-42"), Some(-42));
    assert_eq!(parse_i32("+7"), Some(7));
    assert_eq!(parse_i32("2147483647"), Some(2147483647));
    assert_eq!(parse_i32("-2147483648"), Some(-2147483648));
    assert_eq!(parse_i32("2147483648"), None);
    assert_eq!(parse_i32("-2147483649"), None);
    assert_eq!(parse_i32("99999999999999999999"), None);
    assert_eq!(parse_i32(""), None);
    assert_eq!(parse_i32("-"), None);
    assert_eq!(parse_i32("4x"), None);
    assert_eq!(parse_i32("x4"), None);
}

#[test]
fn test_i32_to_string_directly() {
    assert_eq!(i32_to_string(0), "0".to_string());
    assert_eq!(i32_to_string(123), "123".to_string());
    assert_eq!(i32_to_string(-5), "-5".to_string());
    assert_eq!(i32_to_string(i32::MIN), "-2147483648".to_string());
    assert_eq!(i32_to_string(i32::MAX), "2147483647".to_string());
}

#[test]
fn test_atom_equal_directly() {
    assert!(atom_equal(&Atom::Int(1), &Atom::Int(1)));
    assert!(!atom_equal(&Atom::Int(1), &Atom::Int(2)));
    assert!(!atom_equal(&Atom::Int(1), &Atom::Bool(true)));
    assert!(atom_equal(&Atom::Nil, &Atom::Nil));
    let a = Atom::List(vec![Atom::Int(1), Atom::Symbol("x".to_string())]);
    let b = Atom::List(vec![Atom::Int(1), Atom::Symbol("x".to_string())]);
    let c = Atom::List(vec![Atom::Int(1), Atom::Symbol("y".to_string())]);
    assert!(atom_equal(&a, &b));
    assert!(!atom_equal(&a, &c));
    let p1 = Atom::Cons(Box::new(Atom::Int(1)), Box::new(Atom::Nil));
    let p2 = Atom::Cons(Box::new(Atom::Int(1)), Box::new(Atom::Nil));
    assert!(atom_equal(&p1, &p2));
    assert!(atom_equal(&p1.clone(), &p1));
}

#[test]
fn test_display_string_directly() {
    assert_eq!(Atom::Nil.display_string(), "Nil".to_string());
    assert_eq!(Atom::Bool(true).display_string(), "true".to_string());
    assert_eq!(Atom::Int(-7).display_string(), "-7".to_string());
    assert_eq!(
        Atom::Callable(SchemeFnWrap::Fn(NativeFn::Add)).display_string(),
        "SchemeFn()".to_string()
    );
    let pair = Atom::Cons(Box::new(Atom::Int(1)), Box::new(Atom::Int(2)));
    assert_eq!(pair.display_string(), "(1 . 2)".to_string());
    let empty: Vec<Atom> = vec![];
    assert_eq!(Atom::List(empty).display_string(), "()".to_string());
}

#[test]
fn test_accessors_directly() {
    assert_eq!(Atom::Int(3).as_int(), Some(3));
    assert_eq!(Atom::Nil.as_int(), None);
    assert!(Atom::Nil.as_int_result().is_err());
    assert!(Atom::List(vec![]).as_list().is_some());
    assert!(Atom::Int(1).as_list_result().is_err());
    assert!(Atom::Symbol("s".to_string()).as_symbol().is_some());
    assert!(Atom::Int(1).as_symbol_result().is_err());
    assert!(Atom::Callable(SchemeFnWrap::Fn(NativeFn::Car)).as_callable_result().is_ok());
    assert!(Atom::Int(1).as_callable_result().is_err());
}

#[test]
fn test_environment_directly() {
    let mut env = Environment::standard_env();
    // the root scope holds the built-ins
    match env_get(&env, 0, &"car".to_string()) {
        Ok(Atom::Callable(_)) => {},
        _ => panic!("car is not bound to a callable"),
    }
    // a binding resolves in the scope it was made in
    env_set(&mut env, 0, "x".to_string(), Atom::Int(5));
    match env_get(&env, 0, &"x".to_string()) {
        Ok(Atom::Int(5)) => {},
        _ => panic!("x did not resolve to 5"),
    }
    // and from a nested scope, through the parent chain
    let child = env_spawn_child(&mut env, 0);
    match env_get(&env, child, &"x".to_string()) {
        Ok(Atom::Int(5)) => {},
        _ => panic!("x did not resolve through the parent"),
    }
    // a child binding shadows without changing the parent
    env_set(&mut env, child, "x".to_string(), Atom::Int(7));
    match env_get(&env, child, &"x".to_string()) {
        Ok(Atom::Int(7)) => {},
        _ => panic!("x did not shadow in the child"),
    }
    match env_get(&env, 0, &"x".to_string()) {
        Ok(Atom::Int(5)) => {},
        _ => panic!("the parent binding changed"),
    }
    // an unbound name fails
    assert!(env_get(&env, child, &"zote".to_string()).is_err());
}

#[test]
fn test_evaluate_and_execute_fn_directly() {
    let mut env = Environment::standard_env();
    let program = Atom::List(vec![
        Atom::Symbol("+".to_string()),
        Atom::Int(20),
        Atom::Int(22),
    ]);
    match evaluate(program, &mut env, 0, INITIAL_FUEL) {
        Ok(Atom::Int(42)) => {},
        _ => panic!("addition did not evaluate to 42"),
    }
    let lambda = SchemeLambda::new(
        "double".to_string(),
        vec!["n".to_string()],
        vec![Atom::List(vec![
            Atom::Symbol("+".to_string()),
            Atom::Symbol("n".to_string()),
            Atom::Symbol("n".to_string()),
        ])],
    );
    let wrap = SchemeFnWrap::Lambda(lambda);
    match execute_fn(wrap, vec![Atom::Int(21)], &mut env, 0, INITIAL_FUEL) {
        Ok(Atom::Int(42)) => {},
        _ => panic!("the procedure did not return 42"),
    }
}

#[test]
fn test_error_messages_directly() {
    assert_eq!(
        SchemeError::MissingCloseParen.message(),
        "Missing right paren".to_string()
    );
    assert_eq!(
        SchemeError::UndefinedSymbol("abc".to_string()).message(),
        "Undefined symbol: abc".to_string()
    );
    assert_eq!(
        SchemeError::ArityMismatch("f".to_string(), 2).message(),
        "Wrong number of arguments for f".to_string()
    );
}
