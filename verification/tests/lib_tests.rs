//! Programs run through the interpreter's public entry point, result and
//! failure cases alike.

use rust_scheme::interpreter::run_program;

fn expect_ok(program: &str, expected: &str) {
    match run_program(program) {
        Ok(result) => assert_eq!(result, expected.to_string()),
        Err(message) => panic!("program failed: {}", message),
    }
}

fn expect_err(program: &str) {
    match run_program(program) {
        Ok(result) => panic!("program unexpectedly succeeded: {}", result),
        Err(_) => {},
    }
}

fn expect_err_msg(program: &str, expected: &str) {
    match run_program(program) {
        Ok(result) => panic!("program unexpectedly succeeded: {}", result),
        Err(message) => assert_eq!(message, expected.to_string()),
    }
}

#[test]
fn lib_test_add() {
    expect_ok("(+ 1 2)", "3")
}

#[test]
fn lib_test_multiply() {
    expect_ok("(* 3 4)", "12")
}

#[test]
fn lib_test_subtract() {
    expect_ok("(- 3 10)", "-7")
}

#[test]
fn lib_test_divide() {
    expect_ok("(/ 20 4)", "5")
}

#[test]
fn lib_test_gt() {
    expect_ok("(> 10 5)", &format!("{}", true));
    expect_ok("(> 5 10)", &format!("{}", false));
    expect_ok("(> 5 5)", &format!("{}", false))
}

#[test]
fn lib_test_lt() {
    expect_ok("(< 10 5)", &format!("{}", false));
    expect_ok("(< 5 10)", &format!("{}", true));
    expect_ok("(< 5 5)", &format!("{}", false))
}

#[test]
fn lib_test_ge() {
    expect_ok("(>= 10 5)", &format!("{}", true));
    expect_ok("(>= 5 10)", &format!("{}", false));
    expect_ok("(>= 5 5)", &format!("{}", true))
}

#[test]
fn lib_test_le() {
    expect_ok("(<= 10 5)", &format!("{}", false));
    expect_ok("(<= 5 10)", &format!("{}", true));
    expect_ok("(<= 5 5)", &format!("{}", true))
}

#[test]
fn lib_test_eq() {
    expect_ok("(= 10 10)", &format!("{}", true));
    expect_ok("(= 15 10)", &format!("{}", false));
    expect_ok("(= 10 15)", &format!("{}", false))
}

#[test]
fn lib_test_abs() {
    expect_ok("(abs -10)", "10");
    expect_ok("(abs 10)", "10")
}

#[test]
fn lib_test_list_and_append() {
    expect_ok("(append (list 1 2 3) (list 4 5 6))", "(1 2 3 4 5 6)");
    expect_ok("(append (list) (list))", "()");
    expect_ok("(append (list 1 2 3) (list))", "(1 2 3)");
    expect_ok("(append (list) (list 1 2 3))", "(1 2 3)");
    expect_ok(
        "(append (list 1 2 3) (list 4 5 6) (list 7) (list 8 9))",
        "(1 2 3 4 5 6 7 8 9)",
    )
}

#[test]
fn lib_test_quote() {
    expect_ok("'(1 2 3)", "(1 2 3)");
    expect_ok("(list? '(1 2 3))", "true");
    expect_ok("(append (list 1 2 3) '(4 5 6))", "(1 2 3 4 5 6)")
}

#[test]
fn lib_test_apply() {
    expect_ok("(apply + (list 1 2 3))", "6");
    expect_ok("(apply + 1 2 (list 3 4))", "10")
}

#[test]
fn lib_test_begin() {
    expect_ok("(begin 1 2 3)", "3");
    expect_ok("(begin 1 2 (begin 1 2 (+ 1 2)))", "3");
}

#[test]
fn lib_test_car() {
    expect_ok("(car (list 1 2))", "1");
    expect_ok("(car (list (list 1 2) 3))", "(1 2)");
    expect_err("(car 1)");
}

#[test]
fn lib_test_cdr() {
    expect_ok("(cdr (list 1 2))", "(2)");
    expect_ok("(cdr (list 1 (list 1 2)))", "((1 2))");
    expect_err("(cdr 1)")
}

#[test]
fn lib_test_is_eq() {
    expect_ok("(eq? 1 1)", "true");
    expect_ok("(eq? (list 1 2) (list 1 2))", "false");
    expect_ok("(eq? (list 1 2) (list 1 1))", "false");
}

#[test]
fn lib_test_is_equal() {
    expect_ok("(equal? 1 1)", "true");
    expect_ok("(equal? (list 1 2) (list 1 2))", "true");
    expect_ok("(equal? (list 1 2) (list 1 1))", "false");
    expect_ok("(equal? 1 2)", "false");
}

#[test]
fn lib_test_is_list() {
    expect_ok("(list? (list 1 2))", "true");
    expect_ok("(list? (+ 1 2))", "false");
    expect_ok("(list? 1)", "false");
}

#[test]
fn lib_test_define() {
    expect_ok("(begin (define x 5) (+ x 6))", "11");
    expect_ok("(begin (define (add2 y) (+ y 2)) (add2 3))", "5")
}

#[test]
fn lib_test_recursion_simple() {
    expect_ok(
        "(begin (define (fact x) (if (< x 2) x (* x (fact (- x 1))))) (fact 5))",
        "120",
    )
}

#[test]
fn lib_test_misc() {
    expect_ok("( list (+ 34 6) ( * 2 1 )  )", "(40 2)")
}

/* Failure tests */

#[test]
fn test_mismatch_paren() {
    expect_err_msg(
        "(begin (define (fact x) (* x (fact (- x 1))) (fact 5))",
        "Missing right paren",
    )
}
