//! End-to-end programs run through the interpreter, checking the exact
//! display string of each result.

use rust_scheme::interpreter::run_program;

fn check(program: &str, expected: &str) {
    match run_program(program) {
        Ok(result) => assert_eq!(result, expected.to_string()),
        Err(message) => panic!("program failed: {}", message),
    }
}

fn check_err(program: &str) {
    match run_program(program) {
        Ok(result) => panic!("program unexpectedly succeeded: {}", result),
        Err(_) => {},
    }
}

#[test]
fn main_test_add() {
    check("(+ 1 2)", "3")
}

#[test]
fn main_test_multiply() {
    check("(* 3 4)", "12")
}

#[test]
fn main_test_subtract() {
    check("(- 3 10)", "-7")
}

#[test]
fn main_test_divide() {
    check("(/ 20 4)", "5")
}

#[test]
fn main_test_gt() {
    check("(> 10 5)", &format!("{}", true));
    check("(> 5 10)", &format!("{}", false));
    check("(> 5 5)", &format!("{}", false))
}

#[test]
fn main_test_lt() {
    check("(< 10 5)", &format!("{}", false));
    check("(< 5 10)", &format!("{}", true));
    check("(< 5 5)", &format!("{}", false))
}

#[test]
fn main_test_ge() {
    check("(>= 10 5)", &format!("{}", true));
    check("(>= 5 10)", &format!("{}", false));
    check("(>= 5 5)", &format!("{}", true))
}

#[test]
fn main_test_le() {
    check("(<= 10 5)", &format!("{}", false));
    check("(<= 5 10)", &format!("{}", true));
    check("(<= 5 5)", &format!("{}", true))
}

#[test]
fn main_test_eq() {
    check("(= 10 10)", &format!("{}", true));
    check("(= 15 10)", &format!("{}", false));
    check("(= 10 15)", &format!("{}", false))
}

#[test]
fn main_test_abs() {
    check("(abs -10)", "10");
    check("(abs 10)", "10")
}

#[test]
fn main_test_list_and_append() {
    check("(append (list 1 2 3) (list 4 5 6))", "(1 2 3 4 5 6)");
    check("(append (list) (list))", "()");
    check("(append (list 1 2 3) (list))", "(1 2 3)");
    check("(append (list) (list 1 2 3))", "(1 2 3)");
    check(
        "(append (list 1 2 3) (list 4 5 6) (list 7) (list 8 9))",
        "(1 2 3 4 5 6 7 8 9)",
    )
}

#[test]
fn main_test_quote() {
    check("'(1 2 3)", "(1 2 3)");
    check("(list? '(1 2 3))", "true");
    check("(append (list 1 2 3) '(4 5 6))", "(1 2 3 4 5 6)")
}

#[test]
fn main_test_apply() {
    check("(apply + (list 1 2 3))", "6");
    check("(apply + 1 2 (list 3 4))", "10")
}

#[test]
fn main_test_begin() {
    check("(begin 1 2 3)", "3");
    check("(begin 1 2 (begin 1 2 (+ 1 2)))", "3");
}

#[test]
fn main_test_car() {
    check("(car (list 1 2))", "1");
    check("(car (list (list 1 2) 3))", "(1 2)");
    check_err("(car 1)");
}

#[test]
fn main_test_cdr() {
    check("(cdr (list 1 2))", "(2)");
    check("(cdr (list 1 (list 1 2)))", "((1 2))");
    check_err("(cdr 1)")
}

#[test]
fn main_test_is_eq() {
    check("(eq? 1 1)", "true");
    check("(eq? (list 1 2) (list 1 2))", "false");
    check("(eq? (list 1 2) (list 1 1))", "false");
}

#[test]
fn main_test_is_equal() {
    check("(equal? 1 1)", "true");
    check("(equal? (list 1 2) (list 1 2))", "true");
    check("(equal? (list 1 2) (list 1 1))", "false");
    check("(equal? 1 2)", "false");
}

#[test]
fn main_test_is_list() {
    check("(list? (list 1 2))", "true");
    check("(list? (+ 1 2))", "false");
    check("(list? 1)", "false");
}

#[test]
fn main_test_define() {
    check("(begin (define x 5) (+ x 6))", "11");
    check("(begin (define (add2 y) (+ y 2)) (add2 3))", "5")
}

// The program is missing one closing parenthesis, so running it reports
// the missing-paren failure rather than a value.
#[test]
fn main_test_recursion_simple() {
    match run_program("(begin (define (fact x) (* x (fact (- x 1))) (fact 5))") {
        Ok(result) => panic!("program unexpectedly succeeded: {}", result),
        Err(message) => assert_eq!(message, "Missing right paren".to_string()),
    }
}

#[test]
fn main_test_misc() {
    check("( list (+ 34 6) ( * 2 1 )  )", "(40 2)")
}
