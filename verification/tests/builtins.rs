use lisp::ast::Literal;
use lisp::base::EvalError;
use lisp::eval::eval;
use lisp::frame::{EvalContext, EvalFrame};
use lisp::lex::lex;
use lisp::parse::parse_expressions;
use lisp::value::{value_to_string, Value};

const FUEL: u64 = 1000;

fn fresh_context() -> EvalContext {
    EvalContext::new(EvalFrame::empty())
}

fn run_all(source: &str, context: &mut EvalContext) -> Result<Vec<Value>, String> {
    let chars: Vec<char> = source.chars().collect();
    let tokens = lex(&chars).map_err(|_| String::from("lex error"))?;
    let exprs = parse_expressions(&tokens).map_err(|_| String::from("parse error"))?;
    let mut values = Vec::new();
    for expr in &exprs {
        match eval(expr, context, FUEL) {
            Ok(v) => values.push(v),
            Err(e) => {
                return Err(match e {
                    EvalError::BadArguments => String::from("BadArguments"),
                    EvalError::UndefinedBehaviour => String::from("UndefinedBehaviour"),
                    EvalError::NameNotFound(n) => format!("NameNotFound {}", n),
                    EvalError::NotCallable(n) => format!("NotCallable {}", n),
                    EvalError::StackOverflow => String::from("StackOverflow"),
                });
            }
        }
    }
    Ok(values)
}

fn run_one(source: &str) -> Result<String, String> {
    let mut context = fresh_context();
    let values = run_all(source, &mut context)?;
    assert_eq!(values.len(), 1);
    Ok(value_to_string(&values[0]))
}

#[test]
fn addition_folds() {
    assert_eq!(run_one("(+ 1 2)").unwrap(), "3");
    assert_eq!(run_one("(+ 1 2 3 4)").unwrap(), "10");
}

#[test]
fn addition_is_commutative() {
    assert_eq!(run_one("(+ 2 7 11)").unwrap(), run_one("(+ 11 7 2)").unwrap());
}

#[test]
fn subtraction_is_a_left_fold() {
    assert_eq!(run_one("(- 10 3 2)").unwrap(), "5");
    assert_eq!(run_one("(- 10 3 2)").unwrap(), run_one("(- (- 10 3) 2)").unwrap());
}

#[test]
fn division_is_a_left_fold() {
    assert_eq!(run_one("(/ 100 5 2)").unwrap(), "10");
    assert_eq!(run_one("(/ 100 5 2)").unwrap(), run_one("(/ (/ 100 5) 2)").unwrap());
}

#[test]
fn multiplication_folds() {
    assert_eq!(run_one("(* 2 3 4)").unwrap(), "24");
}

#[test]
fn division_by_zero_is_undefined() {
    assert_eq!(run_one("(/ 1 0)").unwrap_err(), "UndefinedBehaviour");
}

#[test]
fn arithmetic_on_non_numbers_is_undefined() {
    assert_eq!(run_one("(+ 1 \"a\")").unwrap_err(), "UndefinedBehaviour");
    assert_eq!(run_one("(* t 2)").unwrap_err(), "UndefinedBehaviour");
}

#[test]
fn arithmetic_overflow_is_undefined() {
    assert_eq!(
        run_one("(+ 9223372036854775807 1)").unwrap_err(),
        "UndefinedBehaviour"
    );
}

#[test]
fn arithmetic_needs_two_operands() {
    assert_eq!(run_one("(+ 1)").unwrap_err(), "BadArguments");
}

#[test]
fn equality_is_structural() {
    assert_eq!(run_one("(= 3 3 3)").unwrap(), "T");
    assert_eq!(run_one("(= 3 3 4)").unwrap(), "NIL");
    assert_eq!(run_one("(= \"a\" \"a\")").unwrap(), "T");
    assert_eq!(run_one("(= \"a\" \"b\")").unwrap(), "NIL");
}

#[test]
fn symbols_equal_nothing() {
    assert_eq!(run_one("(= (lambda (x) x) (lambda (x) x))").unwrap(), "NIL");
}

#[test]
fn comparisons_on_numbers() {
    assert_eq!(run_one("(> 3 2)").unwrap(), "T");
    assert_eq!(run_one("(< 3 2)").unwrap(), "NIL");
    assert_eq!(run_one("(>= 2 2)").unwrap(), "T");
    assert_eq!(run_one("(<= 3 2)").unwrap(), "NIL");
}

#[test]
fn comparisons_reject_non_numbers() {
    assert_eq!(run_one("(> \"a\" 2)").unwrap_err(), "BadArguments");
    assert_eq!(run_one("(< 1 t)").unwrap_err(), "BadArguments");
    assert_eq!(run_one("(> nil nil)").unwrap_err(), "BadArguments");
}

#[test]
fn comparisons_take_exactly_two_operands() {
    assert_eq!(run_one("(> 3 2 1)").unwrap_err(), "BadArguments");
}

#[test]
fn and_or_not_truth_table() {
    assert_eq!(run_one("(and t t nil)").unwrap(), "NIL");
    assert_eq!(run_one("(or nil nil t)").unwrap(), "T");
    assert_eq!(run_one("(not nil)").unwrap(), "T");
    assert_eq!(run_one("(not 5)").unwrap(), "NIL");
}

#[test]
fn and_treats_non_nil_as_true() {
    assert_eq!(run_one("(and 1 \"x\" t)").unwrap(), "T");
}

#[test]
fn or_looks_only_for_true_itself() {
    assert_eq!(run_one("(or 1 2)").unwrap(), "NIL");
    assert_eq!(run_one("(or 1 t)").unwrap(), "T");
}

#[test]
fn concatenate_joins_printed_forms() {
    let mut context = fresh_context();
    let values = run_all("(concatenate 1 \"a\" t)", &mut context).unwrap();
    match &values[0] {
        Value::Literal(Literal::String(s)) => assert_eq!(s, "1\"a\"T"),
        _ => panic!("expected a string literal"),
    }
}

#[test]
fn concatenate_of_one_number() {
    let mut context = fresh_context();
    let values = run_all("(concatenate 42)", &mut context).unwrap();
    match &values[0] {
        Value::Literal(Literal::String(s)) => assert_eq!(s, "42"),
        _ => panic!("expected a string literal"),
    }
}

#[test]
fn negative_results_display_with_sign() {
    assert_eq!(run_one("(- 2 7)").unwrap(), "-5");
}
