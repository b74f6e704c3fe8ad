use lisp::base::EvalError;
use lisp::eval::eval;
use lisp::frame::{EvalContext, EvalFrame};
use lisp::lex::lex;
use lisp::parse::parse_expressions;
use lisp::ast::{Expression, Literal};
use lisp::value::{value_to_string, CustomFunction, Function, Value};

const FUEL: u64 = 1000;

fn fresh_context() -> EvalContext {
    EvalContext::new(EvalFrame::empty())
}

fn run_all(source: &str, context: &mut EvalContext) -> Result<Vec<Value>, EvalError> {
    let chars: Vec<char> = source.chars().collect();
    let tokens = lex(&chars).expect("lexing failed");
    let exprs = parse_expressions(&tokens).expect("parsing failed");
    let mut values = Vec::new();
    for expr in &exprs {
        values.push(eval(expr, context, FUEL)?);
    }
    Ok(values)
}

fn last_display(source: &str, context: &mut EvalContext) -> String {
    let values = run_all(source, context).expect("evaluation failed");
    value_to_string(values.last().expect("no value"))
}

#[test]
fn literals_evaluate_to_themselves() {
    let mut context = fresh_context();
    assert_eq!(last_display("5", &mut context), "5");
    assert_eq!(last_display("t", &mut context), "T");
    assert_eq!(last_display("nil", &mut context), "NIL");
    assert_eq!(last_display("\"hi\"", &mut context), "\"hi\"");
}

#[test]
fn if_takes_then_branch_on_true_only() {
    let mut context = fresh_context();
    assert_eq!(last_display("(if t \"x\" \"y\")", &mut context), "\"x\"");
    assert_eq!(last_display("(if nil \"x\" \"y\")", &mut context), "\"y\"");
    assert_eq!(last_display("(if 5 \"x\" \"y\")", &mut context), "\"y\"");
}

#[test]
fn if_without_else_yields_nil() {
    let mut context = fresh_context();
    assert_eq!(last_display("(if nil \"x\")", &mut context), "NIL");
}

#[test]
fn untaken_branch_never_writes() {
    let mut context = fresh_context();
    assert_eq!(last_display("(if t \"x\" (write \"y\"))", &mut context), "\"x\"");
    let output = context.take_output();
    assert_eq!(output.len(), 0);
}

#[test]
fn taken_branch_writes() {
    let mut context = fresh_context();
    assert_eq!(last_display("(if nil \"x\" (write \"y\"))", &mut context), "\"y\"");
    let output = context.take_output();
    assert_eq!(output, vec![String::from("\"y\"")]);
}

#[test]
fn setq_binds_and_returns_the_value() {
    let mut context = fresh_context();
    assert_eq!(last_display("(setq x 5) x", &mut context), "5");
}

#[test]
fn setq_in_nested_call_is_invisible_to_the_caller() {
    let mut context = fresh_context();
    run_all("(setq x 1) (defun f () (setq x 5)) (f)", &mut context).expect("evaluation failed");
    assert_eq!(last_display("x", &mut context), "1");
}

#[test]
fn setq_of_a_fresh_name_in_a_call_is_gone_after_it() {
    let mut context = fresh_context();
    run_all("(defun f () (setq y 1)) (f)", &mut context).expect("evaluation failed");
    let result = run_all("y", &mut context);
    assert!(matches!(result, Err(EvalError::NameNotFound(_))));
}

#[test]
fn defun_inside_a_body_is_globally_visible() {
    let mut context = fresh_context();
    let display = last_display(
        "(defun outer () (defun inner () 41)) (outer) (inner)",
        &mut context,
    );
    assert_eq!(display, "41");
}

#[test]
fn defun_returns_the_function_value() {
    let mut context = fresh_context();
    assert_eq!(last_display("(defun f (x) x)", &mut context), "symbol");
}

#[test]
fn functions_apply_their_arguments() {
    let mut context = fresh_context();
    assert_eq!(
        last_display("(defun double (n) (* n 2)) (double 21)", &mut context),
        "42"
    );
}

#[test]
fn lambda_applies_like_a_function() {
    let mut context = fresh_context();
    assert_eq!(last_display("(setq g (lambda (n) (+ n 1))) (g 4)", &mut context), "5");
}

#[test]
fn arguments_evaluate_left_to_right() {
    let mut context = fresh_context();
    run_all("(concatenate (write 1) (write 2) (write 3))", &mut context)
        .expect("evaluation failed");
    assert_eq!(
        context.take_output(),
        vec![String::from("1"), String::from("2"), String::from("3")]
    );
}

#[test]
fn arity_is_checked_before_arguments_run() {
    let mut context = fresh_context();
    let result = run_all("(defun f (a b) a) (f (write 1))", &mut context);
    assert!(matches!(result, Err(EvalError::BadArguments)));
    assert_eq!(context.take_output().len(), 0);
}

#[test]
fn free_names_resolve_against_the_caller() {
    // The closure body reads `n` from whatever frame stack is live at
    // the call site: dynamic scoping, kept deliberately.
    let mut context = fresh_context();
    let display = last_display(
        "(defun get () n) (defun call-with (n) (get)) (call-with 7)",
        &mut context,
    );
    assert_eq!(display, "7");
}

#[test]
fn progn_returns_the_last_value() {
    let mut context = fresh_context();
    assert_eq!(last_display("(progn 1 2 3)", &mut context), "3");
}

#[test]
fn empty_progn_is_undefined() {
    let mut context = fresh_context();
    let result = run_all("(progn)", &mut context);
    assert!(matches!(result, Err(EvalError::UndefinedBehaviour)));
}

#[test]
fn unknown_name_is_reported() {
    let mut context = fresh_context();
    let result = run_all("missing", &mut context);
    assert!(matches!(result, Err(EvalError::NameNotFound(n)) if n == "missing"));
}

#[test]
fn calling_a_number_is_not_callable() {
    let mut context = fresh_context();
    let result = run_all("(setq x 5) (x 1)", &mut context);
    assert!(matches!(result, Err(EvalError::NotCallable(n)) if n == "x"));
}

#[test]
fn runaway_recursion_exhausts_the_budget() {
    let mut context = fresh_context();
    let result = run_all("(defun loopy () (loopy)) (loopy)", &mut context);
    assert!(matches!(result, Err(EvalError::StackOverflow)));
}

#[test]
fn local_binding_shadows_a_builtin() {
    let mut context = fresh_context();
    assert_eq!(last_display("(setq not 9) not", &mut context), "9");
}

#[test]
fn write_returns_its_argument() {
    let mut context = fresh_context();
    assert_eq!(last_display("(write 7)", &mut context), "7");
    assert_eq!(context.take_output(), vec![String::from("7")]);
}

#[test]
fn read_takes_pending_input_lines_in_order() {
    let mut context = fresh_context();
    context.push_input(String::from("first"));
    context.push_input(String::from("second"));
    assert_eq!(last_display("(read)", &mut context), "\"first\"");
    assert_eq!(last_display("(read)", &mut context), "\"second\"");
}

#[test]
fn read_with_no_input_is_undefined() {
    let mut context = fresh_context();
    let result = run_all("(read)", &mut context);
    assert!(matches!(result, Err(EvalError::UndefinedBehaviour)));
}

#[test]
fn read_takes_zero_arguments() {
    let mut context = fresh_context();
    context.push_input(String::from("x"));
    let result = run_all("(read 1)", &mut context);
    assert!(matches!(result, Err(EvalError::BadArguments)));
}

#[test]
fn context_survives_across_top_level_expressions() {
    let mut context = fresh_context();
    run_all("(setq a 2)", &mut context).expect("evaluation failed");
    run_all("(setq b 3)", &mut context).expect("evaluation failed");
    assert_eq!(last_display("(+ a b)", &mut context), "5");
}

#[test]
fn cloned_context_is_independent() {
    let mut context = fresh_context();
    run_all("(setq a 2)", &mut context).expect("evaluation failed");
    let mut copy = context.clone();
    run_all("(setq a 9)", &mut copy).expect("evaluation failed");
    assert_eq!(last_display("a", &mut context), "2");
    assert_eq!(last_display("a", &mut copy), "9");
}

#[test]
fn values_compare_structurally_and_symbols_equal_nothing() {
    let three = Value::Literal(Literal::Number(3));
    let also_three = Value::Literal(Literal::Number(3));
    let four = Value::Literal(Literal::Number(4));
    assert!(three == also_three);
    assert!(three != four);
    let f = Value::Symbol(Function::Custom(CustomFunction::new(
        Vec::new(),
        Expression::Literal(Literal::Nil),
    )));
    let g = Value::Symbol(Function::Custom(CustomFunction::new(
        Vec::new(),
        Expression::Literal(Literal::Nil),
    )));
    assert!(f != g);
}

#[test]
fn a_leftover_invoke_node_is_undefined() {
    let mut context = fresh_context();
    let expr = Expression::Invoke(String::from("f"), Vec::new());
    let result = eval(&expr, &mut context, FUEL);
    assert!(matches!(result, Err(EvalError::UndefinedBehaviour)));
}

#[test]
fn nested_calls_reduce_inside_out() {
    let mut context = fresh_context();
    assert_eq!(last_display("(+ 1 (+ 2 (+ 3 4)))", &mut context), "10");
}

#[test]
fn a_defun_can_shadow_a_builtin() {
    // Lookup walks the frames before the builtin table, and defun binds
    // in the root frame.
    let mut context = fresh_context();
    assert_eq!(last_display("(defun + (a b) 42) (+ 1 2)", &mut context), "42");
}
