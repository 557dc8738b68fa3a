use expr_lang::ast::Ast;
use expr_lang::evaluator::{EvalError, ExpressionEvaluator};
use expr_lang::global_scope::GlobalScope;
use expr_lang::lexer::tokenize;
use expr_lang::parser::Parser;

fn evaluate_input(input: &str) -> ExpressionEvaluator {
    let tokens = tokenize(input);
    let mut ast = Ast::new();
    let mut scope = GlobalScope::new();
    let mut parser = Parser::new(tokens);
    parser.parse(&mut ast, &mut scope).expect("the input should parse");
    ast.evaluate()
}

#[test]
fn evaluate_mixed_operators() {
    let ev = evaluate_input("3 * 4 / 3 + 2 - 1");
    assert_eq!(ev.result, Some(5));
    assert!(ev.error.is_none());
}

#[test]
fn evaluate_left_associative_subtraction() {
    // 1 - 1 - 1 groups as (1 - 1) - 1 = -1, not 1 - (1 - 1) = 1.
    let ev = evaluate_input("1 - 1 - 1");
    assert_eq!(ev.result, Some(-1));
}

#[test]
fn evaluate_nested_parentheses() {
    let ev = evaluate_input("3 * (4 + 1 - (4 / 2))");
    assert_eq!(ev.result, Some(9));
}

#[test]
fn evaluate_let_initializer() {
    let ev = evaluate_input("let answer = 2 + 3 * 4");
    assert_eq!(ev.result, Some(14));
    assert_eq!(ev.value, Some(14));
}

#[test]
fn evaluate_division_by_zero() {
    let ev = evaluate_input("10 / 0");
    assert_eq!(ev.error, Some(EvalError::DivisionByZero));
    assert_eq!(ev.result, None);
}

#[test]
fn evaluate_function_declaration_produces_no_value() {
    let ev = evaluate_input("function f(a, b, c) { let x = 1 }");
    assert_eq!(ev.result, None);
    assert_eq!(ev.value, None);
    assert!(ev.error.is_none());
}

#[test]
fn evaluate_overflow_is_an_error() {
    let ev = evaluate_input("9223372036854775807 + 1");
    assert_eq!(ev.error, Some(EvalError::Overflow));
}

#[test]
fn evaluate_division_truncates_towards_zero() {
    let ev = evaluate_input("7 / 2");
    assert_eq!(ev.result, Some(3));
}

#[test]
fn evaluate_single_number_sets_value_only() {
    let ev = evaluate_input("41");
    assert_eq!(ev.value, Some(41));
    assert_eq!(ev.result, None);
}

#[test]
fn evaluate_error_stops_later_work() {
    // Once the division fails, the following statement changes nothing.
    let ev = evaluate_input("1 / 0 2 + 2");
    assert_eq!(ev.error, Some(EvalError::DivisionByZero));
    assert_eq!(ev.result, None);
}

#[test]
fn evaluate_twice_yields_the_same_result() {
    let tokens = tokenize("6 * 7 - 2");
    let mut ast = Ast::new();
    let mut scope = GlobalScope::new();
    let mut parser = Parser::new(tokens);
    parser.parse(&mut ast, &mut scope).unwrap();
    let first = ast.evaluate();
    let second = ast.evaluate();
    assert_eq!(first.result, second.result);
    assert_eq!(first.value, second.value);
    assert_eq!(first.result, Some(40));
}

#[test]
fn evaluate_empty_program() {
    let ev = evaluate_input("");
    assert_eq!(ev.result, None);
    assert_eq!(ev.value, None);
    assert!(ev.error.is_none());
}

#[test]
fn evaluate_value_latches_last_scalar() {
    // `result` mirrors the last binary fold; `value` the last scalar.
    let ev = evaluate_input("1 + 2 7");
    assert_eq!(ev.result, Some(3));
    assert_eq!(ev.value, Some(7));
}

#[test]
fn evaluator_new_starts_empty() {
    let ev = ExpressionEvaluator::new();
    assert_eq!(ev.result, None);
    assert_eq!(ev.value, None);
    assert!(ev.error.is_none());
}

#[test]
fn evaluate_negative_dividend_truncates() {
    // (1 - 8) / 2 = -7 / 2 truncates towards zero: -3, not -4.
    let ev = evaluate_input("(1 - 8) / 2");
    assert_eq!(ev.result, Some(-3));
}
