use expr_lang::ast::Ast;
use expr_lang::global_scope::GlobalScope;
use expr_lang::lexer::tokenize;
use expr_lang::parser::Parser;
use expr_lang::printer::Printer;

fn build_ast(input: &str) -> Ast {
    let tokens = tokenize(input);
    let mut ast = Ast::new();
    let mut scope = GlobalScope::new();
    let mut parser = Parser::new(tokens);
    parser.parse(&mut ast, &mut scope).expect("the input should parse");
    ast
}

#[test]
fn printer_new_starts_empty() {
    let printer = Printer::new(4);
    assert_eq!(printer.indent, 4);
    assert_eq!(printer.output(), "");
}

#[test]
fn print_with_indent_renders_one_line() {
    let mut printer = Printer::new(2);
    printer.print_with_indent("node");
    assert_eq!(printer.output(), "  node\n");
}

#[test]
fn print_same_line_appends_without_break() {
    let mut printer = Printer::new(0);
    printer.print_same_line("a");
    printer.print_same_line("b");
    assert_eq!(printer.output(), "ab");
}

#[test]
fn visualize_mentions_the_nodes() {
    let ast = build_ast("1 + 2");
    let rendered = ast.visualize();
    assert!(rendered.contains("binary_expression_start"));
    assert!(rendered.contains("Operator: Plus"));
    assert!(rendered.contains("Number:"));
    assert!(rendered.contains("1"));
    assert!(rendered.contains("2"));
}

#[test]
fn visualize_renders_negative_numbers() {
    let ast = build_ast("(0 - 12) * 3");
    let rendered = ast.visualize();
    assert!(rendered.contains("12"));
    assert!(rendered.contains("Operator: Multiply"));
}

#[test]
fn visualize_let_statement() {
    let ast = build_ast("let total = 5");
    let rendered = ast.visualize();
    assert!(rendered.contains("Let_statement_start"));
    assert!(rendered.contains("total"));
}
