use expr_lang::arena::{ExprId, FunctionId, Id};
use expr_lang::ast::{Ast, BinOperatorKind, ExpressionKind, ItemKind};
use expr_lang::global_scope::GlobalScope;
use expr_lang::lexer::tokenize;
use expr_lang::parser::{Expected, ParseError, Parser};
use expr_lang::lexer::TokenKind;

fn parse_input(input: &str) -> (Ast, GlobalScope, Result<(), ParseError>) {
    let tokens = tokenize(input);
    let mut ast = Ast::new();
    let mut scope = GlobalScope::new();
    let mut parser = Parser::new(tokens);
    let r = parser.parse(&mut ast, &mut scope);
    (ast, scope, r)
}

#[test]
fn parse_single_number() {
    let (ast, _scope, r) = parse_input("42");
    assert!(r.is_ok());
    assert_eq!(ast.item_count(), 1);
    assert_eq!(ast.statement_count(), 1);
    assert_eq!(ast.expression_count(), 1);
    let expr = ast.query_expr(ExprId::new(0));
    match &expr.kind {
        ExpressionKind::Number(n) => assert_eq!(n.number, 42),
        other => panic!("expected a number node, got {:?}", other),
    }
}

#[test]
fn parse_precedence_plus_times() {
    // 1 + 2 * 3 parses as 1 + (2 * 3): the multiplication node is built
    // over the literals 2 and 3, and the addition over 1 and it.
    let (ast, _scope, r) = parse_input("1 + 2 * 3");
    assert!(r.is_ok());
    assert_eq!(ast.expression_count(), 5);
    match &ast.query_expr(ExprId::new(3)).kind {
        ExpressionKind::Binary(b) => {
            assert_eq!(b.operator.kind, BinOperatorKind::Multiply);
            assert_eq!(b.left.to_usize(), 1);
            assert_eq!(b.right.to_usize(), 2);
        },
        other => panic!("expected the multiplication node, got {:?}", other),
    }
    match &ast.query_expr(ExprId::new(4)).kind {
        ExpressionKind::Binary(b) => {
            assert_eq!(b.operator.kind, BinOperatorKind::Plus);
            assert_eq!(b.left.to_usize(), 0);
            assert_eq!(b.right.to_usize(), 3);
        },
        other => panic!("expected the addition node, got {:?}", other),
    }
}

#[test]
fn parse_precedence_times_plus() {
    // 1 * 2 + 3 parses as (1 * 2) + 3.
    let (ast, _scope, r) = parse_input("1 * 2 + 3");
    assert!(r.is_ok());
    assert_eq!(ast.expression_count(), 5);
    match &ast.query_expr(ExprId::new(2)).kind {
        ExpressionKind::Binary(b) => {
            assert_eq!(b.operator.kind, BinOperatorKind::Multiply);
            assert_eq!(b.left.to_usize(), 0);
            assert_eq!(b.right.to_usize(), 1);
        },
        other => panic!("expected the multiplication node, got {:?}", other),
    }
    match &ast.query_expr(ExprId::new(4)).kind {
        ExpressionKind::Binary(b) => {
            assert_eq!(b.operator.kind, BinOperatorKind::Plus);
            assert_eq!(b.left.to_usize(), 2);
            assert_eq!(b.right.to_usize(), 3);
        },
        other => panic!("expected the addition node, got {:?}", other),
    }
}

#[test]
fn parse_parenthesized_expression_node() {
    let (ast, _scope, r) = parse_input("(5)");
    assert!(r.is_ok());
    assert_eq!(ast.expression_count(), 2);
    match &ast.query_expr(ExprId::new(1)).kind {
        ExpressionKind::Parenthesized(p) => {
            assert_eq!(p.expr.to_usize(), 0);
            assert_eq!(p.open_paren.kind, TokenKind::OpenParen);
            assert_eq!(p.close_paren.kind, TokenKind::CloseParen);
        },
        other => panic!("expected a parenthesized node, got {:?}", other),
    }
}

#[test]
fn parse_binary_children_pushed_before_parent() {
    let (ast, _scope, r) = parse_input("1 + 2 * 3 - (4 / 5)");
    assert!(r.is_ok());
    for i in 0..ast.expression_count() {
        if let ExpressionKind::Binary(b) = &ast.query_expr(ExprId::new(i)).kind {
            assert!(b.left.to_usize() < i);
            assert!(b.right.to_usize() < i);
        }
    }
}

#[test]
fn parse_self_ids_match_positions() {
    let (ast, _scope, r) = parse_input("let a = 1 + 2 (3)");
    assert!(r.is_ok());
    for i in 0..ast.expression_count() {
        assert_eq!(ast.query_expr(ExprId::new(i)).id.to_usize(), i);
    }
    for i in 0..ast.item_count() {
        assert_eq!(ast.query_item(expr_lang::arena::ItemId::new(i)).id.to_usize(), i);
    }
}

#[test]
fn parse_error_missing_close_paren() {
    let (_ast, _scope, r) = parse_input("(1 + 2");
    let e = r.unwrap_err();
    assert_eq!(e.found.kind, TokenKind::Eof);
    assert!(matches!(e.expected, Expected::Token(TokenKind::CloseParen)));
}

#[test]
fn parse_error_primary_expected() {
    let (_ast, _scope, r) = parse_input("+ 3");
    let e = r.unwrap_err();
    assert_eq!(e.found.kind, TokenKind::Plus);
    assert!(matches!(e.expected, Expected::PrimaryExpression));
}

#[test]
fn parse_error_let_missing_equals() {
    let (_ast, _scope, r) = parse_input("let x 5");
    let e = r.unwrap_err();
    assert_eq!(e.found.kind, TokenKind::Number(5));
    assert!(matches!(e.expected, Expected::Token(TokenKind::Equals)));
}

#[test]
fn parse_error_bad_token() {
    let (_ast, _scope, r) = parse_input("1 + #");
    let e = r.unwrap_err();
    assert_eq!(e.found.kind, TokenKind::Bad);
    assert!(matches!(e.expected, Expected::PrimaryExpression));
}

#[test]
fn parse_function_declaration() {
    let (ast, _scope, r) = parse_input("function f(a, b, c) { let x = 1 }");
    assert!(r.is_ok());
    assert_eq!(ast.item_count(), 1);
    assert_eq!(ast.function_count(), 1);
    match ast.query_item(expr_lang::arena::ItemId::new(0)).kind {
        ItemKind::Function(fid) => assert_eq!(fid.to_usize(), 0),
        other => panic!("expected a function item, got {:?}", other),
    }
    let f = ast.query_function(FunctionId::new(0));
    assert_eq!(f.name, "f");
    assert_eq!(f.parameters.len(), 3);
    assert_eq!(f.parameters[0].identifier.span.literal, "a");
    assert_eq!(f.parameters[1].identifier.span.literal, "b");
    assert_eq!(f.parameters[2].identifier.span.literal, "c");
    assert_eq!(f.body.statements.len(), 1);
}

#[test]
fn parse_function_with_empty_parameter_list() {
    let (ast, _scope, r) = parse_input("function g() { }");
    assert!(r.is_ok());
    let f = ast.query_function(FunctionId::new(0));
    assert_eq!(f.name, "g");
    assert_eq!(f.parameters.len(), 0);
    assert_eq!(f.body.statements.len(), 0);
}

#[test]
fn parse_error_trailing_comma_in_parameters() {
    let (_ast, _scope, r) = parse_input("function f(a,) { }");
    let e = r.unwrap_err();
    assert_eq!(e.found.kind, TokenKind::CloseParen);
    assert!(matches!(e.expected, Expected::Token(TokenKind::Identifier)));
}

#[test]
fn parse_error_nested_function() {
    // A function declaration cannot stand inside a body: its keyword is
    // rejected where a statement's expression would begin.
    let (_ast, _scope, r) = parse_input("function f() { function g() { } }");
    let e = r.unwrap_err();
    assert_eq!(e.found.kind, TokenKind::Function);
    assert!(matches!(e.expected, Expected::PrimaryExpression));
}

#[test]
fn parse_error_unterminated_function_body() {
    let (_ast, _scope, r) = parse_input("function f() { let x = 1");
    let e = r.unwrap_err();
    assert_eq!(e.found.kind, TokenKind::Eof);
}

#[test]
fn parse_determinism() {
    let input = "let a = 1 + 2 * 3 (4 - 5)";
    let (ast1, scope1, r1) = parse_input(input);
    let (ast2, scope2, r2) = parse_input(input);
    assert_eq!(r1.is_ok(), r2.is_ok());
    assert_eq!(ast1.item_count(), ast2.item_count());
    assert_eq!(ast1.statement_count(), ast2.statement_count());
    assert_eq!(ast1.expression_count(), ast2.expression_count());
    assert_eq!(ast1.function_count(), ast2.function_count());
    let ev1 = ast1.evaluate();
    let ev2 = ast2.evaluate();
    assert_eq!(ev1.result, ev2.result);
    assert_eq!(ev1.value, ev2.value);
    let all1 = scope1.get_all_global_variables();
    let all2 = scope2.get_all_global_variables();
    assert_eq!(all1.is_some(), all2.is_some());
}

#[test]
fn parse_records_declaration_in_scope() {
    // The scope records, for a declared name, the literal of the token
    // that follows the initializer (an observability quirk kept as it
    // is): after `let a = 1` comes `let`, after `let b = 2` the empty
    // end-of-input literal.
    let (_ast, scope, r) = parse_input("let a = 1 let b = 2");
    assert!(r.is_ok());
    let a = scope.get_global_variable(String::from("a")).unwrap();
    assert_eq!(a.name, "a");
    assert_eq!(a.value, "let");
    let b = scope.get_global_variable(String::from("b")).unwrap();
    assert_eq!(b.value, "");
    assert!(scope.get_global_variable(String::from("c")).is_none());
}
