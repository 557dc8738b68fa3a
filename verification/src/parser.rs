//! The parser: consumes the whitespace-free token stream and builds items
//! into the tree, climbing operator precedence for binary expressions.
//!
//! The grammar:
//!
//! ```text
//! program     := item* EOF
//! item        := let_stmt | function_decl | expr_stmt
//! let_stmt    := 'let' IDENT '=' expr
//! function_decl := 'function' IDENT '(' params? ')' '{' stmt* '}'
//! params      := IDENT (',' IDENT)*
//! expr_stmt   := expr
//! expr        := binary(0)
//! primary     := NUMBER | '(' expr ')'
//! ```
//!
//! Function bodies hold `let` and expression statements; a nested
//! `function` declaration is rejected where its body's statement would
//! begin.
//!
//! Every parsing method is specified against a spec-level parser over the
//! token sequence (`spec_parse_items` and friends), so what the parser
//! builds — tree, recorded declarations, or error — is a function of the
//! token sequence alone.
//!
//! The spec-level parsers guard each recursive step with a cursor-progress
//! test, which is what makes them well defined; a run that failed to
//! advance would land in a stopped branch. The parsing methods prove that
//! they always advance, so their contracts never pick those branches out.

use crate::arena::{ExprId, FunctionId, Id, ItemId, StmtId};
use crate::ast::{
    Ast, BinOperator, BinOperatorAssiciativity, BinOperatorKind, BinaryExpr, Body, Expression,
    ExpressionKind, Function, Item, ItemKind, LetStatement, NumberExpr, Parameter,
    ParenthesizedExpr, Statement, StatementKind, precedence_of,
};
use crate::global_scope::{GlobalScope, Variable, contains_name};
use crate::lexer::{Token, TokenKind};
use vstd::prelude::*;

verus! {

/// What the parser expected at the token it could not accept.
#[derive(Debug)]
pub enum Expected {
    /// One specific token kind.
    Token(TokenKind),
    /// A primary expression: a number, or an opening parenthesis.
    PrimaryExpression,
}

/// A parse error: the offending token, and what was expected instead.
#[derive(Debug)]
pub struct ParseError {
    pub found: Token,
    pub expected: Expected,
}

/// The abstract contents of a function node: as `Function`, with the
/// vectors read as sequences.
pub struct FunctionModel {
    pub name: String,
    pub open_paren: Token,
    pub parameters: Seq<Parameter>,
    pub close_paren: Token,
    pub body: BodyModel,
}

/// The abstract contents of a function body.
pub struct BodyModel {
    pub open_brace: Token,
    pub statements: Seq<StmtId>,
    pub close_brace: Token,
}

/// The abstract contents of a `Function` node.
pub open spec fn model_of_function(f: Function) -> FunctionModel {
    FunctionModel {
        name: f.name,
        open_paren: f.open_paren,
        parameters: f.parameters@,
        close_paren: f.close_paren,
        body: BodyModel {
            open_brace: f.body.open_brace,
            statements: f.body.statements@,
            close_brace: f.body.close_brace,
        },
    }
}

/// Everything the parser builds: the four arenas and the recorded
/// declarations.
pub struct ParseState {
    pub items: Seq<Item>,
    pub statements: Seq<Statement>,
    pub expressions: Seq<Expression>,
    pub functions: Seq<FunctionModel>,
    pub scope: Seq<Variable>,
}

/// The parser-visible state of a tree and a scope.
pub open spec fn parse_state(ast: Ast, scope: GlobalScope) -> ParseState {
    ParseState {
        items: ast.items_seq(),
        statements: ast.statements_seq(),
        expressions: ast.expressions_seq(),
        functions: ast.functions_seq().map_values(|f: Function| model_of_function(f)),
        scope: scope.vars(),
    }
}

/// The outcome of a spec-level parsing step: the state and position it
/// ended at with the value it built, or the state it had reached when it
/// stopped on an error.
pub enum Parsed<A> {
    Accept { state: ParseState, pos: int, val: A },
    Reject { state: ParseState, err: ParseError },
}

/// The state with one more expression node.
pub open spec fn st_with_expr(st: ParseState, ex: Expression) -> ParseState {
    ParseState { expressions: st.expressions.push(ex), ..st }
}

/// The handle the next expression node will get.
pub open spec fn next_expr_id(st: ParseState) -> ExprId {
    ExprId(st.expressions.len() as usize)
}

/// Whether the token at `p` is a binary operator binding at least as
/// tight as `min_prec` — the condition under which the precedence climb
/// takes at least one operator.
pub open spec fn climbs_at(t: Seq<Token>, p: int, min_prec: u8) -> bool {
    match binop_kind_of(t[p].kind) {
        Some(k) => precedence_of(k) >= min_prec,
        None => false,
    }
}

/// The binary operator a token stands for, if any.
pub open spec fn binop_kind_of(k: TokenKind) -> Option<BinOperatorKind> {
    match k {
        TokenKind::Plus => Some(BinOperatorKind::Plus),
        TokenKind::Minus => Some(BinOperatorKind::Minus),
        TokenKind::Asterisk => Some(BinOperatorKind::Multiply),
        TokenKind::Slash => Some(BinOperatorKind::Divide),
        _ => None,
    }
}

/// Where the cursor stands after consuming the token at `p`: one step
/// further, except that `Eof` is never consumed.
pub open spec fn advance_from(t: Seq<Token>, p: int) -> int {
    if t[p].kind == TokenKind::Eof {
        p
    } else {
        p + 1
    }
}

/// Checking the token at `p` against an expected kind: the token and the
/// position after it on a match, the error otherwise.
pub open spec fn spec_consume_and_verify(t: Seq<Token>, p: int, kind: TokenKind) -> Result<
    (Token, int),
    ParseError,
> {
    if t[p].kind == kind {
        Ok((t[p], advance_from(t, p)))
    } else {
        Err(ParseError { found: t[p], expected: Expected::Token(kind) })
    }
}

/// The spec-level primary parser: a number literal, or a parenthesised
/// expression.
pub open spec fn spec_parse_primary(t: Seq<Token>, p: int, st: ParseState) -> Parsed<ExprId>
    decreases t.len() - p, 0int,
{
    if !(0 <= p < t.len()) {
        Parsed::Reject { state: st, err: ParseError { found: t[p], expected: Expected::PrimaryExpression } }
    } else {
        let tok = t[p];
        match tok.kind {
            TokenKind::Number(n) => {
                let ex = Expression {
                    kind: ExpressionKind::Number(NumberExpr { number: n, token: tok }),
                    id: next_expr_id(st),
                };
                Parsed::Accept { state: st_with_expr(st, ex), pos: p + 1, val: ex.id }
            },
            TokenKind::OpenParen => {
                match spec_parse_expression(t, p + 1, st) {
                    Parsed::Reject { state, err } => Parsed::Reject { state, err },
                    Parsed::Accept { state: st1, pos: p2, val: inner } => {
                        match spec_consume_and_verify(t, p2, TokenKind::CloseParen) {
                            Err(e) => Parsed::Reject { state: st1, err: e },
                            Ok((close_tok, p3)) => {
                                let ex = Expression {
                                    kind: ExpressionKind::Parenthesized(
                                        ParenthesizedExpr {
                                            open_paren: tok,
                                            expr: inner,
                                            close_paren: close_tok,
                                        },
                                    ),
                                    id: next_expr_id(st1),
                                };
                                Parsed::Accept { state: st_with_expr(st1, ex), pos: p3, val: ex.id }
                            },
                        }
                    },
                }
            },
            _ => Parsed::Reject {
                state: st,
                err: ParseError { found: tok, expected: Expected::PrimaryExpression },
            },
        }
    }
}

/// The spec-level precedence-climbing loop: while the token at the cursor
/// is an operator binding at least as tight as `min_prec`, take it, parse
/// the right operand (extended by any tighter-binding operators), and fold
/// into a binary node on the left.
pub open spec fn spec_parse_bin_outer(
    t: Seq<Token>,
    p: int,
    st: ParseState,
    left: ExprId,
    min_prec: u8,
) -> Parsed<ExprId>
    decreases t.len() - p, 1int,
{
    if !(0 <= p < t.len()) {
        Parsed::Accept { state: st, pos: p, val: left }
    } else {
        match binop_kind_of(t[p].kind) {
            None => Parsed::Accept { state: st, pos: p, val: left },
            Some(k) => {
                if precedence_of(k) < min_prec {
                    Parsed::Accept { state: st, pos: p, val: left }
                } else {
                    let op_tok = t[p];
                    match spec_parse_primary(t, p + 1, st) {
                        Parsed::Reject { state, err } => Parsed::Reject { state, err },
                        Parsed::Accept { state: st1, pos: p2, val: right0 } => {
                            if !(p + 1 < p2 <= t.len()) {
                                Parsed::Accept { state: st1, pos: p2, val: left }
                            } else {
                                match spec_parse_bin_inner(t, p2, st1, right0, precedence_of(k)) {
                                    Parsed::Reject { state, err } => Parsed::Reject { state, err },
                                    Parsed::Accept { state: st2, pos: p3, val: right } => {
                                        if !(p2 <= p3 <= t.len()) {
                                            Parsed::Accept { state: st2, pos: p3, val: left }
                                        } else {
                                            let ex = Expression {
                                                kind: ExpressionKind::Binary(
                                                    BinaryExpr {
                                                        left,
                                                        operator: BinOperator {
                                                            kind: k,
                                                            token: op_tok,
                                                        },
                                                        right,
                                                    },
                                                ),
                                                id: next_expr_id(st2),
                                            };
                                            spec_parse_bin_outer(
                                                t,
                                                p3,
                                                st_with_expr(st2, ex),
                                                ex.id,
                                                min_prec,
                                            )
                                        }
                                    },
                                }
                            }
                        },
                    }
                }
            },
        }
    }
}

/// The spec-level inner climb: while the token at the cursor is an
/// operator binding strictly tighter than the one just taken, extend the
/// right operand by climbing at that higher threshold. (A right-associative
/// operator would extend at equal precedence too; all four operators here
/// group to the left.)
pub open spec fn spec_parse_bin_inner(
    t: Seq<Token>,
    p: int,
    st: ParseState,
    right: ExprId,
    op_prec: u8,
) -> Parsed<ExprId>
    decreases t.len() - p, 2int,
{
    if !(0 <= p < t.len()) {
        Parsed::Accept { state: st, pos: p, val: right }
    } else {
        match binop_kind_of(t[p].kind) {
            None => Parsed::Accept { state: st, pos: p, val: right },
            Some(inner_k) => {
                if !(precedence_of(inner_k) > op_prec) {
                    Parsed::Accept { state: st, pos: p, val: right }
                } else {
                    match spec_parse_bin_outer(t, p, st, right, precedence_of(inner_k)) {
                        Parsed::Reject { state, err } => Parsed::Reject { state, err },
                        Parsed::Accept { state: st1, pos: p1, val: right1 } => {
                            if !(p < p1 <= t.len()) {
                                Parsed::Accept { state: st1, pos: p1, val: right1 }
                            } else {
                                spec_parse_bin_inner(t, p1, st1, right1, op_prec)
                            }
                        },
                    }
                }
            },
        }
    }
}

/// The spec-level binary-expression parser: a primary, then the
/// precedence climb from threshold zero.
pub open spec fn spec_parse_binary_expression(t: Seq<Token>, p: int, st: ParseState) -> Parsed<
    ExprId,
>
    decreases t.len() - p, 3int,
{
    match spec_parse_primary(t, p, st) {
        Parsed::Reject { state, err } => Parsed::Reject { state, err },
        Parsed::Accept { state: st1, pos: p1, val: left } => {
            if !(p < p1 <= t.len()) {
                Parsed::Accept { state: st1, pos: p1, val: left }
            } else {
                spec_parse_bin_outer(t, p1, st1, left, 0)
            }
        },
    }
}

/// The spec-level expression parser.
pub open spec fn spec_parse_expression(t: Seq<Token>, p: int, st: ParseState) -> Parsed<ExprId>
    decreases t.len() - p, 4int,
{
    spec_parse_binary_expression(t, p, st)
}

/// The spec-level `let` statement parser: `let IDENT '=' expr`. After the
/// initializer, the literal of the token then at the cursor is recorded in
/// the scope under the declared name — unless the name was recorded
/// before, in which case the scope is left as it is.
pub open spec fn spec_parse_let_statement(t: Seq<Token>, p: int, st: ParseState) -> Parsed<StmtId>
    decreases t.len() - p, 5int,
{
    match spec_consume_and_verify(t, p, TokenKind::Let) {
        Err(e) => Parsed::Reject { state: st, err: e },
        Ok((_let_tok, p1)) => {
            match spec_consume_and_verify(t, p1, TokenKind::Identifier) {
                Err(e) => Parsed::Reject { state: st, err: e },
                Ok((ident, p2)) => {
                    match spec_consume_and_verify(t, p2, TokenKind::Equals) {
                        Err(e) => Parsed::Reject { state: st, err: e },
                        Ok((_eq_tok, p3)) => {
                            if !(p < p3 <= t.len()) {
                                Parsed::Reject {
                                    state: st,
                                    err: ParseError {
                                        found: t[p],
                                        expected: Expected::Token(TokenKind::Let),
                                    },
                                }
                            } else {
                                match spec_parse_expression(t, p3, st) {
                                    Parsed::Reject { state, err } => Parsed::Reject { state, err },
                                    Parsed::Accept { state: st1, pos: p4, val: expr_id } => {
                                        let scope1 = if contains_name(
                                            st1.scope,
                                            ident.span.literal@,
                                        ) {
                                            st1.scope
                                        } else {
                                            st1.scope.push(
                                                Variable {
                                                    name: ident.span.literal,
                                                    value: t[p4].span.literal,
                                                },
                                            )
                                        };
                                        let stmt = Statement {
                                            id: StmtId(st1.statements.len() as usize),
                                            stmt_kind: StatementKind::Let(
                                                LetStatement {
                                                    identifier: ident,
                                                    initializer: expr_id,
                                                },
                                            ),
                                        };
                                        Parsed::Accept {
                                            state: ParseState {
                                                statements: st1.statements.push(stmt),
                                                scope: scope1,
                                                ..st1
                                            },
                                            pos: p4,
                                            val: stmt.id,
                                        }
                                    },
                                }
                            }
                        },
                    }
                },
            }
        },
    }
}

/// The spec-level statement parser, used at the top level and inside
/// function bodies: a `let` statement, or an expression statement. (A
/// `function` token here fails as a primary expression would.)
pub open spec fn spec_parse_statement(t: Seq<Token>, p: int, st: ParseState) -> Parsed<StmtId>
    decreases t.len() - p, 6int,
{
    if !(0 <= p < t.len()) {
        Parsed::Reject { state: st, err: ParseError { found: t[p], expected: Expected::PrimaryExpression } }
    } else if t[p].kind == TokenKind::Let {
        spec_parse_let_statement(t, p, st)
    } else {
        match spec_parse_expression(t, p, st) {
            Parsed::Reject { state, err } => Parsed::Reject { state, err },
            Parsed::Accept { state: st1, pos: p1, val: expr_id } => {
                let stmt = Statement {
                    id: StmtId(st1.statements.len() as usize),
                    stmt_kind: StatementKind::Expression(expr_id),
                };
                Parsed::Accept {
                    state: ParseState { statements: st1.statements.push(stmt), ..st1 },
                    pos: p1,
                    val: stmt.id,
                }
            },
        }
    }
}

/// The spec-level parameter list parser, after the first parameter:
/// `(',' IDENT)*`.
pub open spec fn spec_parse_params_rest(t: Seq<Token>, p: int, acc: Seq<Parameter>) -> Result<
    (Seq<Parameter>, int),
    ParseError,
>
    decreases t.len() - p, 0int,
{
    if !(0 <= p < t.len()) {
        Ok((acc, p))
    } else if t[p].kind == TokenKind::Comma {
        match spec_consume_and_verify(t, p + 1, TokenKind::Identifier) {
            Err(e) => Err(e),
            Ok((tok, p2)) => {
                if !(p < p2 <= t.len()) {
                    Ok((acc, p))
                } else {
                    spec_parse_params_rest(t, p2, acc.push(Parameter { identifier: tok }))
                }
            },
        }
    } else {
        Ok((acc, p))
    }
}

/// The spec-level parameter list parser: `IDENT (',' IDENT)*`, or empty.
pub open spec fn spec_parse_function_parameters(t: Seq<Token>, p: int) -> Result<
    (Seq<Parameter>, int),
    ParseError,
> {
    if t[p].kind == TokenKind::CloseParen {
        Ok((Seq::empty(), p))
    } else {
        match spec_consume_and_verify(t, p, TokenKind::Identifier) {
            Err(e) => Err(e),
            Ok((tok, p1)) => spec_parse_params_rest(t, p1, seq![Parameter { identifier: tok }]),
        }
    }
}

/// The spec-level function body parser: statements until the closing
/// brace.
pub open spec fn spec_parse_function_body(
    t: Seq<Token>,
    p: int,
    st: ParseState,
    acc: Seq<StmtId>,
) -> Parsed<Seq<StmtId>>
    decreases t.len() - p, 7int,
{
    if !(0 <= p < t.len()) {
        Parsed::Accept { state: st, pos: p, val: acc }
    } else if t[p].kind == TokenKind::CloseBrace {
        Parsed::Accept { state: st, pos: p, val: acc }
    } else {
        match spec_parse_statement(t, p, st) {
            Parsed::Reject { state, err } => Parsed::Reject { state, err },
            Parsed::Accept { state: st1, pos: p1, val: sid } => {
                if !(p < p1 <= t.len()) {
                    Parsed::Accept { state: st1, pos: p1, val: acc }
                } else {
                    spec_parse_function_body(t, p1, st1, acc.push(sid))
                }
            },
        }
    }
}

/// The spec-level function declaration parser:
/// `'function' IDENT '(' params? ')' '{' stmt* '}'`.
pub open spec fn spec_parse_function(t: Seq<Token>, p: int, st: ParseState) -> Parsed<FunctionId>
    decreases t.len() - p, 8int,
{
    match spec_consume_and_verify(t, p, TokenKind::Function) {
        Err(e) => Parsed::Reject { state: st, err: e },
        Ok((_fn_tok, p1)) => match spec_consume_and_verify(t, p1, TokenKind::Identifier) {
            Err(e) => Parsed::Reject { state: st, err: e },
            Ok((name_tok, p2)) => match spec_consume_and_verify(t, p2, TokenKind::OpenParen) {
                Err(e) => Parsed::Reject { state: st, err: e },
                Ok((open_paren, p3)) => {
                    if !(p < p3 <= t.len()) {
                        Parsed::Reject {
                            state: st,
                            err: ParseError {
                                found: t[p],
                                expected: Expected::Token(TokenKind::Function),
                            },
                        }
                    } else {
                        match spec_parse_function_parameters(t, p3) {
                            Err(e) => Parsed::Reject { state: st, err: e },
                            Ok((params, p4)) => match spec_consume_and_verify(
                                t,
                                p4,
                                TokenKind::CloseParen,
                            ) {
                                Err(e) => Parsed::Reject { state: st, err: e },
                                Ok((close_paren, p5)) => match spec_consume_and_verify(
                                    t,
                                    p5,
                                    TokenKind::OpenBrace,
                                ) {
                                    Err(e) => Parsed::Reject { state: st, err: e },
                                    Ok((open_brace, p6)) => {
                                        if !(p < p6 <= t.len()) {
                                            Parsed::Reject {
                                                state: st,
                                                err: ParseError {
                                                    found: t[p],
                                                    expected: Expected::Token(TokenKind::Function),
                                                },
                                            }
                                        } else {
                                            match spec_parse_function_body(
                                                t,
                                                p6,
                                                st,
                                                Seq::empty(),
                                            ) {
                                                Parsed::Reject { state, err } => Parsed::Reject {
                                                    state,
                                                    err,
                                                },
                                                Parsed::Accept { state: st1, pos: p7, val: stmts } => {
                                                    match spec_consume_and_verify(
                                                        t,
                                                        p7,
                                                        TokenKind::CloseBrace,
                                                    ) {
                                                        Err(e) => Parsed::Reject {
                                                            state: st1,
                                                            err: e,
                                                        },
                                                        Ok((close_brace, p8)) => {
                                                            let f = FunctionModel {
                                                                name: name_tok.span.literal,
                                                                open_paren: open_paren,
                                                                parameters: params,
                                                                close_paren: close_paren,
                                                                body: BodyModel {
                                                                    open_brace: open_brace,
                                                                    statements: stmts,
                                                                    close_brace: close_brace,
                                                                },
                                                            };
                                                            let fid = FunctionId(
                                                                st1.functions.len() as usize,
                                                            );
                                                            Parsed::Accept {
                                                                state: ParseState {
                                                                    functions: st1.functions.push(
                                                                        f,
                                                                    ),
                                                                    ..st1
                                                                },
                                                                pos: p8,
                                                                val: fid,
                                                            }
                                                        },
                                                    }
                                                },
                                            }
                                        }
                                    },
                                },
                            },
                        }
                    }
                },
            },
        },
    }
}

/// The state with one more top-level item.
pub open spec fn st_with_item(st: ParseState, kind: ItemKind) -> ParseState {
    ParseState {
        items: st.items.push(Item { kind: kind, id: ItemId(st.items.len() as usize) }),
        ..st
    }
}

/// The spec-level top level: items until `Eof`. Each iteration parses a
/// function declaration or a statement and appends it as an item.
pub open spec fn spec_parse_items(t: Seq<Token>, p: int, st: ParseState) -> Parsed<()>
    decreases t.len() - p, 9int,
{
    if !(0 <= p < t.len()) {
        Parsed::Accept { state: st, pos: p, val: () }
    } else if t[p].kind == TokenKind::Eof {
        Parsed::Accept { state: st, pos: p, val: () }
    } else if t[p].kind == TokenKind::Function {
        match spec_parse_function(t, p, st) {
            Parsed::Reject { state, err } => Parsed::Reject { state, err },
            Parsed::Accept { state: st1, pos: p1, val: fid } => {
                if !(p < p1 <= t.len()) {
                    Parsed::Accept { state: st1, pos: p1, val: () }
                } else {
                    spec_parse_items(t, p1, st_with_item(st1, ItemKind::Function(fid)))
                }
            },
        }
    } else {
        match spec_parse_statement(t, p, st) {
            Parsed::Reject { state, err } => Parsed::Reject { state, err },
            Parsed::Accept { state: st1, pos: p1, val: sid } => {
                if !(p < p1 <= t.len()) {
                    Parsed::Accept { state: st1, pos: p1, val: () }
                } else {
                    spec_parse_items(t, p1, st_with_item(st1, ItemKind::Statement(sid)))
                }
            },
        }
    }
}

/// The tokens that reach the parser: the stream with its whitespace
/// tokens removed.
pub open spec fn filter_whitespace(s: Seq<Token>) -> Seq<Token>
    decreases s.len(),
{
    if s.len() == 0 {
        Seq::empty()
    } else if s[0].kind == TokenKind::Whitespace {
        filter_whitespace(s.drop_first())
    } else {
        seq![s[0]] + filter_whitespace(s.drop_first())
    }
}

/// The parser: the whitespace-free token stream and a cursor into it. The
/// cursor never moves past the final `Eof` token.
pub struct Parser {
    tokens: Vec<Token>,
    current: usize,
}

impl Parser {
    /// The token stream being parsed.
    pub closed spec fn toks(&self) -> Seq<Token> {
        self.tokens@
    }

    /// The cursor: the position of the token considered next.
    pub closed spec fn pos(&self) -> int {
        self.current as int
    }

    /// The streams the parser accepts: the one `Eof` token stands at the
    /// end and nowhere else, and whitespace has been filtered out.
    pub open spec fn tokens_wf(&self) -> bool {
        &&& self.toks().len() >= 1
        &&& self.toks().last().kind == TokenKind::Eof
        &&& forall|i: int|
            0 <= i < self.toks().len() - 1 ==> (#[trigger] self.toks()[i]).kind != TokenKind::Eof
        &&& forall|i: int|
            0 <= i < self.toks().len() ==> (#[trigger] self.toks()[i]).kind
                != TokenKind::Whitespace
    }

    /// The stream is acceptable and the cursor stands on a token.
    pub open spec fn wf(&self) -> bool {
        self.tokens_wf() && 0 <= self.pos() < self.toks().len()
    }

    /// Takes the token stream as the lexer made it — one `Eof`, at the
    /// end — and keeps everything but the whitespace tokens.
    pub fn new(tokens: Vec<Token>) -> (r: Parser)
        requires
            tokens@.len() >= 1,
            tokens@.last().kind == TokenKind::Eof,
            forall|i: int| 0 <= i < tokens@.len() - 1 ==> (#[trigger] tokens@[i]).kind != TokenKind::Eof,
        ensures
            r.toks() == filter_whitespace(tokens@),
            r.pos() == 0,
            r.wf(),
    {
        let ghost s = tokens@;
        let mut filtered: Vec<Token> = Vec::new();
        let n: usize = tokens.len();
        let mut i: usize = 0;
        proof {
            assert(s.skip(0) =~= s);
        }
        while i < n
            invariant
                0 <= i <= n,
                n == s.len(),
                tokens@ == s,
                filter_whitespace(s) == filtered@ + filter_whitespace(s.skip(i as int)),
            decreases n - i,
        {
            let ghost pre = filtered@;
            let keep = !matches!(tokens[i].kind, TokenKind::Whitespace);
            if keep {
                filtered.push(tokens[i].duplicate());
            }
            proof {
                let ii = i as int;
                let sk = s.skip(ii);
                assert(sk.len() > 0 && sk[0] == s[ii]);
                assert(sk.drop_first() =~= s.skip(ii + 1));
                if s[ii].kind == TokenKind::Whitespace {
                    assert(filter_whitespace(sk) == filter_whitespace(s.skip(ii + 1)));
                } else {
                    assert(filter_whitespace(sk) == seq![s[ii]] + filter_whitespace(s.skip(ii + 1)));
                    assert(pre + (seq![s[ii]] + filter_whitespace(s.skip(ii + 1))) =~= filtered@
                        + filter_whitespace(s.skip(ii + 1)));
                }
            }
            i = i + 1;
        }
        proof {
            assert(s.skip(n as int) =~= Seq::<Token>::empty());
            assert(filtered@ =~= filter_whitespace(s));
            lemma_filter_whitespace_wf(s);
        }
        Parser { tokens: filtered, current: 0 }
    }

    /// The token at the cursor.
    fn current_token(&self) -> (r: &Token)
        requires
            self.wf(),
        ensures
            *r == self.toks()[self.pos()],
    {
        self.peek(0)
    }

    /// The token `offset` places past the cursor.
    fn peek(&self, offset: usize) -> (r: &Token)
        requires
            self.wf(),
            self.pos() + offset < self.toks().len(),
        ensures
            *r == self.toks()[self.pos() + offset],
    {
        let n: usize = self.tokens.len();
        assert(self.current + offset < n);
        &self.tokens[self.current + offset]
    }

    /// Whether the cursor has reached the final `Eof` token.
    fn is_at_end(&self) -> (r: bool)
        requires
            self.wf(),
        ensures
            r == (self.toks()[self.pos()].kind == TokenKind::Eof),
    {
        matches!(self.current_token().kind, TokenKind::Eof)
    }

    /// Hands out a copy of the token at the cursor, advancing past it —
    /// except that the cursor never moves past `Eof`.
    fn consume(&mut self) -> (t: Token)
        requires
            old(self).wf(),
        ensures
            final(self).wf(),
            final(self).toks() == old(self).toks(),
            t == old(self).toks()[old(self).pos()],
            final(self).pos() == advance_from(old(self).toks(), old(self).pos()),
    {
        let tok = self.tokens[self.current].duplicate();
        let is_eof = matches!(tok.kind, TokenKind::Eof);
        if !is_eof {
            let n: usize = self.tokens.len();
            assert(self.current < n - 1);
            self.current = self.current + 1;
        }
        tok
    }

    /// Checks the token at the cursor against the expected kind: hands it
    /// out and advances on a match, and reports a parse error otherwise.
    fn consume_and_verify_token(&mut self, token_kind: TokenKind) -> (r: Result<Token, ParseError>)
        requires
            old(self).wf(),
        ensures
            final(self).wf(),
            final(self).toks() == old(self).toks(),
            (match spec_consume_and_verify(old(self).toks(), old(self).pos(), token_kind) {
                Ok(tp) => r matches Ok(tok) && tok == tp.0 && final(self).pos() == tp.1,
                Err(e) => r matches Err(e2) && e2 == e && final(self).pos() == old(self).pos(),
            }),
    {
        let matches_kind = self.current_token().kind == token_kind;
        if !matches_kind {
            let found = self.tokens[self.current].duplicate();
            return Err(ParseError { found, expected: Expected::Token(token_kind) });
        }
        let tok = self.consume();
        Ok(tok)
    }

    /// Parses a primary expression at the cursor: a number literal, or a
    /// parenthesised expression, appended to the tree.
    pub fn parse_primary(&mut self, ast: &mut Ast, scope: &mut GlobalScope) -> (r: Result<
        ExprId,
        ParseError,
    >)
        requires
            old(self).wf(),
            old(ast).wf(),
            old(scope).wf(),
        ensures
            final(self).wf(),
            final(ast).wf(),
            final(scope).wf(),
            final(self).toks() == old(self).toks(),
            old(self).pos() <= final(self).pos(),
            old(ast).expressions_seq().len() <= final(ast).expressions_seq().len(),
            old(ast).statements_seq().len() <= final(ast).statements_seq().len(),
            (match r {
                Ok(e) => spec_parse_primary(
                    old(self).toks(),
                    old(self).pos(),
                    parse_state(*old(ast), *old(scope)),
                ) == (Parsed::Accept {
                    state: parse_state(*final(ast), *final(scope)),
                    pos: final(self).pos(),
                    val: e,
                }) && old(self).pos() < final(self).pos()
                    && 0 <= e.idx() < final(ast).expressions_seq().len(),
                Err(e) => spec_parse_primary(
                    old(self).toks(),
                    old(self).pos(),
                    parse_state(*old(ast), *old(scope)),
                ) == (Parsed::<ExprId>::Reject {
                    state: parse_state(*final(ast), *final(scope)),
                    err: e,
                }),
            }),
        decreases self.toks().len() - self.pos(), 0int,
    {
        let ghost t = self.toks();
        let ghost p = self.pos();
        let ghost st0 = parse_state(*ast, *scope);
        let current_token = self.consume();
        match current_token.kind {
            TokenKind::Number(number) => {
                let expr = ast.save_number_expression(current_token, number);
                let eid = expr.id;
                Ok(eid)
            },
            TokenKind::OpenParen => {
                let inner = match self.parse_expression(ast, scope) {
                    Ok(e) => e,
                    Err(e) => {
                        return Err(e);
                    },
                };
                let close = match self.consume_and_verify_token(TokenKind::CloseParen) {
                    Ok(tk) => tk,
                    Err(e) => {
                        return Err(e);
                    },
                };
                let expr = ast.save_parenthesized_expression(inner, current_token, close);
                let eid = expr.id;
                Ok(eid)
            },
            _ => Err(ParseError { found: current_token, expected: Expected::PrimaryExpression }),
        }
    }

    /// Parses an expression at the cursor.
    pub fn parse_expression(&mut self, ast: &mut Ast, scope: &mut GlobalScope) -> (r: Result<
        ExprId,
        ParseError,
    >)
        requires
            old(self).wf(),
            old(ast).wf(),
            old(scope).wf(),
        ensures
            final(self).wf(),
            final(ast).wf(),
            final(scope).wf(),
            final(self).toks() == old(self).toks(),
            old(self).pos() <= final(self).pos(),
            old(ast).expressions_seq().len() <= final(ast).expressions_seq().len(),
            old(ast).statements_seq().len() <= final(ast).statements_seq().len(),
            (match r {
                Ok(e) => spec_parse_expression(
                    old(self).toks(),
                    old(self).pos(),
                    parse_state(*old(ast), *old(scope)),
                ) == (Parsed::Accept {
                    state: parse_state(*final(ast), *final(scope)),
                    pos: final(self).pos(),
                    val: e,
                }) && old(self).pos() < final(self).pos()
                    && 0 <= e.idx() < final(ast).expressions_seq().len(),
                Err(e) => spec_parse_expression(
                    old(self).toks(),
                    old(self).pos(),
                    parse_state(*old(ast), *old(scope)),
                ) == (Parsed::<ExprId>::Reject {
                    state: parse_state(*final(ast), *final(scope)),
                    err: e,
                }),
            }),
        decreases self.toks().len() - self.pos(), 4int,
    {
        self.parse_binary_expression(ast, scope)
    }

    /// Parses a binary expression: a primary, then the precedence climb
    /// from threshold zero.
    pub fn parse_binary_expression(&mut self, ast: &mut Ast, scope: &mut GlobalScope) -> (r: Result<
        ExprId,
        ParseError,
    >)
        requires
            old(self).wf(),
            old(ast).wf(),
            old(scope).wf(),
        ensures
            final(self).wf(),
            final(ast).wf(),
            final(scope).wf(),
            final(self).toks() == old(self).toks(),
            old(self).pos() <= final(self).pos(),
            old(ast).expressions_seq().len() <= final(ast).expressions_seq().len(),
            old(ast).statements_seq().len() <= final(ast).statements_seq().len(),
            (match r {
                Ok(e) => spec_parse_binary_expression(
                    old(self).toks(),
                    old(self).pos(),
                    parse_state(*old(ast), *old(scope)),
                ) == (Parsed::Accept {
                    state: parse_state(*final(ast), *final(scope)),
                    pos: final(self).pos(),
                    val: e,
                }) && old(self).pos() < final(self).pos()
                    && 0 <= e.idx() < final(ast).expressions_seq().len(),
                Err(e) => spec_parse_binary_expression(
                    old(self).toks(),
                    old(self).pos(),
                    parse_state(*old(ast), *old(scope)),
                ) == (Parsed::<ExprId>::Reject {
                    state: parse_state(*final(ast), *final(scope)),
                    err: e,
                }),
            }),
        decreases self.toks().len() - self.pos(), 3int,
    {
        let left = match self.parse_primary(ast, scope) {
            Ok(e) => e,
            Err(e) => {
                return Err(e);
            },
        };
        self.parse_binary_expression_recursive(ast, scope, left, 0)
    }

    /// The precedence climb: while the cursor stands on an operator binding
    /// at least as tight as `precedence`, take it, parse its right operand
    /// (extended by any tighter-binding operators), and fold the two sides
    /// into a binary node.
    #[verifier::loop_isolation(false)]
    pub fn parse_binary_expression_recursive(
        &mut self,
        ast: &mut Ast,
        scope: &mut GlobalScope,
        left: ExprId,
        precedence: u8,
    ) -> (r: Result<ExprId, ParseError>)
        requires
            old(self).wf(),
            old(ast).wf(),
            old(scope).wf(),
            0 <= left.idx() < old(ast).expressions_seq().len(),
        ensures
            final(self).wf(),
            final(ast).wf(),
            final(scope).wf(),
            final(self).toks() == old(self).toks(),
            old(self).pos() <= final(self).pos(),
            old(ast).expressions_seq().len() <= final(ast).expressions_seq().len(),
            old(ast).statements_seq().len() <= final(ast).statements_seq().len(),
            r is Ok && climbs_at(old(self).toks(), old(self).pos(), precedence) ==> old(self).pos()
                < final(self).pos(),
            (match r {
                Ok(e) => spec_parse_bin_outer(
                    old(self).toks(),
                    old(self).pos(),
                    parse_state(*old(ast), *old(scope)),
                    left,
                    precedence,
                ) == (Parsed::Accept {
                    state: parse_state(*final(ast), *final(scope)),
                    pos: final(self).pos(),
                    val: e,
                }) && 0 <= e.idx() < final(ast).expressions_seq().len(),
                Err(e) => spec_parse_bin_outer(
                    old(self).toks(),
                    old(self).pos(),
                    parse_state(*old(ast), *old(scope)),
                    left,
                    precedence,
                ) == (Parsed::<ExprId>::Reject {
                    state: parse_state(*final(ast), *final(scope)),
                    err: e,
                }),
            }),
        decreases self.toks().len() - self.pos(), 1int,
    {
        let ghost t = self.toks();
        let ghost p0 = self.pos();
        let ghost st_entry = parse_state(*ast, *scope);
        let mut cur_left = left;
        let ghost goal = spec_parse_bin_outer(t, p0, st_entry, left, precedence);
        let mut done = false;
        while !done
            invariant
                self.wf(),
                ast.wf(),
                scope.wf(),
                self.toks() == t,
                p0 <= self.pos(),
                self.pos() == p0 || p0 + 2 <= self.pos(),
                done && climbs_at(t, p0, precedence) ==> p0 < self.pos(),
                st_entry.expressions.len() <= ast.expressions_seq().len(),
                st_entry.statements.len() <= ast.statements_seq().len(),
                0 <= cur_left.idx() < ast.expressions_seq().len(),
                !done ==> goal == spec_parse_bin_outer(
                    t,
                    self.pos(),
                    parse_state(*ast, *scope),
                    cur_left,
                    precedence,
                ),
                done ==> goal == (Parsed::Accept {
                    state: parse_state(*ast, *scope),
                    pos: self.pos(),
                    val: cur_left,
                }),
            decreases t.len() - self.pos(), (if done { 0int } else { 1int }),
        {
            let op_opt = self.parse_binary_operator();
            match op_opt {
                None => {
                    done = true;
                },
                Some(operator) => {
                    let operator_precedence = operator.precedence();
                    if operator_precedence < precedence {
                        done = true;
                    } else {
                        let ghost p_iter = self.pos();
                        let ghost st_iter = parse_state(*ast, *scope);
                        let _taken = self.consume();
                        let right_r = self.parse_primary(ast, scope);
                        let mut right = match right_r {
                            Ok(e) => e,
                            Err(e) => {
                                return Err(e);
                            },
                        };
                        let ghost p2 = self.pos();
                        let ghost st2 = parse_state(*ast, *scope);
                        let ghost right0 = right;
                        let ghost inner_goal = spec_parse_bin_inner(
                            t,
                            p2,
                            st2,
                            right,
                            precedence_of(operator.kind),
                        );
                        let mut inner_done = false;
                        while !inner_done
                            invariant
                                self.wf(),
                                ast.wf(),
                                scope.wf(),
                                self.toks() == t,
                                p2 <= self.pos(),
                                st2.expressions.len() <= ast.expressions_seq().len(),
                                st2.statements.len() <= ast.statements_seq().len(),
                                0 <= cur_left.idx() < ast.expressions_seq().len(),
                                0 <= right.idx() < ast.expressions_seq().len(),
                                !inner_done ==> inner_goal == spec_parse_bin_inner(
                                    t,
                                    self.pos(),
                                    parse_state(*ast, *scope),
                                    right,
                                    precedence_of(operator.kind),
                                ),
                                inner_done ==> inner_goal == (Parsed::Accept {
                                    state: parse_state(*ast, *scope),
                                    pos: self.pos(),
                                    val: right,
                                }),
                            decreases t.len() - self.pos(), (if inner_done { 0int } else { 1int }),
                        {
                            let inner_opt = self.parse_binary_operator();
                            match inner_opt {
                                None => {
                                    inner_done = true;
                                },
                                Some(inner_operator) => {
                                    let higher_precedence = inner_operator.precedence()
                                        > operator_precedence;
                                    let equal_precedence = inner_operator.precedence()
                                        == operator_precedence;
                                    let right_assoc = matches!(
                                        inner_operator.assicativity(),
                                        BinOperatorAssiciativity::Right
                                    );
                                    if !higher_precedence && !(equal_precedence && right_assoc) {
                                        inner_done = true;
                                    } else {
                                        let ghost p_b = self.pos();
                                        let ghost st_b = parse_state(*ast, *scope);
                                        let ghost right_b = right;
                                        let inner_prec = inner_operator.precedence();
                                        let rr = self.parse_binary_expression_recursive(
                                            ast,
                                            scope,
                                            right,
                                            inner_prec,
                                        );
                                        right = match rr {
                                            Ok(e) => e,
                                            Err(e) => {
                                                return Err(e);
                                            },
                                        };
                                        proof {
                                            assert(climbs_at(t, p_b, inner_prec));
                                            assert(spec_parse_bin_inner(
                                                t,
                                                p_b,
                                                st_b,
                                                right_b,
                                                precedence_of(operator.kind),
                                            ) == spec_parse_bin_inner(
                                                t,
                                                self.pos(),
                                                parse_state(*ast, *scope),
                                                right,
                                                precedence_of(operator.kind),
                                            ));
                                        }
                                    }
                                },
                            }
                        }
                        let expr_id = ast.save_binary_expression(operator, cur_left, right).id;
                        proof {
                            assert(spec_parse_primary(t, p_iter + 1, st_iter) == (Parsed::Accept {
                                state: st2,
                                pos: p2,
                                val: right0,
                            }));
                            assert(goal == spec_parse_bin_outer(
                                t,
                                self.pos(),
                                parse_state(*ast, *scope),
                                expr_id,
                                precedence,
                            ));
                        }
                        cur_left = expr_id;
                    }
                },
            }
        }
        Ok(cur_left)
    }

    /// Parses a `let` statement: `let IDENT '=' expr`. The declared name
    /// is reported to the scope collaborator together with the literal of
    /// the token that follows the initializer.
    #[verifier::loop_isolation(false)]
    pub fn parse_let_statement(&mut self, ast: &mut Ast, scope: &mut GlobalScope) -> (r: Result<
        StmtId,
        ParseError,
    >)
        requires
            old(self).wf(),
            old(ast).wf(),
            old(scope).wf(),
        ensures
            final(self).wf(),
            final(ast).wf(),
            final(scope).wf(),
            final(self).toks() == old(self).toks(),
            old(self).pos() <= final(self).pos(),
            old(ast).expressions_seq().len() <= final(ast).expressions_seq().len(),
            old(ast).statements_seq().len() <= final(ast).statements_seq().len(),
            (match r {
                Ok(sid) => spec_parse_let_statement(
                    old(self).toks(),
                    old(self).pos(),
                    parse_state(*old(ast), *old(scope)),
                ) == (Parsed::Accept {
                    state: parse_state(*final(ast), *final(scope)),
                    pos: final(self).pos(),
                    val: sid,
                }) && old(self).pos() < final(self).pos()
                    && 0 <= sid.idx() < final(ast).statements_seq().len(),
                Err(e) => spec_parse_let_statement(
                    old(self).toks(),
                    old(self).pos(),
                    parse_state(*old(ast), *old(scope)),
                ) == (Parsed::<StmtId>::Reject {
                    state: parse_state(*final(ast), *final(scope)),
                    err: e,
                }),
            }),
        decreases self.toks().len() - self.pos(), 5int,
    {
        let ghost t = self.toks();
        let ghost p = self.pos();
        let ghost st0 = parse_state(*ast, *scope);
        let _let_tok = match self.consume_and_verify_token(TokenKind::Let) {
            Ok(tk) => tk,
            Err(e) => {
                return Err(e);
            },
        };
        let identifier = match self.consume_and_verify_token(TokenKind::Identifier) {
            Ok(tk) => tk,
            Err(e) => {
                return Err(e);
            },
        };
        let _eq_tok = match self.consume_and_verify_token(TokenKind::Equals) {
            Ok(tk) => tk,
            Err(e) => {
                return Err(e);
            },
        };
        let expr_id = match self.parse_expression(ast, scope) {
            Ok(e) => e,
            Err(e) => {
                return Err(e);
            },
        };
        let value = self.current_token().span.literal.clone();
        let name = identifier.span.literal.clone();
        let _status = scope.add_global_variable(name, value);
        let stmt_id = ast.save_let_statement(identifier, expr_id).id;
        Ok(stmt_id)
    }

    /// Parses one statement, at the top level or inside a function body: a
    /// `let` statement, or an expression statement.
    #[verifier::loop_isolation(false)]
    pub fn parse_statement(&mut self, ast: &mut Ast, scope: &mut GlobalScope) -> (r: Result<
        StmtId,
        ParseError,
    >)
        requires
            old(self).wf(),
            old(ast).wf(),
            old(scope).wf(),
        ensures
            final(self).wf(),
            final(ast).wf(),
            final(scope).wf(),
            final(self).toks() == old(self).toks(),
            old(self).pos() <= final(self).pos(),
            old(ast).expressions_seq().len() <= final(ast).expressions_seq().len(),
            old(ast).statements_seq().len() <= final(ast).statements_seq().len(),
            (match r {
                Ok(sid) => spec_parse_statement(
                    old(self).toks(),
                    old(self).pos(),
                    parse_state(*old(ast), *old(scope)),
                ) == (Parsed::Accept {
                    state: parse_state(*final(ast), *final(scope)),
                    pos: final(self).pos(),
                    val: sid,
                }) && old(self).pos() < final(self).pos()
                    && 0 <= sid.idx() < final(ast).statements_seq().len(),
                Err(e) => spec_parse_statement(
                    old(self).toks(),
                    old(self).pos(),
                    parse_state(*old(ast), *old(scope)),
                ) == (Parsed::<StmtId>::Reject {
                    state: parse_state(*final(ast), *final(scope)),
                    err: e,
                }),
            }),
        decreases self.toks().len() - self.pos(), 6int,
    {
        let is_let = matches!(self.current_token().kind, TokenKind::Let);
        if is_let {
            self.parse_let_statement(ast, scope)
        } else {
            let expr_id = match self.parse_expression(ast, scope) {
                Ok(e) => e,
                Err(e) => {
                    return Err(e);
                },
            };
            let stmt_id = ast.save_expression_statement(expr_id).id;
            Ok(stmt_id)
        }
    }

    /// Parses a parameter list: `IDENT (',' IDENT)*`, or nothing before
    /// the closing parenthesis.
    #[verifier::loop_isolation(false)]
    pub fn parse_function_parameters(&mut self) -> (r: Result<Vec<Parameter>, ParseError>)
        requires
            old(self).wf(),
        ensures
            final(self).wf(),
            final(self).toks() == old(self).toks(),
            old(self).pos() <= final(self).pos(),
            (match r {
                Ok(params) => spec_parse_function_parameters(old(self).toks(), old(self).pos())
                    == Ok::<_, ParseError>((params@, final(self).pos())),
                Err(e) => spec_parse_function_parameters(old(self).toks(), old(self).pos())
                    == Err::<(Seq<Parameter>, int), _>(e),
            }),
    {
        let ghost t = self.toks();
        let ghost p0 = self.pos();
        let mut parameters: Vec<Parameter> = Vec::new();
        let at_close = matches!(self.current_token().kind, TokenKind::CloseParen);
        if at_close {
            return Ok(parameters);
        }
        let first = match self.consume_and_verify_token(TokenKind::Identifier) {
            Ok(tk) => tk,
            Err(e) => {
                return Err(e);
            },
        };
        parameters.push(Parameter::new(first));
        let ghost p1 = self.pos();
        let ghost goal = spec_parse_params_rest(t, p1, parameters@);
        while matches!(self.current_token().kind, TokenKind::Comma)
            invariant
                self.wf(),
                self.toks() == t,
                p1 <= self.pos(),
                goal == spec_parse_params_rest(t, self.pos(), parameters@),
            decreases t.len() - self.pos(),
        {
            let ghost p_b = self.pos();
            let ghost acc_b = parameters@;
            let _comma = self.consume();
            let tok = match self.consume_and_verify_token(TokenKind::Identifier) {
                Ok(tk) => tk,
                Err(e) => {
                    return Err(e);
                },
            };
            parameters.push(Parameter::new(tok));
            proof {
                assert(spec_parse_params_rest(t, p_b, acc_b) == spec_parse_params_rest(
                    t,
                    self.pos(),
                    parameters@,
                ));
            }
        }
        Ok(parameters)
    }

    /// Parses a function body: statements until the closing brace.
    #[verifier::loop_isolation(false)]
    pub fn parse_function_body(&mut self, ast: &mut Ast, scope: &mut GlobalScope) -> (r: Result<
        Vec<StmtId>,
        ParseError,
    >)
        requires
            old(self).wf(),
            old(ast).wf(),
            old(scope).wf(),
        ensures
            final(self).wf(),
            final(ast).wf(),
            final(scope).wf(),
            final(self).toks() == old(self).toks(),
            old(self).pos() <= final(self).pos(),
            old(ast).expressions_seq().len() <= final(ast).expressions_seq().len(),
            old(ast).statements_seq().len() <= final(ast).statements_seq().len(),
            (match r {
                Ok(stmts) => spec_parse_function_body(
                    old(self).toks(),
                    old(self).pos(),
                    parse_state(*old(ast), *old(scope)),
                    Seq::empty(),
                ) == (Parsed::Accept {
                    state: parse_state(*final(ast), *final(scope)),
                    pos: final(self).pos(),
                    val: stmts@,
                }) && (forall|i: int|
                    0 <= i < stmts@.len() ==> 0 <= (#[trigger] stmts@[i]).idx()
                        < final(ast).statements_seq().len()),
                Err(e) => spec_parse_function_body(
                    old(self).toks(),
                    old(self).pos(),
                    parse_state(*old(ast), *old(scope)),
                    Seq::empty(),
                ) == (Parsed::<Seq<StmtId>>::Reject {
                    state: parse_state(*final(ast), *final(scope)),
                    err: e,
                }),
            }),
        decreases self.toks().len() - self.pos(), 7int,
    {
        let ghost t = self.toks();
        let ghost p0 = self.pos();
        let ghost st0 = parse_state(*ast, *scope);
        let mut body_vec: Vec<StmtId> = Vec::new();
        let ghost goal = spec_parse_function_body(t, p0, st0, Seq::empty());
        while !matches!(self.current_token().kind, TokenKind::CloseBrace)
            invariant
                self.wf(),
                ast.wf(),
                scope.wf(),
                self.toks() == t,
                p0 <= self.pos(),
                st0.expressions.len() <= ast.expressions_seq().len(),
                st0.statements.len() <= ast.statements_seq().len(),
                forall|i: int|
                    0 <= i < body_vec@.len() ==> 0 <= (#[trigger] body_vec@[i]).idx()
                        < ast.statements_seq().len(),
                goal == spec_parse_function_body(
                    t,
                    self.pos(),
                    parse_state(*ast, *scope),
                    body_vec@,
                ),
            decreases t.len() - self.pos(),
        {
            let ghost p_b = self.pos();
            let ghost st_b = parse_state(*ast, *scope);
            let ghost acc_b = body_vec@;
            let stmt_id = match self.parse_statement(ast, scope) {
                Ok(sid) => sid,
                Err(e) => {
                    return Err(e);
                },
            };
            body_vec.push(stmt_id);
            proof {
                assert(spec_parse_function_body(t, p_b, st_b, acc_b) == spec_parse_function_body(
                    t,
                    self.pos(),
                    parse_state(*ast, *scope),
                    body_vec@,
                ));
            }
        }
        Ok(body_vec)
    }

    /// Parses a function declaration:
    /// `'function' IDENT '(' params? ')' '{' stmt* '}'`.
    #[verifier::loop_isolation(false)]
    pub fn parse_function(&mut self, ast: &mut Ast, scope: &mut GlobalScope) -> (r: Result<
        FunctionId,
        ParseError,
    >)
        requires
            old(self).wf(),
            old(ast).wf(),
            old(scope).wf(),
        ensures
            final(self).wf(),
            final(ast).wf(),
            final(scope).wf(),
            final(self).toks() == old(self).toks(),
            old(self).pos() <= final(self).pos(),
            old(ast).expressions_seq().len() <= final(ast).expressions_seq().len(),
            old(ast).statements_seq().len() <= final(ast).statements_seq().len(),
            (match r {
                Ok(fid) => spec_parse_function(
                    old(self).toks(),
                    old(self).pos(),
                    parse_state(*old(ast), *old(scope)),
                ) == (Parsed::Accept {
                    state: parse_state(*final(ast), *final(scope)),
                    pos: final(self).pos(),
                    val: fid,
                }) && old(self).pos() < final(self).pos()
                    && 0 <= fid.idx() < final(ast).functions_seq().len(),
                Err(e) => spec_parse_function(
                    old(self).toks(),
                    old(self).pos(),
                    parse_state(*old(ast), *old(scope)),
                ) == (Parsed::<FunctionId>::Reject {
                    state: parse_state(*final(ast), *final(scope)),
                    err: e,
                }),
            }),
        decreases self.toks().len() - self.pos(), 8int,
    {
        let ghost t = self.toks();
        let ghost p = self.pos();
        let ghost st0 = parse_state(*ast, *scope);
        let _fn_tok = match self.consume_and_verify_token(TokenKind::Function) {
            Ok(tk) => tk,
            Err(e) => {
                return Err(e);
            },
        };
        let name_tok = match self.consume_and_verify_token(TokenKind::Identifier) {
            Ok(tk) => tk,
            Err(e) => {
                return Err(e);
            },
        };
        let open_paren = match self.consume_and_verify_token(TokenKind::OpenParen) {
            Ok(tk) => tk,
            Err(e) => {
                return Err(e);
            },
        };
        let parameters = match self.parse_function_parameters() {
            Ok(ps) => ps,
            Err(e) => {
                return Err(e);
            },
        };
        let close_paren = match self.consume_and_verify_token(TokenKind::CloseParen) {
            Ok(tk) => tk,
            Err(e) => {
                return Err(e);
            },
        };
        let open_brace = match self.consume_and_verify_token(TokenKind::OpenBrace) {
            Ok(tk) => tk,
            Err(e) => {
                return Err(e);
            },
        };
        let body_vec = match self.parse_function_body(ast, scope) {
            Ok(bs) => bs,
            Err(e) => {
                return Err(e);
            },
        };
        let close_brace = match self.consume_and_verify_token(TokenKind::CloseBrace) {
            Ok(tk) => tk,
            Err(e) => {
                return Err(e);
            },
        };
        let name = name_tok.span.literal.clone();
        let body = Body::new(open_brace, body_vec, close_brace);
        let ghost st_pre = parse_state(*ast, *scope);
        let ghost raw_pre = ast.functions_seq();
        let fid = ast.save_function(name, open_paren, close_paren, parameters, body);
        proof {
            let fnode = ast.functions_seq().last();
            assert(ast.functions_seq() == raw_pre.push(fnode));
            assert(parse_state(*ast, *scope).functions =~= st_pre.functions.push(
                model_of_function(fnode),
            ));
            assert(spec_parse_function(t, p, st0) == (Parsed::Accept {
                state: parse_state(*ast, *scope),
                pos: self.pos(),
                val: fid,
            }));
        }
        Ok(fid)
    }

    /// The top level: parses items until `Eof`, appending each to the
    /// tree.
    #[verifier::loop_isolation(false)]
    pub fn parse_items(&mut self, ast: &mut Ast, scope: &mut GlobalScope) -> (r: Result<
        (),
        ParseError,
    >)
        requires
            old(self).wf(),
            old(ast).wf(),
            old(scope).wf(),
        ensures
            final(self).wf(),
            final(ast).wf(),
            final(scope).wf(),
            final(self).toks() == old(self).toks(),
            old(self).pos() <= final(self).pos(),
            old(ast).expressions_seq().len() <= final(ast).expressions_seq().len(),
            old(ast).statements_seq().len() <= final(ast).statements_seq().len(),
            (match r {
                Ok(u) => spec_parse_items(
                    old(self).toks(),
                    old(self).pos(),
                    parse_state(*old(ast), *old(scope)),
                ) == (Parsed::Accept {
                    state: parse_state(*final(ast), *final(scope)),
                    pos: final(self).pos(),
                    val: u,
                }),
                Err(e) => spec_parse_items(
                    old(self).toks(),
                    old(self).pos(),
                    parse_state(*old(ast), *old(scope)),
                ) == (Parsed::<()>::Reject {
                    state: parse_state(*final(ast), *final(scope)),
                    err: e,
                }),
            }),
        decreases self.toks().len() - self.pos(), 9int,
    {
        let ghost t = self.toks();
        let ghost p0 = self.pos();
        let ghost st0 = parse_state(*ast, *scope);
        let ghost goal = spec_parse_items(t, p0, st0);
        while !self.is_at_end()
            invariant
                self.wf(),
                ast.wf(),
                scope.wf(),
                self.toks() == t,
                p0 <= self.pos(),
                st0.expressions.len() <= ast.expressions_seq().len(),
                st0.statements.len() <= ast.statements_seq().len(),
                goal == spec_parse_items(t, self.pos(), parse_state(*ast, *scope)),
            decreases t.len() - self.pos(),
        {
            let ghost p_b = self.pos();
            let ghost st_b = parse_state(*ast, *scope);
            let is_function = matches!(self.current_token().kind, TokenKind::Function);
            if is_function {
                let fid = match self.parse_function(ast, scope) {
                    Ok(f) => f,
                    Err(e) => {
                        return Err(e);
                    },
                };
                ast.item_from_function_id(fid);
                proof {
                    assert(spec_parse_items(t, p_b, st_b) == spec_parse_items(
                        t,
                        self.pos(),
                        parse_state(*ast, *scope),
                    ));
                }
            } else {
                let sid = match self.parse_statement(ast, scope) {
                    Ok(s) => s,
                    Err(e) => {
                        return Err(e);
                    },
                };
                ast.item_from_stmt_id(sid);
                proof {
                    assert(spec_parse_items(t, p_b, st_b) == spec_parse_items(
                        t,
                        self.pos(),
                        parse_state(*ast, *scope),
                    ));
                }
            }
        }
        Ok(())
    }

    /// Parses the whole token stream into the tree: items until `Eof`.
    /// What the call builds — or the error it stops on, with the tree as
    /// far as it had grown — is a function of the token stream alone.
    pub fn parse(&mut self, ast: &mut Ast, scope: &mut GlobalScope) -> (r: Result<(), ParseError>)
        requires
            old(self).wf(),
            old(ast).wf(),
            old(scope).wf(),
        ensures
            final(self).wf(),
            final(ast).wf(),
            final(scope).wf(),
            final(self).toks() == old(self).toks(),
            (match r {
                Ok(u) => spec_parse_items(
                    old(self).toks(),
                    old(self).pos(),
                    parse_state(*old(ast), *old(scope)),
                ) == (Parsed::Accept {
                    state: parse_state(*final(ast), *final(scope)),
                    pos: final(self).pos(),
                    val: u,
                }),
                Err(e) => spec_parse_items(
                    old(self).toks(),
                    old(self).pos(),
                    parse_state(*old(ast), *old(scope)),
                ) == (Parsed::<()>::Reject {
                    state: parse_state(*final(ast), *final(scope)),
                    err: e,
                }),
            }),
    {
        self.parse_items(ast, scope)
    }

    /// The binary operator at the cursor, if the cursor stands on one. The
    /// cursor does not move.
    fn parse_binary_operator(&self) -> (r: Option<BinOperator>)
        requires
            self.wf(),
        ensures
            (match binop_kind_of(self.toks()[self.pos()].kind) {
                Some(k) => r matches Some(op) && op.kind == k && op.token == self.toks()[self.pos()],
                None => r is None,
            }),
    {
        let token = self.current_token();
        let kind = match token.kind {
            TokenKind::Plus => Some(BinOperatorKind::Plus),
            TokenKind::Minus => Some(BinOperatorKind::Minus),
            TokenKind::Asterisk => Some(BinOperatorKind::Multiply),
            TokenKind::Slash => Some(BinOperatorKind::Divide),
            _ => None,
        };
        match kind {
            Some(k) => Some(BinOperator::new(k, self.tokens[self.current].duplicate())),
            None => None,
        }
    }
}

/// The state of a parser that has built nothing yet.
pub open spec fn empty_parse_state() -> ParseState {
    ParseState {
        items: Seq::empty(),
        statements: Seq::empty(),
        expressions: Seq::empty(),
        functions: Seq::empty(),
        scope: Seq::empty(),
    }
}

/// Precedence: `a + b * c` parses as the sum of `a` and the product
/// `b * c` — the multiplication is nested under the addition.
pub proof fn lemma_precedence_plus_times(
    ta: Token,
    tplus: Token,
    tb: Token,
    tstar: Token,
    tc: Token,
    teof: Token,
    a: i64,
    b: i64,
    c: i64,
)
    requires
        ta.kind == TokenKind::Number(a),
        tplus.kind == TokenKind::Plus,
        tb.kind == TokenKind::Number(b),
        tstar.kind == TokenKind::Asterisk,
        tc.kind == TokenKind::Number(c),
        teof.kind == TokenKind::Eof,
    ensures
        ({
            let t = seq![ta, tplus, tb, tstar, tc, teof];
            let r = spec_parse_items(t, 0, empty_parse_state());
            &&& r matches Parsed::Accept { state, .. }
            &&& state.expressions.len() == 5
            &&& state.expressions[0].kind == ExpressionKind::Number(
                NumberExpr { number: a, token: ta },
            )
            &&& state.expressions[1].kind == ExpressionKind::Number(
                NumberExpr { number: b, token: tb },
            )
            &&& state.expressions[2].kind == ExpressionKind::Number(
                NumberExpr { number: c, token: tc },
            )
            &&& state.expressions[3].kind == ExpressionKind::Binary(
                BinaryExpr {
                    left: ExprId(1),
                    operator: BinOperator { kind: BinOperatorKind::Multiply, token: tstar },
                    right: ExprId(2),
                },
            )
            &&& state.expressions[4].kind == ExpressionKind::Binary(
                BinaryExpr {
                    left: ExprId(0),
                    operator: BinOperator { kind: BinOperatorKind::Plus, token: tplus },
                    right: ExprId(3),
                },
            )
        }),
{
    let t = seq![ta, tplus, tb, tstar, tc, teof];
    let st0 = empty_parse_state();
    let ex0 = Expression {
        kind: ExpressionKind::Number(NumberExpr { number: a, token: ta }),
        id: ExprId(0),
    };
    let st1 = st_with_expr(st0, ex0);
    assert(spec_parse_primary(t, 0, st0) == (Parsed::Accept { state: st1, pos: 1int, val: ExprId(0) }));
    let ex1 = Expression {
        kind: ExpressionKind::Number(NumberExpr { number: b, token: tb }),
        id: ExprId(1),
    };
    let st2 = st_with_expr(st1, ex1);
    assert(spec_parse_primary(t, 2, st1) == (Parsed::Accept { state: st2, pos: 3int, val: ExprId(1) }));
    let ex2 = Expression {
        kind: ExpressionKind::Number(NumberExpr { number: c, token: tc }),
        id: ExprId(2),
    };
    let st3 = st_with_expr(st2, ex2);
    assert(spec_parse_primary(t, 4, st2) == (Parsed::Accept { state: st3, pos: 5int, val: ExprId(2) }));
    assert(spec_parse_bin_inner(t, 5, st3, ExprId(2), 19) == (Parsed::Accept { state: st3, pos: 5int, val: ExprId(2) }));
    let ex3 = Expression {
        kind: ExpressionKind::Binary(
            BinaryExpr {
                left: ExprId(1),
                operator: BinOperator { kind: BinOperatorKind::Multiply, token: tstar },
                right: ExprId(2),
            },
        ),
        id: ExprId(3),
    };
    let st4 = st_with_expr(st3, ex3);
    assert(spec_parse_bin_outer(t, 5, st4, ExprId(3), 19) == (Parsed::Accept { state: st4, pos: 5int, val: ExprId(3) }));
    assert(spec_parse_bin_outer(t, 3, st2, ExprId(1), 19) == (Parsed::Accept { state: st4, pos: 5int, val: ExprId(3) }));
    assert(spec_parse_bin_inner(t, 5, st4, ExprId(3), 18) == (Parsed::Accept { state: st4, pos: 5int, val: ExprId(3) }));
    assert(spec_parse_bin_inner(t, 3, st2, ExprId(1), 18) == (Parsed::Accept { state: st4, pos: 5int, val: ExprId(3) }));
    let ex4 = Expression {
        kind: ExpressionKind::Binary(
            BinaryExpr {
                left: ExprId(0),
                operator: BinOperator { kind: BinOperatorKind::Plus, token: tplus },
                right: ExprId(3),
            },
        ),
        id: ExprId(4),
    };
    let st5 = st_with_expr(st4, ex4);
    assert(spec_parse_bin_outer(t, 5, st5, ExprId(4), 0) == (Parsed::Accept { state: st5, pos: 5int, val: ExprId(4) }));
    assert(spec_parse_bin_outer(t, 1, st1, ExprId(0), 0) == (Parsed::Accept { state: st5, pos: 5int, val: ExprId(4) }));
    assert(spec_parse_binary_expression(t, 0, st0) == (Parsed::Accept { state: st5, pos: 5int, val: ExprId(4) }));
    let stmt = Statement { id: StmtId(0), stmt_kind: StatementKind::Expression(ExprId(4)) };
    let st6 = ParseState { statements: st5.statements.push(stmt), ..st5 };
    assert(spec_parse_statement(t, 0, st0) == (Parsed::Accept { state: st6, pos: 5int, val: StmtId(0) }));
    let st7 = st_with_item(st6, ItemKind::Statement(StmtId(0)));
    assert(spec_parse_items(t, 5, st7) == (Parsed::Accept { state: st7, pos: 5int, val: () }));
    assert(spec_parse_items(t, 0, st0) == (Parsed::Accept { state: st7, pos: 5int, val: () }));
    assert(st7.expressions == st5.expressions);
}

/// Precedence, the other way round: `a * b + c` parses as the sum of the
/// product `a * b` and `c` — the multiplication stays on the left.
pub proof fn lemma_precedence_times_plus(
    ta: Token,
    tstar: Token,
    tb: Token,
    tplus: Token,
    tc: Token,
    teof: Token,
    a: i64,
    b: i64,
    c: i64,
)
    requires
        ta.kind == TokenKind::Number(a),
        tstar.kind == TokenKind::Asterisk,
        tb.kind == TokenKind::Number(b),
        tplus.kind == TokenKind::Plus,
        tc.kind == TokenKind::Number(c),
        teof.kind == TokenKind::Eof,
    ensures
        ({
            let t = seq![ta, tstar, tb, tplus, tc, teof];
            let r = spec_parse_items(t, 0, empty_parse_state());
            &&& r matches Parsed::Accept { state, .. }
            &&& state.expressions.len() == 5
            &&& state.expressions[0].kind == ExpressionKind::Number(
                NumberExpr { number: a, token: ta },
            )
            &&& state.expressions[1].kind == ExpressionKind::Number(
                NumberExpr { number: b, token: tb },
            )
            &&& state.expressions[2].kind == ExpressionKind::Binary(
                BinaryExpr {
                    left: ExprId(0),
                    operator: BinOperator { kind: BinOperatorKind::Multiply, token: tstar },
                    right: ExprId(1),
                },
            )
            &&& state.expressions[3].kind == ExpressionKind::Number(
                NumberExpr { number: c, token: tc },
            )
            &&& state.expressions[4].kind == ExpressionKind::Binary(
                BinaryExpr {
                    left: ExprId(2),
                    operator: BinOperator { kind: BinOperatorKind::Plus, token: tplus },
                    right: ExprId(3),
                },
            )
        }),
{
    let t = seq![ta, tstar, tb, tplus, tc, teof];
    let st0 = empty_parse_state();
    let ex0 = Expression {
        kind: ExpressionKind::Number(NumberExpr { number: a, token: ta }),
        id: ExprId(0),
    };
    let st1 = st_with_expr(st0, ex0);
    assert(spec_parse_primary(t, 0, st0) == (Parsed::Accept { state: st1, pos: 1int, val: ExprId(0) }));
    let ex1 = Expression {
        kind: ExpressionKind::Number(NumberExpr { number: b, token: tb }),
        id: ExprId(1),
    };
    let st2 = st_with_expr(st1, ex1);
    assert(spec_parse_primary(t, 2, st1) == (Parsed::Accept { state: st2, pos: 3int, val: ExprId(1) }));
    assert(spec_parse_bin_inner(t, 3, st2, ExprId(1), 19) == (Parsed::Accept { state: st2, pos: 3int, val: ExprId(1) }));
    let ex2 = Expression {
        kind: ExpressionKind::Binary(
            BinaryExpr {
                left: ExprId(0),
                operator: BinOperator { kind: BinOperatorKind::Multiply, token: tstar },
                right: ExprId(1),
            },
        ),
        id: ExprId(2),
    };
    let st3 = st_with_expr(st2, ex2);
    let ex3 = Expression {
        kind: ExpressionKind::Number(NumberExpr { number: c, token: tc }),
        id: ExprId(3),
    };
    let st4 = st_with_expr(st3, ex3);
    assert(spec_parse_primary(t, 4, st3) == (Parsed::Accept { state: st4, pos: 5int, val: ExprId(3) }));
    assert(spec_parse_bin_inner(t, 5, st4, ExprId(3), 18) == (Parsed::Accept { state: st4, pos: 5int, val: ExprId(3) }));
    let ex4 = Expression {
        kind: ExpressionKind::Binary(
            BinaryExpr {
                left: ExprId(2),
                operator: BinOperator { kind: BinOperatorKind::Plus, token: tplus },
                right: ExprId(3),
            },
        ),
        id: ExprId(4),
    };
    let st5 = st_with_expr(st4, ex4);
    assert(spec_parse_bin_outer(t, 5, st5, ExprId(4), 0) == (Parsed::Accept { state: st5, pos: 5int, val: ExprId(4) }));
    assert(spec_parse_bin_outer(t, 3, st3, ExprId(2), 0) == (Parsed::Accept { state: st5, pos: 5int, val: ExprId(4) }));
    assert(spec_parse_bin_outer(t, 1, st1, ExprId(0), 0) == (Parsed::Accept { state: st5, pos: 5int, val: ExprId(4) }));
    assert(spec_parse_binary_expression(t, 0, st0) == (Parsed::Accept { state: st5, pos: 5int, val: ExprId(4) }));
    let stmt = Statement { id: StmtId(0), stmt_kind: StatementKind::Expression(ExprId(4)) };
    let st6 = ParseState { statements: st5.statements.push(stmt), ..st5 };
    assert(spec_parse_statement(t, 0, st0) == (Parsed::Accept { state: st6, pos: 5int, val: StmtId(0) }));
    let st7 = st_with_item(st6, ItemKind::Statement(StmtId(0)));
    assert(spec_parse_items(t, 5, st7) == (Parsed::Accept { state: st7, pos: 5int, val: () }));
    assert(spec_parse_items(t, 0, st0) == (Parsed::Accept { state: st7, pos: 5int, val: () }));
    assert(st7.expressions == st5.expressions);
}

/// Filtering a stream whose one `Eof` stands at the end keeps exactly that
/// shape, and leaves no whitespace behind.
pub proof fn lemma_filter_whitespace_wf(s: Seq<Token>)
    requires
        s.len() >= 1,
        s.last().kind == TokenKind::Eof,
        forall|i: int| 0 <= i < s.len() - 1 ==> (#[trigger] s[i]).kind != TokenKind::Eof,
    ensures
        filter_whitespace(s).len() >= 1,
        filter_whitespace(s).last().kind == TokenKind::Eof,
        forall|i: int|
            0 <= i < filter_whitespace(s).len() - 1 ==> (#[trigger] filter_whitespace(s)[i]).kind
                != TokenKind::Eof,
        forall|i: int|
            0 <= i < filter_whitespace(s).len() ==> (#[trigger] filter_whitespace(s)[i]).kind
                != TokenKind::Whitespace,
    decreases s.len(),
{
    let f = filter_whitespace(s);
    if s.len() == 1 {
        assert(f =~= seq![s[0]]);
    } else {
        let rest = s.drop_first();
        lemma_filter_whitespace_wf(rest);
        let frest = filter_whitespace(rest);
        if s[0].kind == TokenKind::Whitespace {
            assert(f == frest);
        } else {
            assert(f == seq![s[0]] + frest);
            assert(f.last() == frest.last());
            assert(forall|i: int| 0 <= i < frest.len() ==> f[i + 1] == #[trigger] frest[i]);
        }
    }
}

} // verus!
