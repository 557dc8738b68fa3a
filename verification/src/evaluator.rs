//! The evaluator: a visitor that folds an expression tree into a 64-bit
//! signed integer.
//!
//! Two optional slots are written as side effects of visitation: `value`
//! latches the last scalar produced, and `result` mirrors the last binary
//! fold. Arithmetic follows the failing-overflow policy: an operation
//! whose mathematical result does not fit in `i64` stops evaluation with
//! an overflow error, and division by zero stops it with its own error;
//! once an error is recorded, later visits change nothing.
//!
//! Every visit is specified against the spec-level fold `spec_eval_expr`
//! and friends, so the outcome of evaluating a tree is a function of the
//! tree alone.

use crate::arena::{ExprId, Id, ItemId, StmtId};
use crate::ast::{
    Ast, AssignExpr, BinOperatorKind, BinaryExpr, Expression, ExpressionKind, Item, ItemKind,
    LetStatement, NumberExpr, ParenthesizedExpr, Statement, StatementKind, exprs_wf,
    lemma_exprs_wf, lemma_items_wf, lemma_stmts_wf,
};
use crate::visitor::Visitor;
use vstd::prelude::*;

verus! {

/// Why an evaluation stopped early.
#[derive(Debug, Clone, Copy, PartialEq, Eq, Structural)]
pub enum EvalError {
    DivisionByZero,
    Overflow,
}

/// The evaluator's state: the last scalar produced, the last binary fold,
/// and the error evaluation stopped on, if any.
#[derive(Debug, Clone, Copy)]
pub struct ExpressionEvaluator {
    pub result: Option<i64>,
    pub value: Option<i64>,
    pub error: Option<EvalError>,
}

impl ExpressionEvaluator {
    pub fn new() -> (r: ExpressionEvaluator)
        ensures
            r == initial_evaluator(),
    {
        ExpressionEvaluator { result: None, value: None, error: None }
    }
}

/// The evaluator before anything has been visited.
pub open spec fn initial_evaluator() -> ExpressionEvaluator {
    ExpressionEvaluator { result: None, value: None, error: None }
}

/// Truncating integer division, as the machine divides: the quotient is
/// rounded towards zero.
pub open spec fn div_trunc(x: int, d: int) -> int {
    if x == 0 {
        0
    } else if x > 0 && d > 0 {
        x / d
    } else if x < 0 && d < 0 {
        ((x * -1) / (d * -1))
    } else if x < 0 {
        ((x * -1) / d) * -1
    } else {
        (x / (d * -1)) * -1
    }
}

/// One binary operation on `i64` values: the exact result where it fits,
/// an overflow error where it does not, and a division-by-zero error for
/// a zero divisor.
pub open spec fn eval_binop(k: BinOperatorKind, a: i64, b: i64) -> Result<i64, EvalError> {
    match k {
        BinOperatorKind::Plus => if a + b > i64::MAX || a + b < i64::MIN {
            Err(EvalError::Overflow)
        } else {
            Ok((a + b) as i64)
        },
        BinOperatorKind::Minus => if a - b > i64::MAX || a - b < i64::MIN {
            Err(EvalError::Overflow)
        } else {
            Ok((a - b) as i64)
        },
        BinOperatorKind::Multiply => if a * b > i64::MAX || a * b < i64::MIN {
            Err(EvalError::Overflow)
        } else {
            Ok((a * b) as i64)
        },
        BinOperatorKind::Divide => if b == 0 {
            Err(EvalError::DivisionByZero)
        } else {
            let q = div_trunc(a as int, b as int);
            if q < i64::MIN || q > i64::MAX {
                Err(EvalError::Overflow)
            } else {
                Ok(q as i64)
            }
        },
    }
}

/// The spec-level fold of one expression: what visiting it does to the
/// evaluator's state.
pub open spec fn spec_eval_expr(exprs: Seq<Expression>, e: int, ev: ExpressionEvaluator)
    -> ExpressionEvaluator
    decreases 2 * e + 2,
        when 0 <= e < exprs.len() && exprs_wf(exprs)
{
    if ev.error is Some {
        ev
    } else {
        match exprs[e].kind {
            ExpressionKind::Number(nx) => spec_eval_number(nx, ev),
            ExpressionKind::Binary(b) => spec_eval_binary(exprs, b, ev),
            ExpressionKind::Parenthesized(p) => spec_eval_paren(exprs, p, ev),
            ExpressionKind::Assignment(x) => spec_eval_assign(exprs, x, ev),
        }
    }
}

/// Visiting a number literal latches its value.
pub open spec fn spec_eval_number(nx: NumberExpr, ev: ExpressionEvaluator) -> ExpressionEvaluator {
    if ev.error is Some {
        ev
    } else {
        ExpressionEvaluator { value: Some(nx.number), ..ev }
    }
}

/// Visiting a binary expression folds its operands: evaluate the left,
/// read the latched value, evaluate the right, read it again, apply the
/// operator, and write both `value` and `result` — or record the error
/// the operation stopped on.
pub open spec fn spec_eval_binary(exprs: Seq<Expression>, b: BinaryExpr, ev: ExpressionEvaluator)
    -> ExpressionEvaluator
    decreases 2 * (if b.left.idx() > b.right.idx() {
        b.left.idx()
    } else {
        b.right.idx()
    }) + 3,
        when 0 <= b.left.idx() < exprs.len() && 0 <= b.right.idx() < exprs.len() && exprs_wf(exprs)
{
    if ev.error is Some {
        ev
    } else {
        let ev1 = spec_eval_expr(exprs, b.left.idx(), ev);
        if ev1.error is Some {
            ev1
        } else {
            match ev1.value {
                None => ev1,
                Some(a) => {
                    let ev2 = spec_eval_expr(exprs, b.right.idx(), ev1);
                    if ev2.error is Some {
                        ev2
                    } else {
                        match ev2.value {
                            None => ev2,
                            Some(bv) => match eval_binop(b.operator.kind, a, bv) {
                                Ok(v) => ExpressionEvaluator {
                                    value: Some(v),
                                    result: Some(v),
                                    error: None,
                                },
                                Err(er) => ExpressionEvaluator { error: Some(er), ..ev2 },
                            },
                        }
                    }
                },
            }
        }
    }
}

/// Visiting a parenthesised expression delegates to its inner expression.
pub open spec fn spec_eval_paren(
    exprs: Seq<Expression>,
    p: ParenthesizedExpr,
    ev: ExpressionEvaluator,
) -> ExpressionEvaluator
    decreases 2 * p.expr.idx() + 3,
        when 0 <= p.expr.idx() < exprs.len() && exprs_wf(exprs)
{
    if ev.error is Some {
        ev
    } else {
        spec_eval_expr(exprs, p.expr.idx(), ev)
    }
}

/// Visiting an assignment expression delegates to its inner expression.
pub open spec fn spec_eval_assign(
    exprs: Seq<Expression>,
    x: AssignExpr,
    ev: ExpressionEvaluator,
) -> ExpressionEvaluator
    decreases 2 * x.expr.idx() + 3,
        when 0 <= x.expr.idx() < exprs.len() && exprs_wf(exprs)
{
    if ev.error is Some {
        ev
    } else {
        spec_eval_expr(exprs, x.expr.idx(), ev)
    }
}

/// The spec-level fold of one statement: a `let` statement evaluates its
/// initializer, an expression statement its expression.
pub open spec fn spec_eval_stmt(
    exprs: Seq<Expression>,
    stmts: Seq<Statement>,
    s: int,
    ev: ExpressionEvaluator,
) -> ExpressionEvaluator {
    if !(0 <= s < stmts.len()) {
        ev
    } else {
        match stmts[s].stmt_kind {
            StatementKind::Expression(eid) => spec_eval_expr(exprs, eid.idx(), ev),
            StatementKind::Let(l) => spec_eval_expr(exprs, l.initializer.idx(), ev),
        }
    }
}

/// The spec-level fold of one item: function items are not evaluated.
pub open spec fn spec_eval_item(
    items: Seq<Item>,
    stmts: Seq<Statement>,
    exprs: Seq<Expression>,
    i: int,
    ev: ExpressionEvaluator,
) -> ExpressionEvaluator {
    if !(0 <= i < items.len()) {
        ev
    } else {
        match items[i].kind {
            ItemKind::Statement(s) => spec_eval_stmt(exprs, stmts, s.idx(), ev),
            ItemKind::Function(_) => ev,
        }
    }
}

/// The spec-level fold of the items from `i` on, in insertion order.
pub open spec fn spec_eval_items(
    items: Seq<Item>,
    stmts: Seq<Statement>,
    exprs: Seq<Expression>,
    i: int,
    ev: ExpressionEvaluator,
) -> ExpressionEvaluator
    decreases items.len() - i,
        when 0 <= i <= items.len()
{
    if i >= items.len() {
        ev
    } else {
        spec_eval_items(items, stmts, exprs, i + 1, spec_eval_item(items, stmts, exprs, i, ev))
    }
}

/// What evaluating a whole tree yields, starting from a fresh evaluator.
pub open spec fn spec_eval_program(
    items: Seq<Item>,
    stmts: Seq<Statement>,
    exprs: Seq<Expression>,
) -> ExpressionEvaluator {
    spec_eval_items(items, stmts, exprs, 0, initial_evaluator())
}

/// An evaluation that finishes without an error always leaves a latched
/// value behind.
pub proof fn lemma_eval_expr_value_some(exprs: Seq<Expression>, e: int, ev: ExpressionEvaluator)
    requires
        exprs_wf(exprs),
        0 <= e < exprs.len(),
        ev.error is None,
    ensures
        spec_eval_expr(exprs, e, ev).error is None ==> spec_eval_expr(exprs, e, ev).value is Some,
    decreases e,
{
    match exprs[e].kind {
        ExpressionKind::Number(nx) => {},
        ExpressionKind::Binary(b) => {
            let ev1 = spec_eval_expr(exprs, b.left.idx(), ev);
            lemma_eval_expr_value_some(exprs, b.left.idx(), ev);
            if ev1.error is None {
                lemma_eval_expr_value_some(exprs, b.right.idx(), ev1);
            }
        },
        ExpressionKind::Parenthesized(p) => {
            lemma_eval_expr_value_some(exprs, p.expr.idx(), ev);
        },
        ExpressionKind::Assignment(x) => {
            lemma_eval_expr_value_some(exprs, x.expr.idx(), ev);
        },
    }
}

/// Left-associativity: `a - b - c` parses with the first subtraction
/// nested on the left, and evaluates to `(a - b) - c` (not `a - (b - c)`)
/// whenever both subtractions stay in range.
pub proof fn lemma_left_associative_subtraction(
    ta: crate::lexer::Token,
    tm1: crate::lexer::Token,
    tb: crate::lexer::Token,
    tm2: crate::lexer::Token,
    tc: crate::lexer::Token,
    teof: crate::lexer::Token,
    a: i64,
    b: i64,
    c: i64,
)
    requires
        ta.kind == crate::lexer::TokenKind::Number(a),
        tm1.kind == crate::lexer::TokenKind::Minus,
        tb.kind == crate::lexer::TokenKind::Number(b),
        tm2.kind == crate::lexer::TokenKind::Minus,
        tc.kind == crate::lexer::TokenKind::Number(c),
        teof.kind == crate::lexer::TokenKind::Eof,
        i64::MIN <= a - b <= i64::MAX,
        i64::MIN <= (a - b) - c <= i64::MAX,
    ensures
        ({
            let t = seq![ta, tm1, tb, tm2, tc, teof];
            let r = crate::parser::spec_parse_items(t, 0, crate::parser::empty_parse_state());
            &&& r matches crate::parser::Parsed::Accept { state, .. }
            &&& state.expressions.len() == 5
            &&& state.expressions[2].kind == ExpressionKind::Binary(
                BinaryExpr {
                    left: crate::arena::ExprId(0),
                    operator: crate::ast::BinOperator {
                        kind: BinOperatorKind::Minus,
                        token: tm1,
                    },
                    right: crate::arena::ExprId(1),
                },
            )
            &&& state.expressions[4].kind == ExpressionKind::Binary(
                BinaryExpr {
                    left: crate::arena::ExprId(2),
                    operator: crate::ast::BinOperator {
                        kind: BinOperatorKind::Minus,
                        token: tm2,
                    },
                    right: crate::arena::ExprId(3),
                },
            )
            &&& spec_eval_program(state.items, state.statements, state.expressions).result
                == Some(((a - b) - c) as i64)
            &&& spec_eval_program(state.items, state.statements, state.expressions).error is None
        }),
{
    let t = seq![ta, tm1, tb, tm2, tc, teof];
    let st0 = crate::parser::empty_parse_state();
    let ex0 = Expression {
        kind: ExpressionKind::Number(NumberExpr { number: a, token: ta }),
        id: crate::arena::ExprId(0),
    };
    let st1 = crate::parser::st_with_expr(st0, ex0);
    assert(crate::parser::spec_parse_primary(t, 0, st0) == (crate::parser::Parsed::Accept {
        state: st1,
        pos: 1int,
        val: crate::arena::ExprId(0),
    }));
    let ex1 = Expression {
        kind: ExpressionKind::Number(NumberExpr { number: b, token: tb }),
        id: crate::arena::ExprId(1),
    };
    let st2 = crate::parser::st_with_expr(st1, ex1);
    assert(crate::parser::spec_parse_primary(t, 2, st1) == (crate::parser::Parsed::Accept {
        state: st2,
        pos: 3int,
        val: crate::arena::ExprId(1),
    }));
    assert(crate::parser::spec_parse_bin_inner(t, 3, st2, crate::arena::ExprId(1), 18) == (
    crate::parser::Parsed::Accept { state: st2, pos: 3int, val: crate::arena::ExprId(1) }));
    let ex2 = Expression {
        kind: ExpressionKind::Binary(
            BinaryExpr {
                left: crate::arena::ExprId(0),
                operator: crate::ast::BinOperator { kind: BinOperatorKind::Minus, token: tm1 },
                right: crate::arena::ExprId(1),
            },
        ),
        id: crate::arena::ExprId(2),
    };
    let st3 = crate::parser::st_with_expr(st2, ex2);
    let ex3 = Expression {
        kind: ExpressionKind::Number(NumberExpr { number: c, token: tc }),
        id: crate::arena::ExprId(3),
    };
    let st4 = crate::parser::st_with_expr(st3, ex3);
    assert(crate::parser::spec_parse_primary(t, 4, st3) == (crate::parser::Parsed::Accept {
        state: st4,
        pos: 5int,
        val: crate::arena::ExprId(3),
    }));
    assert(crate::parser::spec_parse_bin_inner(t, 5, st4, crate::arena::ExprId(3), 18) == (
    crate::parser::Parsed::Accept { state: st4, pos: 5int, val: crate::arena::ExprId(3) }));
    let ex4 = Expression {
        kind: ExpressionKind::Binary(
            BinaryExpr {
                left: crate::arena::ExprId(2),
                operator: crate::ast::BinOperator { kind: BinOperatorKind::Minus, token: tm2 },
                right: crate::arena::ExprId(3),
            },
        ),
        id: crate::arena::ExprId(4),
    };
    let st5 = crate::parser::st_with_expr(st4, ex4);
    assert(crate::parser::spec_parse_bin_outer(t, 5, st5, crate::arena::ExprId(4), 0) == (
    crate::parser::Parsed::Accept { state: st5, pos: 5int, val: crate::arena::ExprId(4) }));
    assert(crate::parser::spec_parse_bin_outer(t, 3, st3, crate::arena::ExprId(2), 0) == (
    crate::parser::Parsed::Accept { state: st5, pos: 5int, val: crate::arena::ExprId(4) }));
    assert(crate::parser::spec_parse_bin_outer(t, 1, st1, crate::arena::ExprId(0), 0) == (
    crate::parser::Parsed::Accept { state: st5, pos: 5int, val: crate::arena::ExprId(4) }));
    assert(crate::parser::spec_parse_binary_expression(t, 0, st0) == (
    crate::parser::Parsed::Accept { state: st5, pos: 5int, val: crate::arena::ExprId(4) }));
    let stmt = Statement {
        id: crate::arena::StmtId(0),
        stmt_kind: StatementKind::Expression(crate::arena::ExprId(4)),
    };
    let st6 = crate::parser::ParseState { statements: st5.statements.push(stmt), ..st5 };
    assert(crate::parser::spec_parse_statement(t, 0, st0) == (crate::parser::Parsed::Accept {
        state: st6,
        pos: 5int,
        val: crate::arena::StmtId(0),
    }));
    let st7 = crate::parser::st_with_item(st6, ItemKind::Statement(crate::arena::StmtId(0)));
    assert(crate::parser::spec_parse_items(t, 5, st7) == (crate::parser::Parsed::Accept {
        state: st7,
        pos: 5int,
        val: (),
    }));
    assert(crate::parser::spec_parse_items(t, 0, st0) == (crate::parser::Parsed::Accept {
        state: st7,
        pos: 5int,
        val: (),
    }));
    let exprs = st7.expressions;
    assert(exprs == st5.expressions);
    assert(exprs_wf(exprs)) by {
        assert forall|i: int| 0 <= i < exprs.len() implies crate::ast::expr_wf(
            #[trigger] exprs[i],
            i,
        ) by {
            assert(exprs[0] == ex0 && exprs[1] == ex1 && exprs[2] == ex2 && exprs[3] == ex3
                && exprs[4] == ex4);
        }
    }
    let init = initial_evaluator();
    let ev_a = ExpressionEvaluator { result: None, value: Some(a), error: None };
    assert(spec_eval_expr(exprs, 0, init) == ev_a);
    let ev_b = ExpressionEvaluator { result: None, value: Some(b), error: None };
    assert(spec_eval_expr(exprs, 1, ev_a) == ev_b);
    let ab = (a - b) as i64;
    let ev_ab = ExpressionEvaluator { result: Some(ab), value: Some(ab), error: None };
    assert(eval_binop(BinOperatorKind::Minus, a, b) == Ok::<i64, EvalError>(ab));
    assert(spec_eval_expr(exprs, 2, init) == ev_ab);
    let ev_c = ExpressionEvaluator { result: Some(ab), value: Some(c), error: None };
    assert(spec_eval_expr(exprs, 3, ev_ab) == ev_c);
    let abc = ((a - b) - c) as i64;
    let ev_abc = ExpressionEvaluator { result: Some(abc), value: Some(abc), error: None };
    assert(eval_binop(BinOperatorKind::Minus, ab, c) == Ok::<i64, EvalError>(abc));
    assert(spec_eval_expr(exprs, 4, init) == ev_abc);
    assert(spec_eval_stmt(exprs, st7.statements, 0, init) == ev_abc);
    assert(spec_eval_item(st7.items, st7.statements, exprs, 0, init) == ev_abc);
    assert(spec_eval_items(st7.items, st7.statements, exprs, 1, ev_abc) == ev_abc);
    assert(spec_eval_items(st7.items, st7.statements, exprs, 0, init) == ev_abc);
}

impl Visitor for ExpressionEvaluator {
    fn visit_item(&mut self, ast: &Ast, item_id: ItemId)
        ensures
            *final(self) == spec_eval_item(
                ast.items_seq(),
                ast.statements_seq(),
                ast.expressions_seq(),
                item_id.idx(),
                *old(self),
            ),
    {
        self.do_visit_item(ast, item_id);
    }

    fn visit_statement(&mut self, ast: &Ast, stmt_id: StmtId)
        ensures
            *final(self) == spec_eval_stmt(
                ast.expressions_seq(),
                ast.statements_seq(),
                stmt_id.idx(),
                *old(self),
            ),
    {
        self.do_visit_statement(ast, stmt_id);
    }

    fn do_visit_item(&mut self, ast: &Ast, item_id: ItemId)
        ensures
            *final(self) == spec_eval_item(
                ast.items_seq(),
                ast.statements_seq(),
                ast.expressions_seq(),
                item_id.idx(),
                *old(self),
            ),
    {
        proof {
            lemma_items_wf(ast);
        }
        let item = ast.query_item(item_id);
        match item.kind {
            ItemKind::Statement(stmt_id) => {
                self.visit_statement(ast, stmt_id);
            },
            ItemKind::Function(_function_id) => {},
        }
    }

    fn do_visit_statement(&mut self, ast: &Ast, stmt_id: StmtId)
        ensures
            *final(self) == spec_eval_stmt(
                ast.expressions_seq(),
                ast.statements_seq(),
                stmt_id.idx(),
                *old(self),
            ),
    {
        proof {
            lemma_stmts_wf(ast);
        }
        let stmt = ast.query_stmt(stmt_id);
        match &stmt.stmt_kind {
            StatementKind::Expression(expr_id) => {
                self.visit_expression(ast, *expr_id);
            },
            StatementKind::Let(l) => {
                self.visit_let_statement(ast, l);
            },
        }
    }

    fn visit_expression(&mut self, ast: &Ast, expr_id: ExprId)
        ensures
            *final(self) == spec_eval_expr(ast.expressions_seq(), expr_id.idx(), *old(self)),
        decreases 2 * expr_id.idx() + 2,
    {
        proof {
            lemma_exprs_wf(ast);
            assert(crate::ast::expr_wf(ast.expressions_seq()[expr_id.idx()], expr_id.idx()));
        }
        if self.error.is_some() {
            return ;
        }
        let expr = ast.query_expr(expr_id);
        match &expr.kind {
            ExpressionKind::Number(number) => {
                self.visit_number(ast, number);
            },
            ExpressionKind::Binary(bin_expr) => {
                self.visit_binary_expression(ast, bin_expr);
            },
            ExpressionKind::Parenthesized(parenthesized_expr) => {
                self.visit_parenthesized_expression(ast, parenthesized_expr);
            },
            ExpressionKind::Assignment(assign_expr) => {
                self.visit_assignment_expression(ast, assign_expr);
            },
        }
    }

    fn visit_let_statement(&mut self, ast: &Ast, stmt: &LetStatement)
        ensures
            *final(self) == spec_eval_expr(
                ast.expressions_seq(),
                stmt.initializer.idx(),
                *old(self),
            ),
    {
        self.visit_expression(ast, stmt.initializer);
    }

    fn visit_number(&mut self, ast: &Ast, number: &NumberExpr)
        ensures
            *final(self) == spec_eval_number(*number, *old(self)),
    {
        if self.error.is_some() {
            return ;
        }
        self.value = Some(number.number);
    }

    fn visit_binary_expression(&mut self, ast: &Ast, bin_expr: &BinaryExpr)
        ensures
            *final(self) == spec_eval_binary(ast.expressions_seq(), *bin_expr, *old(self)),
        decreases 2 * (if bin_expr.left.idx() > bin_expr.right.idx() {
            bin_expr.left.idx()
        } else {
            bin_expr.right.idx()
        }) + 3,
    {
        proof {
            lemma_exprs_wf(ast);
        }
        if self.error.is_some() {
            return ;
        }
        let ghost exprs = ast.expressions_seq();
        let ghost ev0 = *self;
        self.visit_expression(ast, bin_expr.left);
        if self.error.is_some() {
            return ;
        }
        proof {
            lemma_eval_expr_value_some(exprs, bin_expr.left.idx(), ev0);
        }
        let left = self.value.unwrap();
        let ghost ev1 = *self;
        self.visit_expression(ast, bin_expr.right);
        if self.error.is_some() {
            return ;
        }
        proof {
            lemma_eval_expr_value_some(exprs, bin_expr.right.idx(), ev1);
        }
        let right = self.value.unwrap();
        let computed: Result<i64, EvalError> = match bin_expr.operator.kind {
            BinOperatorKind::Plus => match left.checked_add(right) {
                Some(v) => Ok(v),
                None => Err(EvalError::Overflow),
            },
            BinOperatorKind::Minus => match left.checked_sub(right) {
                Some(v) => Ok(v),
                None => Err(EvalError::Overflow),
            },
            BinOperatorKind::Multiply => match left.checked_mul(right) {
                Some(v) => Ok(v),
                None => Err(EvalError::Overflow),
            },
            BinOperatorKind::Divide => if right == 0 {
                Err(EvalError::DivisionByZero)
            } else {
                match left.checked_div(right) {
                    Some(v) => Ok(v),
                    None => Err(EvalError::Overflow),
                }
            },
        };
        match computed {
            Ok(v) => {
                self.value = Some(v);
                self.result = Some(v);
                self.error = None;
            },
            Err(e) => {
                self.error = Some(e);
            },
        }
    }

    fn visit_parenthesized_expression(&mut self, ast: &Ast, parenthesized_expr: &ParenthesizedExpr)
        ensures
            *final(self) == spec_eval_paren(
                ast.expressions_seq(),
                *parenthesized_expr,
                *old(self),
            ),
        decreases 2 * parenthesized_expr.expr.idx() + 3,
    {
        proof {
            lemma_exprs_wf(ast);
        }
        if self.error.is_some() {
            return ;
        }
        self.visit_expression(ast, parenthesized_expr.expr);
    }

    fn visit_assignment_expression(&mut self, ast: &Ast, assign_expr: &AssignExpr)
        ensures
            *final(self) == spec_eval_assign(ast.expressions_seq(), *assign_expr, *old(self)),
        decreases 2 * assign_expr.expr.idx() + 3,
    {
        proof {
            lemma_exprs_wf(ast);
        }
        if self.error.is_some() {
            return ;
        }
        self.visit_expression(ast, assign_expr.expr);
    }
}

impl Ast {
    /// Evaluates the whole tree with a fresh evaluator and hands the
    /// evaluator back. Evaluating the same tree twice yields the same
    /// state: the outcome is a function of the tree alone.
    #[verifier::loop_isolation(false)]
    pub fn evaluate(&self) -> (ev: ExpressionEvaluator)
        requires
            self.wf(),
        ensures
            ev == spec_eval_program(self.items_seq(), self.statements_seq(), self.expressions_seq()),
    {
        let ghost items = self.items_seq();
        let ghost stmts = self.statements_seq();
        let ghost exprs = self.expressions_seq();
        let mut evaluator = ExpressionEvaluator::new();
        let ghost goal = spec_eval_program(items, stmts, exprs);
        let n: usize = self.item_count();
        let mut i: usize = 0;
        while i < n
            invariant
                0 <= i <= n,
                goal == spec_eval_items(items, stmts, exprs, i as int, evaluator),
            decreases n - i,
        {
            evaluator.visit_item(self, ItemId::new(i));
            i = i + 1;
        }
        evaluator
    }
}

} // verus!
