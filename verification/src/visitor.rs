//! The visitor contract: one method per node category, dispatching over
//! item, statement and expression variants. Concrete visitors supply the
//! behaviour per category; the conventional shape is for the dispatch
//! methods to descend recursively into children, which the strictly
//! decreasing child handles of a well-formed tree make terminating.

use crate::arena::{Id, ItemId, StmtId, ExprId};
use crate::ast::{
    Ast, AssignExpr, BinaryExpr, LetStatement, NumberExpr, ParenthesizedExpr,
};
use vstd::prelude::*;

verus! {

/// A polymorphic traversal over a well-formed tree. Every method may
/// rely on the tree invariant and on the handles it is given being live.
pub trait Visitor: Sized {
    /// Visits a top-level item.
    fn visit_item(&mut self, ast: &Ast, item_id: ItemId)
        requires
            ast.wf(),
            0 <= item_id.idx() < ast.items_seq().len(),
    ;

    /// Visits a statement.
    fn visit_statement(&mut self, ast: &Ast, stmt_id: StmtId)
        requires
            ast.wf(),
            0 <= stmt_id.idx() < ast.statements_seq().len(),
    ;

    /// Dispatches over the kinds of an item.
    fn do_visit_item(&mut self, ast: &Ast, item_id: ItemId)
        requires
            ast.wf(),
            0 <= item_id.idx() < ast.items_seq().len(),
    ;

    /// Dispatches over the kinds of a statement.
    fn do_visit_statement(&mut self, ast: &Ast, stmt_id: StmtId)
        requires
            ast.wf(),
            0 <= stmt_id.idx() < ast.statements_seq().len(),
    ;

    /// Visits an expression.
    fn visit_expression(&mut self, ast: &Ast, expr_id: ExprId)
        requires
            ast.wf(),
            0 <= expr_id.idx() < ast.expressions_seq().len(),
    ;

    /// Visits a `let` statement.
    fn visit_let_statement(&mut self, ast: &Ast, stmt: &LetStatement)
        requires
            ast.wf(),
            0 <= stmt.initializer.idx() < ast.expressions_seq().len(),
    ;

    /// Visits a number literal.
    fn visit_number(&mut self, ast: &Ast, number: &NumberExpr)
        requires
            ast.wf(),
    ;

    /// Visits a binary expression.
    fn visit_binary_expression(&mut self, ast: &Ast, bin_expr: &BinaryExpr)
        requires
            ast.wf(),
            0 <= bin_expr.left.idx() < ast.expressions_seq().len(),
            0 <= bin_expr.right.idx() < ast.expressions_seq().len(),
    ;

    /// Visits a parenthesised expression.
    fn visit_parenthesized_expression(&mut self, ast: &Ast, parenthesized_expr: &ParenthesizedExpr)
        requires
            ast.wf(),
            0 <= parenthesized_expr.expr.idx() < ast.expressions_seq().len(),
    ;

    /// Visits an assignment expression.
    fn visit_assignment_expression(&mut self, ast: &Ast, assign_expr: &AssignExpr)
        requires
            ast.wf(),
            0 <= assign_expr.expr.idx() < ast.expressions_seq().len(),
    ;
}

} // verus!
