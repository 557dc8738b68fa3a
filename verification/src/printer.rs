//! The printer: a visitor that renders the tree's structure into a text
//! buffer, one labelled line per node, indented by depth. It is a
//! diagnostic aid: the buffer's exact shape carries no semantics, so its
//! methods promise only how the buffer grows, not what the rendering of a
//! whole tree looks like.

use crate::arena::{ExprId, Id, ItemId, StmtId};
use crate::ast::{
    Ast, AssignExpr, BinOperatorKind, BinaryExpr, ExpressionKind, ItemKind, LetStatement,
    NumberExpr, ParenthesizedExpr, StatementKind,
};
use crate::text::push_char;
use crate::visitor::Visitor;
use vstd::prelude::*;
use vstd::string::StringExecFns;

verus! {

/// The decimal rendering of an integer.
fn i64_to_string(n: i64) -> (s: String) {
    let neg = n < 0;
    let mut mag: u64 = if n >= 0 {
        n as u64
    } else {
        ((-(n + 1)) as u64) + 1
    };
    let mut digits: Vec<char> = Vec::new();
    if mag == 0 {
        digits.push('0');
    }
    while mag > 0
        decreases mag,
    {
        let d: u8 = (mag % 10) as u8;
        digits.push((48u8 + d) as char);
        mag = mag / 10;
    }
    let mut s = String::new();
    if neg {
        push_char(&mut s, '-');
    }
    let mut i: usize = digits.len();
    while i > 0
        invariant
            i <= digits@.len(),
        decreases i,
    {
        i = i - 1;
        push_char(&mut s, digits[i]);
    }
    s
}

/// The renderer: the current indentation depth, and the text rendered so
/// far.
pub struct Printer {
    pub indent: usize,
    pub output: String,
}

impl Printer {
    /// The text rendered so far.
    pub open spec fn out(&self) -> Seq<char> {
        self.output@
    }

    /// A printer with nothing rendered yet.
    pub fn new(indent: usize) -> (r: Printer)
        ensures
            r.indent == indent,
            r.out() == Seq::<char>::empty(),
    {
        Printer { indent, output: String::new() }
    }

    /// The rendered text.
    pub fn output(&self) -> (r: &String)
        ensures
            r@ == self.out(),
    {
        &self.output
    }

    /// Renders one line: the current indentation, the text, a line break.
    pub fn print_with_indent(&mut self, text: &str)
        ensures
            final(self).indent == old(self).indent,
            final(self).out() == old(self).out() + Seq::new(
                old(self).indent as nat,
                |i: int| ' ',
            ) + text@ + seq!['\n'],
    {
        let ghost start = self.output@;
        let n: usize = self.indent;
        let mut i: usize = 0;
        while i < n
            invariant
                0 <= i <= n,
                self.indent == n,
                self.output@ == start + Seq::new(i as nat, |j: int| ' '),
            decreases n - i,
        {
            push_char(&mut self.output, ' ');
            i = i + 1;
            proof {
                assert(self.output@ =~= start + Seq::new(i as nat, |j: int| ' '));
            }
        }
        self.output.append(text);
        push_char(&mut self.output, '\n');
        proof {
            assert(self.output@ =~= start + Seq::new(n as nat, |j: int| ' ') + text@ + seq!['\n']);
        }
    }

    /// Renders text without a line break.
    pub fn print_same_line(&mut self, data: &str)
        ensures
            final(self).indent == old(self).indent,
            final(self).out() == old(self).out() + data@,
    {
        self.output.append(data);
    }

    /// Steps one level deeper. At the far end of the range the depth
    /// saturates rather than wrapping.
    fn enter_scope(&mut self)
        ensures
            final(self).out() == old(self).out(),
    {
        if self.indent <= usize::MAX - 2 {
            self.indent = self.indent + 2;
        }
    }

    /// Steps one level back out.
    fn exit_scope(&mut self)
        ensures
            final(self).out() == old(self).out(),
    {
        if self.indent >= 2 {
            self.indent = self.indent - 2;
        }
    }
}

impl Visitor for Printer {
    fn visit_item(&mut self, ast: &Ast, item_id: ItemId) {
        self.do_visit_item(ast, item_id);
    }

    fn visit_statement(&mut self, ast: &Ast, stmt_id: StmtId) {
        self.print_same_line("Statement_start >>>");
        self.enter_scope();
        self.do_visit_statement(ast, stmt_id);
        self.exit_scope();
        self.print_with_indent("Statement_end <<<");
        self.exit_scope();
    }

    fn do_visit_item(&mut self, ast: &Ast, item_id: ItemId) {
        proof {
            crate::ast::lemma_items_wf(ast);
        }
        let item = ast.query_item(item_id);
        match item.kind {
            ItemKind::Statement(stmt_id) => {
                self.visit_statement(ast, stmt_id);
            },
            ItemKind::Function(_function_id) => {
                self.print_with_indent("Function_declaration");
            },
        }
    }

    fn do_visit_statement(&mut self, ast: &Ast, stmt_id: StmtId) {
        proof {
            crate::ast::lemma_stmts_wf(ast);
        }
        let stmt = ast.query_stmt(stmt_id);
        match &stmt.stmt_kind {
            StatementKind::Expression(expr_id) => {
                self.visit_expression(ast, *expr_id);
            },
            StatementKind::Let(l) => {
                self.visit_let_statement(ast, l);
            },
        }
    }

    fn visit_expression(&mut self, ast: &Ast, expr_id: ExprId)
        decreases 2 * expr_id.idx() + 2,
    {
        proof {
            crate::ast::lemma_exprs_wf(ast);
            assert(crate::ast::expr_wf(ast.expressions_seq()[expr_id.idx()], expr_id.idx()));
        }
        let expr = ast.query_expr(expr_id);
        match &expr.kind {
            ExpressionKind::Number(number) => {
                self.visit_number(ast, number);
            },
            ExpressionKind::Binary(bin_expr) => {
                self.visit_binary_expression(ast, bin_expr);
            },
            ExpressionKind::Parenthesized(parenthesized_expr) => {
                self.visit_parenthesized_expression(ast, parenthesized_expr);
            },
            ExpressionKind::Assignment(assign_expr) => {
                self.visit_assignment_expression(ast, assign_expr);
            },
        }
    }

    fn visit_let_statement(&mut self, ast: &Ast, stmt: &LetStatement) {
        self.print_same_line("Let_statement_start >> ");
        self.enter_scope();
        self.print_same_line("Identifier/variable_name > ");
        self.exit_scope();
        self.print_same_line(" ");
        let name = stmt.identifier.span.literal.clone();
        self.print_with_indent(name.as_str());
        self.exit_scope();
        self.print_same_line("Initializer_start {");
        self.visit_expression(ast, stmt.initializer);
        self.print_same_line("Initializer_end < ");
        self.print_same_line("Let_statement_end << ");
        self.exit_scope();
    }

    fn visit_number(&mut self, ast: &Ast, number: &NumberExpr) {
        self.print_with_indent("Number:");
        self.enter_scope();
        let rendered = i64_to_string(number.number);
        self.print_with_indent(rendered.as_str());
        self.exit_scope();
    }

    fn visit_binary_expression(&mut self, ast: &Ast, bin_expr: &BinaryExpr)
        decreases 2 * (if bin_expr.left.idx() > bin_expr.right.idx() {
            bin_expr.left.idx()
        } else {
            bin_expr.right.idx()
        }) + 3,
    {
        self.print_with_indent("binary_expression_start {");
        self.enter_scope();
        self.print_with_indent("Left:");
        self.enter_scope();
        self.visit_expression(ast, bin_expr.left);
        let label = match bin_expr.operator.kind {
            BinOperatorKind::Plus => "Operator: Plus",
            BinOperatorKind::Minus => "Operator: Minus",
            BinOperatorKind::Multiply => "Operator: Multiply",
            BinOperatorKind::Divide => "Operator: Divide",
        };
        self.print_with_indent(label);
        self.exit_scope();
        self.print_with_indent("Right:");
        self.enter_scope();
        self.visit_expression(ast, bin_expr.right);
        self.exit_scope();
        self.print_with_indent("binary_expression_end }");
        self.exit_scope();
    }

    fn visit_parenthesized_expression(&mut self, ast: &Ast, parenthesized_expr: &ParenthesizedExpr)
        decreases 2 * parenthesized_expr.expr.idx() + 3,
    {
        self.print_with_indent("parenthesized_expression_start {");
        self.enter_scope();
        self.visit_expression(ast, parenthesized_expr.expr);
        self.exit_scope();
        self.print_with_indent("parenthesized_expression_end}");
        self.exit_scope();
    }

    fn visit_assignment_expression(&mut self, ast: &Ast, assign_expr: &AssignExpr)
        decreases 2 * assign_expr.expr.idx() + 3,
    {
        self.print_with_indent("assignment_expression_start {");
        self.enter_scope();
        self.visit_expression(ast, assign_expr.expr);
        self.exit_scope();
        self.print_with_indent("assignment_expression_end }");
        self.exit_scope();
    }
}

impl Ast {
    /// Renders the whole tree with a fresh printer and hands the text
    /// back.
    pub fn visualize(&self) -> (r: String)
        requires
            self.wf(),
    {
        let mut printer = Printer::new(0);
        self.visit(&mut printer);
        printer.output().clone()
    }
}

} // verus!
