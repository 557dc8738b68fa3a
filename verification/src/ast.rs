//! The abstract syntax tree: node types, and the `Ast` that owns them.
//!
//! The tree is stored in four parallel append-only arenas (items,
//! statements, expressions, functions); nodes refer to each other only
//! through typed handles, never by embedded ownership. Children are pushed
//! before their parents, so every handle stored in an expression node is
//! strictly smaller than the node's own handle and cycles are structurally
//! impossible.

use crate::arena::{ExprId, FunctionId, Id, IdVec, ItemId, StmtId};
use crate::lexer::Token;
use vstd::prelude::*;

verus! {

/// What a top-level item is: a statement, or a function declaration.
#[derive(Debug, Clone, Copy)]
pub enum ItemKind {
    Statement(StmtId),
    Function(FunctionId),
}

/// A top-level item, carrying its own handle.
#[derive(Debug, Clone, Copy)]
pub struct Item {
    pub kind: ItemKind,
    pub id: ItemId,
}

impl Item {
    pub fn new(kind: ItemKind, id: ItemId) -> (r: Item)
        ensures
            r.kind == kind,
            r.id == id,
    {
        Item { kind, id }
    }
}

/// One declared parameter of a function.
#[derive(Debug)]
pub struct Parameter {
    pub identifier: Token,
}

impl Parameter {
    pub fn new(identifier: Token) -> (r: Parameter)
        ensures
            r.identifier == identifier,
    {
        Parameter { identifier }
    }
}

/// A function body: the statements between its braces.
#[derive(Debug)]
pub struct Body {
    pub open_brace: Token,
    pub statements: Vec<StmtId>,
    pub close_brace: Token,
}

impl Body {
    pub fn new(open_brace: Token, statements: Vec<StmtId>, close_brace: Token) -> (r: Body)
        ensures
            r.open_brace == open_brace,
            r.statements == statements,
            r.close_brace == close_brace,
    {
        Body { open_brace, statements, close_brace }
    }
}

/// A function declaration: name, parameter list, and body.
#[derive(Debug)]
pub struct Function {
    pub name: String,
    pub open_paren: Token,
    pub parameters: Vec<Parameter>,
    pub close_paren: Token,
    pub body: Body,
}

impl Function {
    pub fn new(
        name: String,
        open_paren: Token,
        close_paren: Token,
        parameters: Vec<Parameter>,
        body: Body,
    ) -> (r: Function)
        ensures
            r.name == name,
            r.open_paren == open_paren,
            r.close_paren == close_paren,
            r.parameters == parameters,
            r.body == body,
    {
        Function { name, open_paren, parameters, close_paren, body }
    }
}

/// A `let` declaration: its identifier token and the handle of its
/// initializer expression.
#[derive(Debug)]
pub struct LetStatement {
    pub identifier: Token,
    pub initializer: ExprId,
}

/// What a statement is.
#[derive(Debug)]
pub enum StatementKind {
    Let(LetStatement),
    Expression(ExprId),
}

/// A statement, carrying its own handle.
#[derive(Debug)]
pub struct Statement {
    pub id: StmtId,
    pub stmt_kind: StatementKind,
}

impl Statement {
    pub fn new(kind: StatementKind, id: StmtId) -> (r: Statement)
        ensures
            r.stmt_kind == kind,
            r.id == id,
    {
        Statement { stmt_kind: kind, id }
    }
}

/// A number literal, carrying its parsed value and its token.
#[derive(Debug)]
pub struct NumberExpr {
    pub number: i64,
    pub token: Token,
}

/// The kind of a binary operator.
#[derive(Debug, Clone, Copy, PartialEq, Eq, Structural)]
pub enum BinOperatorKind {
    Plus,
    Minus,
    Multiply,
    Divide,
}

/// Whether an operator groups to the left or to the right.
#[derive(Debug, Clone, Copy, PartialEq, Eq, Structural)]
pub enum BinOperatorAssiciativity {
    Left,
    Right,
}

/// A binary operator: its kind and the token it was read from.
#[derive(Debug)]
pub struct BinOperator {
    pub kind: BinOperatorKind,
    pub token: Token,
}

/// The binding strength of an operator: `*` and `/` bind tighter than `+`
/// and `-`.
pub open spec fn precedence_of(k: BinOperatorKind) -> u8 {
    match k {
        BinOperatorKind::Multiply => 19,
        BinOperatorKind::Divide => 19,
        BinOperatorKind::Plus => 18,
        BinOperatorKind::Minus => 18,
    }
}

impl BinOperator {
    pub fn new(kind: BinOperatorKind, token: Token) -> (r: BinOperator)
        ensures
            r.kind == kind,
            r.token == token,
    {
        BinOperator { kind, token }
    }

    /// The operator's binding strength.
    pub fn precedence(&self) -> (r: u8)
        ensures
            r == precedence_of(self.kind),
    {
        match self.kind {
            BinOperatorKind::Multiply => 19,
            BinOperatorKind::Divide => 19,
            BinOperatorKind::Plus => 18,
            BinOperatorKind::Minus => 18,
        }
    }

    /// How the operator groups. All four operators group to the left.
    pub fn assicativity(&self) -> (r: BinOperatorAssiciativity)
        ensures
            r == BinOperatorAssiciativity::Left,
    {
        BinOperatorAssiciativity::Left
    }
}

/// A binary expression: handles of its operands, and its operator.
#[derive(Debug)]
pub struct BinaryExpr {
    pub left: ExprId,
    pub operator: BinOperator,
    pub right: ExprId,
}

impl BinaryExpr {
    pub fn new(left: ExprId, operator: BinOperator, right: ExprId) -> (r: BinaryExpr)
        ensures
            r.left == left,
            r.operator == operator,
            r.right == right,
    {
        BinaryExpr { left, operator, right }
    }
}

/// A parenthesised sub-expression.
#[derive(Debug)]
pub struct ParenthesizedExpr {
    pub open_paren: Token,
    pub expr: ExprId,
    pub close_paren: Token,
}

impl ParenthesizedExpr {
    pub fn new(open_paren: Token, expr: ExprId, close_paren: Token) -> (r: ParenthesizedExpr)
        ensures
            r.open_paren == open_paren,
            r.expr == expr,
            r.close_paren == close_paren,
    {
        ParenthesizedExpr { open_paren, expr, close_paren }
    }
}

/// The right-hand side of a `let`, kept as an expression of its own.
#[derive(Debug)]
pub struct AssignExpr {
    pub let_keyword: Token,
    pub equals: Token,
    pub expr: ExprId,
}

impl AssignExpr {
    pub fn new(let_keyword: Token, expr: ExprId, equals: Token) -> (r: AssignExpr)
        ensures
            r.let_keyword == let_keyword,
            r.equals == equals,
            r.expr == expr,
    {
        AssignExpr { let_keyword, equals, expr }
    }
}

/// What an expression is.
#[derive(Debug)]
pub enum ExpressionKind {
    Number(NumberExpr),
    Binary(BinaryExpr),
    Parenthesized(ParenthesizedExpr),
    Assignment(AssignExpr),
}

/// An expression, carrying its own handle.
#[derive(Debug)]
pub struct Expression {
    pub kind: ExpressionKind,
    pub id: ExprId,
}

impl Expression {
    pub fn new(kind: ExpressionKind, id: ExprId) -> (r: Expression)
        ensures
            r.kind == kind,
            r.id == id,
    {
        Expression { kind, id }
    }
}

/// The abstract contents of an `Ast`: its four arenas as sequences.
pub struct AstSnap {
    pub items: Seq<Item>,
    pub statements: Seq<Statement>,
    pub expressions: Seq<Expression>,
    pub functions: Seq<Function>,
}

/// Well-formedness of an item at index `i`: its self-id is `i` and the
/// handle it carries indexes an existing node.
pub open spec fn item_wf(it: Item, i: int, n_stmts: int, n_funcs: int) -> bool {
    &&& it.id.idx() == i
    &&& match it.kind {
        ItemKind::Statement(s) => 0 <= s.idx() < n_stmts,
        ItemKind::Function(f) => 0 <= f.idx() < n_funcs,
    }
}

/// Well-formedness of a statement kind: the expression handles it carries
/// index existing expression nodes.
pub open spec fn stmt_kind_wf(kind: StatementKind, n_exprs: int) -> bool {
    match kind {
        StatementKind::Let(l) => 0 <= l.initializer.idx() < n_exprs,
        StatementKind::Expression(e) => 0 <= e.idx() < n_exprs,
    }
}

/// Well-formedness of a statement at index `i`.
pub open spec fn stmt_wf(st: Statement, i: int, n_exprs: int) -> bool {
    &&& st.id.idx() == i
    &&& stmt_kind_wf(st.stmt_kind, n_exprs)
}

/// Well-formedness of an expression kind pushed at index `i`: the children
/// were pushed strictly before it.
pub open spec fn expr_kind_wf(kind: ExpressionKind, i: int) -> bool {
    match kind {
        ExpressionKind::Number(_) => true,
        ExpressionKind::Binary(b) => 0 <= b.left.idx() < i && 0 <= b.right.idx() < i,
        ExpressionKind::Parenthesized(p) => 0 <= p.expr.idx() < i,
        ExpressionKind::Assignment(a) => 0 <= a.expr.idx() < i,
    }
}

/// Well-formedness of an expression at index `i`.
pub open spec fn expr_wf(ex: Expression, i: int) -> bool {
    &&& ex.id.idx() == i
    &&& expr_kind_wf(ex.kind, i)
}

/// Well-formedness of a function node: every statement handle of its body
/// indexes an existing statement.
pub open spec fn function_wf(f: Function, n_stmts: int) -> bool {
    forall|j: int|
        0 <= j < f.body.statements@.len() ==> 0 <= (#[trigger] f.body.statements@[j]).idx()
            < n_stmts
}

/// Well-formedness of a whole tree: every node's self-id equals its index,
/// every stored handle indexes an existing node, and expression children
/// strictly precede their parents.
pub open spec fn snap_wf(s: AstSnap) -> bool {
    &&& forall|i: int|
        0 <= i < s.items.len() ==> item_wf(
            #[trigger] s.items[i],
            i,
            s.statements.len() as int,
            s.functions.len() as int,
        )
    &&& forall|i: int|
        0 <= i < s.statements.len() ==> stmt_wf(
            #[trigger] s.statements[i],
            i,
            s.expressions.len() as int,
        )
    &&& forall|i: int| 0 <= i < s.expressions.len() ==> expr_wf(#[trigger] s.expressions[i], i)
    &&& forall|i: int|
        0 <= i < s.functions.len() ==> function_wf(
            #[trigger] s.functions[i],
            s.statements.len() as int,
        )
}

/// Pushing a well-formed item onto a well-formed tree keeps it well
/// formed.
proof fn lemma_snap_wf_push_item(olds: AstSnap, news: AstSnap, it: Item)
    requires
        snap_wf(olds),
        news.items == olds.items.push(it),
        news.statements == olds.statements,
        news.expressions == olds.expressions,
        news.functions == olds.functions,
        item_wf(it, olds.items.len() as int, olds.statements.len() as int, olds.functions.len() as int),
    ensures
        snap_wf(news),
{
    assert forall|i: int| 0 <= i < news.items.len() implies item_wf(
        #[trigger] news.items[i],
        i,
        news.statements.len() as int,
        news.functions.len() as int,
    ) by {
        if i < olds.items.len() {
            assert(news.items[i] == olds.items[i]);
            assert(item_wf(olds.items[i], i, olds.statements.len() as int, olds.functions.len() as int));
        } else {
            assert(news.items[i] == it);
        }
    }
}

/// Pushing a well-formed statement onto a well-formed tree keeps it well
/// formed.
proof fn lemma_snap_wf_push_stmt(olds: AstSnap, news: AstSnap, st: Statement)
    requires
        snap_wf(olds),
        news.statements == olds.statements.push(st),
        news.items == olds.items,
        news.expressions == olds.expressions,
        news.functions == olds.functions,
        stmt_wf(st, olds.statements.len() as int, olds.expressions.len() as int),
    ensures
        snap_wf(news),
{
    assert forall|i: int| 0 <= i < news.statements.len() implies stmt_wf(
        #[trigger] news.statements[i],
        i,
        news.expressions.len() as int,
    ) by {
        if i < olds.statements.len() {
            assert(news.statements[i] == olds.statements[i]);
            assert(stmt_wf(olds.statements[i], i, olds.expressions.len() as int));
        } else {
            assert(news.statements[i] == st);
        }
    }
    assert forall|i: int| 0 <= i < news.items.len() implies item_wf(
        #[trigger] news.items[i],
        i,
        news.statements.len() as int,
        news.functions.len() as int,
    ) by {
        assert(item_wf(olds.items[i], i, olds.statements.len() as int, olds.functions.len() as int));
    }
    assert forall|i: int| 0 <= i < news.functions.len() implies function_wf(
        #[trigger] news.functions[i],
        news.statements.len() as int,
    ) by {
        assert(function_wf(olds.functions[i], olds.statements.len() as int));
    }
}

/// Pushing a well-formed expression onto a well-formed tree keeps it well
/// formed.
proof fn lemma_snap_wf_push_expr(olds: AstSnap, news: AstSnap, ex: Expression)
    requires
        snap_wf(olds),
        news.expressions == olds.expressions.push(ex),
        news.items == olds.items,
        news.statements == olds.statements,
        news.functions == olds.functions,
        expr_wf(ex, olds.expressions.len() as int),
    ensures
        snap_wf(news),
{
    assert forall|i: int| 0 <= i < news.expressions.len() implies expr_wf(
        #[trigger] news.expressions[i],
        i,
    ) by {
        if i < olds.expressions.len() {
            assert(news.expressions[i] == olds.expressions[i]);
            assert(expr_wf(olds.expressions[i], i));
        } else {
            assert(news.expressions[i] == ex);
        }
    }
    assert forall|i: int| 0 <= i < news.statements.len() implies stmt_wf(
        #[trigger] news.statements[i],
        i,
        news.expressions.len() as int,
    ) by {
        assert(stmt_wf(olds.statements[i], i, olds.expressions.len() as int));
    }
}

/// Pushing a well-formed function node onto a well-formed tree keeps it
/// well formed.
proof fn lemma_snap_wf_push_function(olds: AstSnap, news: AstSnap, f: Function)
    requires
        snap_wf(olds),
        news.functions == olds.functions.push(f),
        news.items == olds.items,
        news.statements == olds.statements,
        news.expressions == olds.expressions,
        function_wf(f, olds.statements.len() as int),
    ensures
        snap_wf(news),
{
    assert forall|i: int| 0 <= i < news.functions.len() implies function_wf(
        #[trigger] news.functions[i],
        news.statements.len() as int,
    ) by {
        if i < olds.functions.len() {
            assert(news.functions[i] == olds.functions[i]);
            assert(function_wf(olds.functions[i], olds.statements.len() as int));
        } else {
            assert(news.functions[i] == f);
        }
    }
    assert forall|i: int| 0 <= i < news.items.len() implies item_wf(
        #[trigger] news.items[i],
        i,
        news.statements.len() as int,
        news.functions.len() as int,
    ) by {
        assert(item_wf(olds.items[i], i, olds.statements.len() as int, olds.functions.len() as int));
    }
}

/// The syntax tree: four parallel arenas, one per node category.
pub struct Ast {
    items: IdVec<ItemId, Item>,
    statements: IdVec<StmtId, Statement>,
    expressions: IdVec<ExprId, Expression>,
    functions: IdVec<FunctionId, Function>,
}

impl Ast {
    /// The item arena as a sequence.
    pub closed spec fn items_seq(&self) -> Seq<Item> {
        self.items@
    }

    /// The statement arena as a sequence.
    pub closed spec fn statements_seq(&self) -> Seq<Statement> {
        self.statements@
    }

    /// The expression arena as a sequence.
    pub closed spec fn expressions_seq(&self) -> Seq<Expression> {
        self.expressions@
    }

    /// The function arena as a sequence.
    pub closed spec fn functions_seq(&self) -> Seq<Function> {
        self.functions@
    }

    /// The abstract contents of the whole tree.
    pub open spec fn snap(&self) -> AstSnap {
        AstSnap {
            items: self.items_seq(),
            statements: self.statements_seq(),
            expressions: self.expressions_seq(),
            functions: self.functions_seq(),
        }
    }

    /// The tree invariant; see `snap_wf`.
    pub open spec fn wf(&self) -> bool {
        snap_wf(self.snap())
    }

    /// An empty tree.
    pub fn new() -> (r: Ast)
        ensures
            r.items_seq() == Seq::<Item>::empty(),
            r.statements_seq() == Seq::<Statement>::empty(),
            r.expressions_seq() == Seq::<Expression>::empty(),
            r.functions_seq() == Seq::<Function>::empty(),
            r.wf(),
    {
        Ast {
            items: IdVec::new(),
            statements: IdVec::new(),
            expressions: IdVec::new(),
            functions: IdVec::new(),
        }
    }

    /// Resolves an item handle.
    pub fn query_item(&self, item_id: ItemId) -> (r: &Item)
        requires
            0 <= item_id.idx() < self.items_seq().len(),
        ensures
            *r == self.items_seq()[item_id.idx()],
    {
        self.items.get(item_id)
    }

    /// Resolves a statement handle.
    pub fn query_stmt(&self, stmt_id: StmtId) -> (r: &Statement)
        requires
            0 <= stmt_id.idx() < self.statements_seq().len(),
        ensures
            *r == self.statements_seq()[stmt_id.idx()],
    {
        self.statements.get(stmt_id)
    }

    /// Resolves an expression handle.
    pub fn query_expr(&self, expr_id: ExprId) -> (r: &Expression)
        requires
            0 <= expr_id.idx() < self.expressions_seq().len(),
        ensures
            *r == self.expressions_seq()[expr_id.idx()],
    {
        self.expressions.get(expr_id)
    }

    /// Resolves a function handle.
    pub fn query_function(&self, function_id: FunctionId) -> (r: &Function)
        requires
            0 <= function_id.idx() < self.functions_seq().len(),
        ensures
            *r == self.functions_seq()[function_id.idx()],
    {
        self.functions.get(function_id)
    }

    /// The number of items pushed so far.
    pub fn item_count(&self) -> (r: usize)
        ensures
            r == self.items_seq().len(),
    {
        self.items.len()
    }

    /// The number of statements pushed so far.
    pub fn statement_count(&self) -> (r: usize)
        ensures
            r == self.statements_seq().len(),
    {
        self.statements.len()
    }

    /// The number of expressions pushed so far.
    pub fn expression_count(&self) -> (r: usize)
        ensures
            r == self.expressions_seq().len(),
    {
        self.expressions.len()
    }

    /// The number of function nodes pushed so far.
    pub fn function_count(&self) -> (r: usize)
        ensures
            r == self.functions_seq().len(),
    {
        self.functions.len()
    }

    /// Wraps a statement in a top-level item and appends it.
    pub fn item_from_stmt_id(&mut self, stmt_id: StmtId) -> (r: &Item)
        requires
            old(self).wf(),
            0 <= stmt_id.idx() < old(self).statements_seq().len(),
        ensures
            final(self).wf(),
            *r == (Item {
                kind: ItemKind::Statement(stmt_id),
                id: ItemId(old(self).items_seq().len() as usize),
            }),
            final(self).items_seq() == old(self).items_seq().push(*r),
            final(self).statements_seq() == old(self).statements_seq(),
            final(self).expressions_seq() == old(self).expressions_seq(),
            final(self).functions_seq() == old(self).functions_seq(),
    {
        let kind = ItemKind::Statement(stmt_id);
        let next: usize = self.items.len();
        let item = Item::new(kind, ItemId::new(next));
        let id = self.items.push(item);
        proof {
            lemma_snap_wf_push_item(old(self).snap(), self.snap(), item);
        }
        self.items.get(id)
    }

    /// Wraps a function in a top-level item and appends it.
    pub fn item_from_function_id(&mut self, function_id: FunctionId) -> (r: &Item)
        requires
            old(self).wf(),
            0 <= function_id.idx() < old(self).functions_seq().len(),
        ensures
            final(self).wf(),
            *r == (Item {
                kind: ItemKind::Function(function_id),
                id: ItemId(old(self).items_seq().len() as usize),
            }),
            final(self).items_seq() == old(self).items_seq().push(*r),
            final(self).statements_seq() == old(self).statements_seq(),
            final(self).expressions_seq() == old(self).expressions_seq(),
            final(self).functions_seq() == old(self).functions_seq(),
    {
        let item_kind = ItemKind::Function(function_id);
        let next: usize = self.items.len();
        let new_item = Item::new(item_kind, ItemId::new(next));
        let item_id = self.items.push(new_item);
        proof {
            lemma_snap_wf_push_item(old(self).snap(), self.snap(), new_item);
        }
        self.items.get(item_id)
    }

    /// Appends a statement of the given kind, with its handle as self-id.
    pub fn stmt_from_stmt_kind(&mut self, kind: StatementKind) -> (r: &Statement)
        requires
            old(self).wf(),
            stmt_kind_wf(kind, old(self).expressions_seq().len() as int),
        ensures
            final(self).wf(),
            r.id == StmtId(old(self).statements_seq().len() as usize),
            r.stmt_kind == kind,
            final(self).statements_seq() == old(self).statements_seq().push(*r),
            final(self).items_seq() == old(self).items_seq(),
            final(self).expressions_seq() == old(self).expressions_seq(),
            final(self).functions_seq() == old(self).functions_seq(),
    {
        let next: usize = self.statements.len();
        let stmt = Statement::new(kind, StmtId::new(next));
        let ghost stmt_g = stmt;
        let id = self.statements.push(stmt);
        proof {
            lemma_snap_wf_push_stmt(old(self).snap(), self.snap(), stmt_g);
        }
        self.statements.get(id)
    }

    /// Appends a function node and returns its handle.
    pub fn save_function(
        &mut self,
        name: String,
        open_paren: Token,
        close_paren: Token,
        parameters: Vec<Parameter>,
        body: Body,
    ) -> (r: FunctionId)
        requires
            old(self).wf(),
            function_wf(
                Function { name: name, open_paren: open_paren, parameters: parameters, close_paren: close_paren, body: body },
                old(self).statements_seq().len() as int,
            ),
        ensures
            final(self).wf(),
            r.idx() == old(self).functions_seq().len(),
            final(self).functions_seq() == old(self).functions_seq().push(
                Function { name: name, open_paren: open_paren, parameters: parameters, close_paren: close_paren, body: body },
            ),
            final(self).items_seq() == old(self).items_seq(),
            final(self).statements_seq() == old(self).statements_seq(),
            final(self).expressions_seq() == old(self).expressions_seq(),
    {
        let function = Function::new(name, open_paren, close_paren, parameters, body);
        let ghost function_g = function;
        let r = self.functions.push(function);
        proof {
            lemma_snap_wf_push_function(old(self).snap(), self.snap(), function_g);
        }
        r
    }

    /// Appends a statement that just evaluates an expression.
    pub fn save_expression_statement(&mut self, expr_id: ExprId) -> (r: &Statement)
        requires
            old(self).wf(),
            0 <= expr_id.idx() < old(self).expressions_seq().len(),
        ensures
            final(self).wf(),
            r.id == StmtId(old(self).statements_seq().len() as usize),
            r.stmt_kind == StatementKind::Expression(expr_id),
            final(self).statements_seq() == old(self).statements_seq().push(*r),
            final(self).items_seq() == old(self).items_seq(),
            final(self).expressions_seq() == old(self).expressions_seq(),
            final(self).functions_seq() == old(self).functions_seq(),
    {
        self.stmt_from_stmt_kind(StatementKind::Expression(expr_id))
    }

    /// Appends a `let` statement node.
    pub fn save_let_statement(&mut self, identifier: Token, initializer: ExprId) -> (r: &Statement)
        requires
            old(self).wf(),
            0 <= initializer.idx() < old(self).expressions_seq().len(),
        ensures
            final(self).wf(),
            r.id == StmtId(old(self).statements_seq().len() as usize),
            r.stmt_kind == StatementKind::Let(
                LetStatement { identifier: identifier, initializer: initializer },
            ),
            final(self).statements_seq() == old(self).statements_seq().push(*r),
            final(self).items_seq() == old(self).items_seq(),
            final(self).expressions_seq() == old(self).expressions_seq(),
            final(self).functions_seq() == old(self).functions_seq(),
    {
        self.stmt_from_stmt_kind(StatementKind::Let(LetStatement { identifier, initializer }))
    }

    /// Appends an expression of the given kind, with its handle as self-id.
    pub fn expr_from_kind(&mut self, kind: ExpressionKind) -> (r: &Expression)
        requires
            old(self).wf(),
            expr_kind_wf(kind, old(self).expressions_seq().len() as int),
        ensures
            final(self).wf(),
            r.id == ExprId(old(self).expressions_seq().len() as usize),
            r.kind == kind,
            final(self).expressions_seq() == old(self).expressions_seq().push(*r),
            final(self).items_seq() == old(self).items_seq(),
            final(self).statements_seq() == old(self).statements_seq(),
            final(self).functions_seq() == old(self).functions_seq(),
    {
        let next: usize = self.expressions.len();
        let expression = Expression::new(kind, ExprId::new(next));
        let ghost expression_g = expression;
        let expr_id = self.expressions.push(expression);
        proof {
            lemma_snap_wf_push_expr(old(self).snap(), self.snap(), expression_g);
        }
        self.expressions.get(expr_id)
    }

    /// Appends a number literal node.
    pub fn save_number_expression(&mut self, token: Token, number: i64) -> (r: &Expression)
        requires
            old(self).wf(),
        ensures
            final(self).wf(),
            r.id == ExprId(old(self).expressions_seq().len() as usize),
            r.kind == ExpressionKind::Number(NumberExpr { number: number, token: token }),
            final(self).expressions_seq() == old(self).expressions_seq().push(*r),
            final(self).items_seq() == old(self).items_seq(),
            final(self).statements_seq() == old(self).statements_seq(),
            final(self).functions_seq() == old(self).functions_seq(),
    {
        self.expr_from_kind(ExpressionKind::Number(NumberExpr { number, token }))
    }

    /// Appends a binary expression node over two already-pushed operands.
    pub fn save_binary_expression(
        &mut self,
        operator: BinOperator,
        left: ExprId,
        right: ExprId,
    ) -> (r: &Expression)
        requires
            old(self).wf(),
            0 <= left.idx() < old(self).expressions_seq().len(),
            0 <= right.idx() < old(self).expressions_seq().len(),
        ensures
            final(self).wf(),
            r.id == ExprId(old(self).expressions_seq().len() as usize),
            r.kind == ExpressionKind::Binary(
                BinaryExpr { left: left, operator: operator, right: right },
            ),
            final(self).expressions_seq() == old(self).expressions_seq().push(*r),
            final(self).items_seq() == old(self).items_seq(),
            final(self).statements_seq() == old(self).statements_seq(),
            final(self).functions_seq() == old(self).functions_seq(),
    {
        self.expr_from_kind(ExpressionKind::Binary(BinaryExpr { left, operator, right }))
    }

    /// Appends a parenthesised expression node around an already-pushed
    /// inner expression.
    pub fn save_parenthesized_expression(
        &mut self,
        expr_id: ExprId,
        open_paren: Token,
        close_paren: Token,
    ) -> (r: &Expression)
        requires
            old(self).wf(),
            0 <= expr_id.idx() < old(self).expressions_seq().len(),
        ensures
            final(self).wf(),
            r.id == ExprId(old(self).expressions_seq().len() as usize),
            r.kind == ExpressionKind::Parenthesized(
                ParenthesizedExpr { open_paren: open_paren, expr: expr_id, close_paren: close_paren },
            ),
            final(self).expressions_seq() == old(self).expressions_seq().push(*r),
            final(self).items_seq() == old(self).items_seq(),
            final(self).statements_seq() == old(self).statements_seq(),
            final(self).functions_seq() == old(self).functions_seq(),
    {
        self.expr_from_kind(
            ExpressionKind::Parenthesized(
                ParenthesizedExpr { open_paren, expr: expr_id, close_paren },
            ),
        )
    }

    /// Appends an assignment expression node.
    pub fn save_assignment_expression(
        &mut self,
        equals: Token,
        let_keyword: Token,
        expr: ExprId,
    ) -> (r: &Expression)
        requires
            old(self).wf(),
            0 <= expr.idx() < old(self).expressions_seq().len(),
        ensures
            final(self).wf(),
            r.id == ExprId(old(self).expressions_seq().len() as usize),
            r.kind == ExpressionKind::Assignment(
                AssignExpr { let_keyword: let_keyword, equals: equals, expr: expr },
            ),
            final(self).expressions_seq() == old(self).expressions_seq().push(*r),
            final(self).items_seq() == old(self).items_seq(),
            final(self).statements_seq() == old(self).statements_seq(),
            final(self).functions_seq() == old(self).functions_seq(),
    {
        self.expr_from_kind(ExpressionKind::Assignment(AssignExpr { let_keyword, equals, expr }))
    }
}

impl Ast {
    /// Walks every top-level item, in insertion order, handing each to
    /// the visitor.
    pub fn visit<V: crate::visitor::Visitor>(&self, visitor: &mut V)
        requires
            self.wf(),
    {
        let n: usize = self.item_count();
        let mut i: usize = 0;
        while i < n
            invariant
                self.wf(),
                n == self.items_seq().len(),
                0 <= i <= n,
            decreases n - i,
        {
            visitor.visit_item(self, ItemId::new(i));
            i = i + 1;
        }
    }
}

/// In a well-formed tree every item node is well formed at its own index.
pub proof fn lemma_items_wf(ast: &Ast)
    requires
        ast.wf(),
    ensures
        forall|i: int|
            0 <= i < ast.items_seq().len() ==> item_wf(
                #[trigger] ast.items_seq()[i],
                i,
                ast.statements_seq().len() as int,
                ast.functions_seq().len() as int,
            ),
{
    let s = ast.snap();
    assert forall|i: int| 0 <= i < ast.items_seq().len() implies item_wf(
        #[trigger] ast.items_seq()[i],
        i,
        ast.statements_seq().len() as int,
        ast.functions_seq().len() as int,
    ) by {
        assert(item_wf(s.items[i], i, s.statements.len() as int, s.functions.len() as int));
        assert(s.items[i] == ast.items_seq()[i]);
    }
}

/// In a well-formed tree every statement node is well formed at its own
/// index.
pub proof fn lemma_stmts_wf(ast: &Ast)
    requires
        ast.wf(),
    ensures
        forall|i: int|
            0 <= i < ast.statements_seq().len() ==> stmt_wf(
                #[trigger] ast.statements_seq()[i],
                i,
                ast.expressions_seq().len() as int,
            ),
{
    let s = ast.snap();
    assert forall|i: int| 0 <= i < ast.statements_seq().len() implies stmt_wf(
        #[trigger] ast.statements_seq()[i],
        i,
        ast.expressions_seq().len() as int,
    ) by {
        assert(stmt_wf(s.statements[i], i, s.expressions.len() as int));
        assert(s.statements[i] == ast.statements_seq()[i]);
    }
}

/// Self-id round trip: resolving a node's own id yields the node back, in
/// each of the four arenas.
pub proof fn lemma_self_id_round_trip(ast: &Ast)
    requires
        ast.wf(),
    ensures
        forall|i: int|
            0 <= i < ast.items_seq().len() ==> ast.items_seq()[(#[trigger] ast.items_seq()[i]).id.idx()]
                == ast.items_seq()[i],
        forall|i: int|
            0 <= i < ast.statements_seq().len() ==> ast.statements_seq()[(
            #[trigger] ast.statements_seq()[i]).id.idx()] == ast.statements_seq()[i],
        forall|i: int|
            0 <= i < ast.expressions_seq().len() ==> ast.expressions_seq()[(
            #[trigger] ast.expressions_seq()[i]).id.idx()] == ast.expressions_seq()[i],
{
    let s = ast.snap();
    assert(forall|i: int|
        0 <= i < s.items.len() ==> (#[trigger] s.items[i]).id.idx() == i) by {
        assert(snap_wf(s));
    }
    assert(forall|i: int|
        0 <= i < s.statements.len() ==> (#[trigger] s.statements[i]).id.idx() == i) by {
        assert(snap_wf(s));
    }
    assert(forall|i: int|
        0 <= i < s.expressions.len() ==> (#[trigger] s.expressions[i]).id.idx() == i) by {
        assert(snap_wf(s));
    }
}

/// Topological ordering of handles: the operands of every binary
/// expression node were pushed strictly before the node itself.
pub proof fn lemma_binary_children_precede(ast: &Ast)
    requires
        ast.wf(),
    ensures
        forall|i: int|
            0 <= i < ast.expressions_seq().len() ==> ((
            #[trigger] ast.expressions_seq()[i]).kind matches ExpressionKind::Binary(b) ==> 0
                <= b.left.idx() < i && 0 <= b.right.idx() < i),
{
    lemma_exprs_wf(ast);
}

/// Every expression node of the sequence is well formed at its own index.
pub open spec fn exprs_wf(exprs: Seq<Expression>) -> bool {
    forall|i: int| 0 <= i < exprs.len() ==> expr_wf(#[trigger] exprs[i], i)
}

/// In a well-formed tree every expression node is well formed at its own
/// index.
pub proof fn lemma_exprs_wf(ast: &Ast)
    requires
        ast.wf(),
    ensures
        exprs_wf(ast.expressions_seq()),
{
    let s = ast.snap();
    assert forall|i: int| 0 <= i < ast.expressions_seq().len() implies expr_wf(
        #[trigger] ast.expressions_seq()[i],
        i,
    ) by {
        assert(expr_wf(s.expressions[i], i));
        assert(s.expressions[i] == ast.expressions_seq()[i]);
    }
}

/// Whether expression `c` is a direct child of expression `a`.
pub open spec fn expr_child(exprs: Seq<Expression>, a: int, c: int) -> bool {
    0 <= a < exprs.len() && match exprs[a].kind {
        ExpressionKind::Number(_) => false,
        ExpressionKind::Binary(b) => c == b.left.idx() || c == b.right.idx(),
        ExpressionKind::Parenthesized(p) => c == p.expr.idx(),
        ExpressionKind::Assignment(x) => c == x.expr.idx(),
    }
}

/// Whether expression `b` can be reached from expression `a` by following
/// at most `k` child edges (at least one).
pub open spec fn expr_reaches_in(exprs: Seq<Expression>, a: int, b: int, k: nat) -> bool
    decreases k,
{
    k > 0 && (expr_child(exprs, a, b) || (exists|c: int|
        #[trigger] expr_child(exprs, a, c) && expr_reaches_in(exprs, c, b, (k - 1) as nat)))
}

/// In a well-formed tree, every child edge goes to a strictly smaller
/// index, so anything reachable lies strictly below its ancestor.
proof fn lemma_reaches_descend(exprs: Seq<Expression>, a: int, b: int, k: nat)
    requires
        forall|i: int| 0 <= i < exprs.len() ==> expr_wf(#[trigger] exprs[i], i),
        expr_reaches_in(exprs, a, b, k),
    ensures
        b < a,
    decreases k,
{
    if expr_child(exprs, a, b) {
    } else {
        let c = choose|c: int|
            #[trigger] expr_child(exprs, a, c) && expr_reaches_in(exprs, c, b, (k - 1) as nat);
        lemma_reaches_descend(exprs, c, b, (k - 1) as nat);
    }
}

/// Tree shape invariant: the expression graph of a well-formed tree has no
/// cycles; no expression is its own descendant, however many child edges
/// are followed.
pub proof fn lemma_no_cycles(ast: &Ast)
    requires
        ast.wf(),
    ensures
        forall|a: int, k: nat| !expr_reaches_in(ast.expressions_seq(), a, a, k),
{
    lemma_exprs_wf(ast);
    assert forall|a: int, k: nat| !expr_reaches_in(ast.expressions_seq(), a, a, k) by {
        if expr_reaches_in(ast.expressions_seq(), a, a, k) {
            lemma_reaches_descend(ast.expressions_seq(), a, a, k);
        }
    }
}

} // verus!
