//! The statement half of the abstract syntax tree, and function
//! declarations: what the parser hands to downstream consumers.
use vstd::prelude::*;
use crate::expression::{expr_view, Expr, SExpr};
use crate::token::{SToken, Token};

verus! {

/// The mathematical model of a statement.
pub enum SStmt {
    ExprStatement(SExpr),
    Assignment(SAssignment),
    Declaration(SDeclaration),
    Scope(Seq<SStmt>),
    IfStatement(SIfStatement),
    BreakStatement,
}

/// The model of an assignment.
pub struct SAssignment {
    pub identifier: SToken,
    pub expr: SExpr,
}

/// The model of a typed declaration.
pub struct SDeclaration {
    pub val_type: SToken,
    pub identifier: SToken,
    pub expr: Option<SExpr>,
}

/// The model of an if statement.
pub struct SIfStatement {
    pub cond: SExpr,
    pub statement: Box<SStmt>,
}

/// The model of a function declaration.
pub struct SFunctionDecl {
    pub name: Seq<char>,
    pub args: Seq<Seq<char>>,
    pub scope: SStmt,
}

/// A parsed statement.
#[derive(Debug)]
pub enum Statement {
    /// An expression followed by a semicolon.
    ExprStatement(Expr),
    /// An assignment.
    Assignment(Assignment),
    /// A typed declaration. The type can hold one, but no grammar
    /// production builds it: only `Assignment` is reachable from the
    /// grammar.
    Declaration(Declaration),
    /// A brace-delimited, ordered sequence of statements.
    Scope(Vec<Statement>),
    /// An if statement.
    IfStatement(IfStatement),
    /// A break statement.
    BreakStatement,
}

/// An assignment: an identifier token plus the expression assigned to
/// it.
#[derive(Debug)]
pub struct Assignment {
    pub identifier: Token,
    pub expr: Expr,
}

/// A typed declaration: a type token, an identifier token and an
/// optional initializer.
#[derive(Debug)]
pub struct Declaration {
    pub val_type: Token,
    pub identifier: Token,
    pub expr: Option<Expr>,
}

/// An if statement: its condition and the single statement it owns and
/// runs when the condition holds. The grammar has no `else` clause.
#[derive(Debug)]
pub struct IfStatement {
    pub cond: Expr,
    pub statement: Box<Statement>,
}

/// A function declaration: its name, its ordered parameter names and
/// its body (a scope).
#[derive(Debug)]
pub struct FunctionDecl {
    pub name: String,
    pub args: Vec<String>,
    pub scope: Statement,
}

/// The model of a statement tree.
pub open spec fn stmt_view(s: Statement) -> SStmt
    decreases s,
{
    match s {
        Statement::ExprStatement(e) => SStmt::ExprStatement(expr_view(e)),
        Statement::Assignment(a) => SStmt::Assignment(
            SAssignment { identifier: a.identifier@, expr: expr_view(a.expr) },
        ),
        Statement::Declaration(d) => SStmt::Declaration(
            SDeclaration {
                val_type: d.val_type@,
                identifier: d.identifier@,
                expr: match d.expr {
                    Some(e) => Some(expr_view(e)),
                    None => None,
                },
            },
        ),
        Statement::Scope(v) => SStmt::Scope(stmts_view_from(v, 0)),
        Statement::IfStatement(i) => SStmt::IfStatement(
            SIfStatement { cond: expr_view(i.cond), statement: Box::new(stmt_view(*i.statement)) },
        ),
        Statement::BreakStatement => SStmt::BreakStatement,
    }
}

/// The models of the statements of `v` from index `i` on.
pub open spec fn stmts_view_from(v: Vec<Statement>, i: int) -> Seq<SStmt>
    decreases v, v.len() - i,
{
    if i < 0 || i >= v.len() {
        Seq::empty()
    } else {
        seq![stmt_view(v[i])] + stmts_view_from(v, i + 1)
    }
}

/// The models of a whole statement list.
pub open spec fn stmts_view(v: Vec<Statement>) -> Seq<SStmt> {
    stmts_view_from(v, 0)
}

/// The models of a statement sequence, element by element.
pub open spec fn sstmts_view(ss: Seq<Statement>) -> Seq<SStmt> {
    Seq::new(ss.len(), |i: int| stmt_view(ss[i]))
}

/// `stmts_view_from` reads the models of the elements from `i` on.
pub proof fn lemma_stmts_view_from_elems(v: Vec<Statement>, i: int)
    requires
        0 <= i <= v@.len(),
    ensures
        stmts_view_from(v, i).len() == v@.len() - i,
        forall|k: int|
            0 <= k < v@.len() - i ==> stmts_view_from(v, i)[k] == stmt_view(v@[i + k]),
    decreases v@.len() - i,
{
    if i < v@.len() {
        lemma_stmts_view_from_elems(v, i + 1);
    }
}

/// The model of a statement vector is the model of its element
/// sequence.
pub proof fn lemma_stmts_view_eq(v: Vec<Statement>)
    ensures
        stmts_view(v) == sstmts_view(v@),
{
    lemma_stmts_view_from_elems(v, 0);
    assert(stmts_view(v) =~= sstmts_view(v@));
}

impl View for Statement {
    type V = SStmt;

    open spec fn view(&self) -> SStmt {
        stmt_view(*self)
    }
}

impl View for FunctionDecl {
    type V = SFunctionDecl;

    open spec fn view(&self) -> SFunctionDecl {
        SFunctionDecl {
            name: self.name@,
            args: self.args@.map_values(|a: String| a@),
            scope: stmt_view(self.scope),
        }
    }
}

impl Assignment {
    /// Builds an assignment from its identifier token and its
    /// expression.
    pub fn new(identifier: Token, expr: Expr) -> (r: Assignment)
        ensures
            r.identifier == identifier,
            r.expr == expr,
    {
        Assignment { identifier, expr }
    }

    /// Returns the identifier assigned to.
    pub fn identifier(&self) -> (t: &Token)
        ensures
            *t == self.identifier,
    {
        &self.identifier
    }

    /// Returns the assigned expression.
    pub fn expr(&self) -> (e: &Expr)
        ensures
            *e == self.expr,
    {
        &self.expr
    }
}

impl Declaration {
    /// Builds a declaration from its type token, its identifier token
    /// and its optional initializer.
    pub fn new(val_type: Token, identifier: Token, expr: Option<Expr>) -> (r: Declaration)
        ensures
            r.val_type == val_type,
            r.identifier == identifier,
            r.expr == expr,
    {
        Declaration { val_type, identifier, expr }
    }
}

impl IfStatement {
    /// Builds an if statement from its condition and the statement to
    /// run.
    pub fn new(cond: Expr, statement: Statement) -> (r: IfStatement)
        ensures
            r.cond == cond,
            *r.statement == statement,
    {
        IfStatement { cond, statement: Box::new(statement) }
    }

    /// Returns the condition.
    pub fn condition(&self) -> (e: &Expr)
        ensures
            *e == self.cond,
    {
        &self.cond
    }

    /// Returns the statement to run.
    pub fn statement(&self) -> (s: &Statement)
        ensures
            *s == *self.statement,
    {
        &*self.statement
    }
}

impl FunctionDecl {
    /// Builds a function declaration from its name, its parameter names
    /// and its body.
    pub fn new(name: String, args: Vec<String>, scope: Statement) -> (r: FunctionDecl)
        ensures
            r.name == name,
            r.args == args,
            r.scope == scope,
    {
        FunctionDecl { name, args, scope }
    }

    /// Returns the declared name.
    pub fn name(&self) -> (n: &String)
        ensures
            *n == self.name,
    {
        &self.name
    }
}

} // verus!
