//! The syntax tree: expressions and statements.
//!
//! Every node carries an id that no other node of the program has, so that
//! two occurrences of the same text can be told apart.

use vstd::prelude::*;
use std::rc::Rc;
use crate::tokens::{Literal, Token};

verus! {

/// A use of a variable.
#[derive(Debug)]
pub struct VariableExpr {
    pub id: usize,
    pub name: Token,
}

/// An expression.
#[derive(Debug)]
#[allow(inconsistent_fields)]
pub enum Expr {
    Assign { id: usize, name: Token, value: Box<Expr> },
    Binary { id: usize, left: Box<Expr>, operator: Token, right: Box<Expr> },
    Call { id: usize, callee: Box<Expr>, arguments: Vec<Expr> },
    Get { id: usize, object: Box<Expr>, name: Token },
    Grouping { id: usize, expression: Box<Expr> },
    Literal { id: usize, value: Literal },
    Logical { id: usize, left: Box<Expr>, operator: Token, right: Box<Expr> },
    SetField { id: usize, object: Box<Expr>, name: Token, value: Box<Expr> },
    Super { id: usize, keyword: Token, method: Token },
    This { id: usize, keyword: Token },
    Unary { id: usize, operator: Token, right: Box<Expr> },
    Variable(VariableExpr),
}

/// A function or method declaration.
#[derive(Debug)]
pub struct FunctionStmt {
    pub id: usize,
    pub name: Token,
    pub params: Vec<Token>,
    pub body: Vec<Stmt>,
}

/// A statement.
#[derive(Debug)]
#[allow(inconsistent_fields)]
pub enum Stmt {
    Block { id: usize, statements: Vec<Stmt> },
    Class { id: usize, name: Token, superclass: Option<VariableExpr>, methods: Vec<Rc<FunctionStmt>> },
    Expression { id: usize, expression: Expr },
    Function(Rc<FunctionStmt>),
    If { id: usize, condition: Expr, then_branch: Box<Stmt>, else_branch: Box<Stmt> },
    Print { id: usize, expression: Expr },
    Return { id: usize, value: Expr },
    Var { id: usize, name: Token, initializer: Expr },
    While { id: usize, condition: Expr, body: Box<Stmt> },
}

/// An expression as a mathematical value.
#[allow(inconsistent_fields)]
pub enum ExprView {
    Assign { id: usize, name: Token, value: Box<ExprView> },
    Binary { id: usize, left: Box<ExprView>, operator: Token, right: Box<ExprView> },
    Call { id: usize, callee: Box<ExprView>, arguments: Seq<ExprView> },
    Get { id: usize, object: Box<ExprView>, name: Token },
    Grouping { id: usize, expression: Box<ExprView> },
    Literal { id: usize, value: Literal },
    Logical { id: usize, left: Box<ExprView>, operator: Token, right: Box<ExprView> },
    SetField { id: usize, object: Box<ExprView>, name: Token, value: Box<ExprView> },
    Super { id: usize, keyword: Token, method: Token },
    This { id: usize, keyword: Token },
    Unary { id: usize, operator: Token, right: Box<ExprView> },
    Variable(VariableExpr),
}

/// A function declaration as a mathematical value.
pub struct FunctionStmtView {
    pub id: usize,
    pub name: Token,
    pub params: Seq<Token>,
    pub body: Seq<StmtView>,
}

/// A statement as a mathematical value.
#[allow(inconsistent_fields)]
pub enum StmtView {
    Block { id: usize, statements: Seq<StmtView> },
    Class { id: usize, name: Token, superclass: Option<VariableExpr>, methods: Seq<FunctionStmtView> },
    Expression { id: usize, expression: ExprView },
    Function(FunctionStmtView),
    If { id: usize, condition: ExprView, then_branch: Box<StmtView>, else_branch: Box<StmtView> },
    Print { id: usize, expression: ExprView },
    Return { id: usize, value: ExprView },
    Var { id: usize, name: Token, initializer: ExprView },
    While { id: usize, condition: ExprView, body: Box<StmtView> },
}

/// The view of an expression.
pub open spec fn expr_view(e: Expr) -> ExprView
    decreases e,
{
    match e {
        Expr::Assign { id, name, value } => ExprView::Assign {
            id,
            name,
            value: Box::new(expr_view(*value)),
        },
        Expr::Binary { id, left, operator, right } => ExprView::Binary {
            id,
            left: Box::new(expr_view(*left)),
            operator,
            right: Box::new(expr_view(*right)),
        },
        Expr::Call { id, callee, arguments } => ExprView::Call {
            id,
            callee: Box::new(expr_view(*callee)),
            arguments: Seq::new(
                arguments.len() as nat,
                |i: int|
                    if 0 <= i < arguments.len() {
                        expr_view(arguments[i])
                    } else {
                        arbitrary()
                    },
            ),
        },
        Expr::Get { id, object, name } => ExprView::Get {
            id,
            object: Box::new(expr_view(*object)),
            name,
        },
        Expr::Grouping { id, expression } => ExprView::Grouping {
            id,
            expression: Box::new(expr_view(*expression)),
        },
        Expr::Literal { id, value } => ExprView::Literal { id, value },
        Expr::Logical { id, left, operator, right } => ExprView::Logical {
            id,
            left: Box::new(expr_view(*left)),
            operator,
            right: Box::new(expr_view(*right)),
        },
        Expr::SetField { id, object, name, value } => ExprView::SetField {
            id,
            object: Box::new(expr_view(*object)),
            name,
            value: Box::new(expr_view(*value)),
        },
        Expr::Super { id, keyword, method } => ExprView::Super { id, keyword, method },
        Expr::This { id, keyword } => ExprView::This { id, keyword },
        Expr::Unary { id, operator, right } => ExprView::Unary {
            id,
            operator,
            right: Box::new(expr_view(*right)),
        },
        Expr::Variable(v) => ExprView::Variable(v),
    }
}

/// The view of a function declaration.
pub open spec fn function_view(f: FunctionStmt) -> FunctionStmtView
    decreases f,
{
    FunctionStmtView {
        id: f.id,
        name: f.name,
        params: f.params@,
        body: Seq::new(
            f.body.len() as nat,
            |i: int|
                if 0 <= i < f.body.len() {
                    stmt_view(f.body[i])
                } else {
                    arbitrary()
                },
        ),
    }
}

/// The view of a statement.
pub open spec fn stmt_view(s: Stmt) -> StmtView
    decreases s,
{
    match s {
        Stmt::Block { id, statements } => StmtView::Block {
            id,
            statements: Seq::new(
                statements.len() as nat,
                |i: int|
                    if 0 <= i < statements.len() {
                        stmt_view(statements[i])
                    } else {
                        arbitrary()
                    },
            ),
        },
        Stmt::Class { id, name, superclass, methods } => StmtView::Class {
            id,
            name,
            superclass,
            methods: Seq::new(
                methods.len() as nat,
                |i: int|
                    if 0 <= i < methods.len() {
                        function_view(*methods[i])
                    } else {
                        arbitrary()
                    },
            ),
        },
        Stmt::Expression { id, expression } => StmtView::Expression {
            id,
            expression: expr_view(expression),
        },
        Stmt::Function(f) => StmtView::Function(function_view(*f)),
        Stmt::If { id, condition, then_branch, else_branch } => StmtView::If {
            id,
            condition: expr_view(condition),
            then_branch: Box::new(stmt_view(*then_branch)),
            else_branch: Box::new(stmt_view(*else_branch)),
        },
        Stmt::Print { id, expression } => StmtView::Print { id, expression: expr_view(expression) },
        Stmt::Return { id, value } => StmtView::Return { id, value: expr_view(value) },
        Stmt::Var { id, name, initializer } => StmtView::Var {
            id,
            name,
            initializer: expr_view(initializer),
        },
        Stmt::While { id, condition, body } => StmtView::While {
            id,
            condition: expr_view(condition),
            body: Box::new(stmt_view(*body)),
        },
    }
}

impl View for Expr {
    type V = ExprView;

    open spec fn view(&self) -> ExprView {
        expr_view(*self)
    }
}

impl View for FunctionStmt {
    type V = FunctionStmtView;

    open spec fn view(&self) -> FunctionStmtView {
        function_view(*self)
    }
}

impl View for Stmt {
    type V = StmtView;

    open spec fn view(&self) -> StmtView {
        stmt_view(*self)
    }
}

/// The views of a list of statements.
pub open spec fn statements_view(statements: Seq<Stmt>) -> Seq<StmtView> {
    statements.map_values(|s: Stmt| s@)
}

/// The views of a list of expressions.
pub open spec fn expressions_view(expressions: Seq<Expr>) -> Seq<ExprView> {
    expressions.map_values(|e: Expr| e@)
}

/// The views of a list of method declarations.
pub open spec fn methods_view(methods: Seq<Rc<FunctionStmt>>) -> Seq<FunctionStmtView> {
    methods.map_values(|m: Rc<FunctionStmt>| (*m)@)
}

} // verus!
