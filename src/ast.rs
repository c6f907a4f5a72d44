//! The syntax tree, held in two arenas: every expression and statement is
//! named by its index, and a node's children always precede it.
use vstd::prelude::*;
use crate::token::{tokens_view, Token, TokenModel};

verus! {

/// An expression; its index in `Ast::exprs` is its identity.
#[derive(Debug)]
pub enum Expr {
    Literal { value: Token },
    Unary { op: Token, right: usize },
    Binary { left: usize, op: Token, right: usize },
    Grouping { expression: usize },
    Assign { name: Token, value: usize },
    Call { callee: usize, paren: Token, args: Vec<usize> },
    Logical { left: usize, op: Token, right: usize },
    Variable { name: Token },
    GetProperty { object: usize, name: Token },
    SetProperty { object: usize, name: Token, value: usize },
    This { keyword: Token },
    Super { keyword: Token, method: Token },
}

/// A statement; `for` loops are written as blocks and `while` loops.
#[derive(Debug)]
pub enum Stmt {
    Block { stmts: Vec<usize> },
    Expression { expr: usize },
    Function { name: Token, params: Vec<Token>, body: Vec<usize> },
    If { condition: usize, then_branch: usize, else_branch: Option<usize> },
    Print { expr: usize },
    Return { keyword: Token, value: Option<usize> },
    Var { name: Token, initializer: Option<usize> },
    While { condition: usize, body: usize },
    Class { name: Token, superclass: Option<usize>, methods: Vec<usize> },
}

/// A parsed program: the arenas and the top-level statements in order.
#[derive(Debug)]
pub struct Ast {
    pub exprs: Vec<Expr>,
    pub stmts: Vec<Stmt>,
    pub program: Vec<usize>,
}

/// Every index in `s` is below `bound`.
pub open spec fn all_below(s: Seq<usize>, bound: int) -> bool {
    forall|i: int| 0 <= i < s.len() ==> #[trigger] s[i] < bound
}

pub open spec fn opt_below(o: Option<usize>, bound: int) -> bool {
    o matches Some(x) ==> x < bound
}

/// The children of expression `i` precede it.
pub open spec fn expr_wf(e: Expr, i: int) -> bool {
    match e {
        Expr::Literal { .. } => true,
        Expr::Unary { right, .. } => right < i,
        Expr::Binary { left, right, .. } => left < i && right < i,
        Expr::Grouping { expression } => expression < i,
        Expr::Assign { value, .. } => value < i,
        Expr::Call { callee, args, .. } => callee < i && all_below(args@, i),
        Expr::Logical { left, right, .. } => left < i && right < i,
        Expr::Variable { .. } => true,
        Expr::GetProperty { object, .. } => object < i,
        Expr::SetProperty { object, value, .. } => object < i && value < i,
        Expr::This { .. } => true,
        Expr::Super { .. } => true,
    }
}

/// The statements below statement `i` precede it, and its expressions exist.
pub open spec fn stmt_wf(s: Stmt, i: int, n_exprs: int) -> bool {
    match s {
        Stmt::Block { stmts } => all_below(stmts@, i),
        Stmt::Expression { expr } => expr < n_exprs,
        Stmt::Function { body, .. } => all_below(body@, i),
        Stmt::If { condition, then_branch, else_branch } => condition < n_exprs && then_branch < i
            && opt_below(else_branch, i),
        Stmt::Print { expr } => expr < n_exprs,
        Stmt::Return { value, .. } => opt_below(value, n_exprs),
        Stmt::Var { initializer, .. } => opt_below(initializer, n_exprs),
        Stmt::While { condition, body } => condition < n_exprs && body < i,
        Stmt::Class { superclass, methods, .. } => opt_below(superclass, n_exprs) && all_below(
            methods@,
            i,
        ),
    }
}

impl Ast {
    pub open spec fn wf(&self) -> bool {
        &&& forall|i: int| 0 <= i < self.exprs@.len() ==> expr_wf(#[trigger] self.exprs@[i], i)
        &&& forall|i: int|
            0 <= i < self.stmts@.len() ==> stmt_wf(
                #[trigger] self.stmts@[i],
                i,
                self.exprs@.len() as int,
            )
        &&& all_below(self.program@, self.stmts@.len() as int)
    }
}

/// The mathematical form of an expression.
pub enum ExprModel {
    Literal { value: TokenModel },
    Unary { op: TokenModel, right: usize },
    Binary { left: usize, op: TokenModel, right: usize },
    Grouping { expression: usize },
    Assign { name: TokenModel, value: usize },
    Call { callee: usize, paren: TokenModel, args: Seq<usize> },
    Logical { left: usize, op: TokenModel, right: usize },
    Variable { name: TokenModel },
    GetProperty { object: usize, name: TokenModel },
    SetProperty { object: usize, name: TokenModel, value: usize },
    This { keyword: TokenModel },
    Super { keyword: TokenModel, method: TokenModel },
}

/// The mathematical form of a statement.
pub enum StmtModel {
    Block { stmts: Seq<usize> },
    Expression { expr: usize },
    Function { name: TokenModel, params: Seq<TokenModel>, body: Seq<usize> },
    If { condition: usize, then_branch: usize, else_branch: Option<usize> },
    Print { expr: usize },
    Return { keyword: TokenModel, value: Option<usize> },
    Var { name: TokenModel, initializer: Option<usize> },
    While { condition: usize, body: usize },
    Class { name: TokenModel, superclass: Option<usize>, methods: Seq<usize> },
}

impl View for Expr {
    type V = ExprModel;

    open spec fn view(&self) -> ExprModel {
        match self {
            Expr::Literal { value } => ExprModel::Literal { value: value@ },
            Expr::Unary { op, right } => ExprModel::Unary { op: op@, right: *right },
            Expr::Binary { left, op, right } => ExprModel::Binary { left: *left, op: op@, right: *right },
            Expr::Grouping { expression } => ExprModel::Grouping { expression: *expression },
            Expr::Assign { name, value } => ExprModel::Assign { name: name@, value: *value },
            Expr::Call { callee, paren, args } => ExprModel::Call { callee: *callee, paren: paren@, args: args@ },
            Expr::Logical { left, op, right } => ExprModel::Logical { left: *left, op: op@, right: *right },
            Expr::Variable { name } => ExprModel::Variable { name: name@ },
            Expr::GetProperty { object, name } => ExprModel::GetProperty { object: *object, name: name@ },
            Expr::SetProperty { object, name, value } => ExprModel::SetProperty {
                object: *object,
                name: name@,
                value: *value,
            },
            Expr::This { keyword } => ExprModel::This { keyword: keyword@ },
            Expr::Super { keyword, method } => ExprModel::Super { keyword: keyword@, method: method@ },
        }
    }
}

impl View for Stmt {
    type V = StmtModel;

    open spec fn view(&self) -> StmtModel {
        match self {
            Stmt::Block { stmts } => StmtModel::Block { stmts: stmts@ },
            Stmt::Expression { expr } => StmtModel::Expression { expr: *expr },
            Stmt::Function { name, params, body } => StmtModel::Function {
                name: name@,
                params: tokens_view(params@),
                body: body@,
            },
            Stmt::If { condition, then_branch, else_branch } => StmtModel::If {
                condition: *condition,
                then_branch: *then_branch,
                else_branch: *else_branch,
            },
            Stmt::Print { expr } => StmtModel::Print { expr: *expr },
            Stmt::Return { keyword, value } => StmtModel::Return { keyword: keyword@, value: *value },
            Stmt::Var { name, initializer } => StmtModel::Var { name: name@, initializer: *initializer },
            Stmt::While { condition, body } => StmtModel::While { condition: *condition, body: *body },
            Stmt::Class { name, superclass, methods } => StmtModel::Class {
                name: name@,
                superclass: *superclass,
                methods: methods@,
            },
        }
    }
}

pub open spec fn exprs_view(s: Seq<Expr>) -> Seq<ExprModel> {
    s.map_values(|e: Expr| e@)
}

pub open spec fn stmts_view(s: Seq<Stmt>) -> Seq<StmtModel> {
    s.map_values(|x: Stmt| x@)
}

} // verus!
