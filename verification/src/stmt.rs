//! Statements of the syntax tree.
use crate::expr::{Expr, ExprView};
use crate::token::Token;
use vstd::prelude::*;

verus! {

/// A reference to a variable by name: the superclass of a class.
#[derive(Debug)]
pub struct Variable {
    pub name: Token,
    pub id: usize,
}

/// A function or method declaration.
#[derive(Debug)]
pub struct Function {
    pub name: Token,
    pub params: Vec<Token>,
    pub body: Vec<Stmt>,
}

/// A class declaration.
#[derive(Debug)]
pub struct Class {
    pub name: Token,
    pub superclass: Option<Variable>,
    pub methods: Vec<Function>,
}

/// A statement.
#[derive(Debug)]
#[allow(inconsistent_fields)]
pub enum Stmt {
    ExpressionStmt { expression: Expr },
    PrintStmt { expression: Expr },
    VarStmt { name: Token, initializer: Expr },
    BlockStmt { statements: Vec<Stmt> },
    IfStmt { condition: Expr, then_branch: Box<Stmt>, else_branch: Option<Box<Stmt>> },
    WhileStmt { condition: Expr, body: Box<Stmt> },
    FunctionStmt { declaration: Function },
    ReturnStmt { keyword: Token, value: Expr },
    ClassStmt { declaration: Class },
}

/// The mathematical shape of a function declaration.
pub struct FunctionView {
    pub name: Token,
    pub params: Seq<Token>,
    pub body: Seq<StmtView>,
}

/// The mathematical shape of a class declaration.
pub struct ClassView {
    pub name: Token,
    pub superclass: Option<Variable>,
    pub methods: Seq<FunctionView>,
}

/// The mathematical shape of a statement.
#[allow(inconsistent_fields)]
pub enum StmtView {
    ExpressionStmt { expression: ExprView },
    PrintStmt { expression: ExprView },
    VarStmt { name: Token, initializer: ExprView },
    BlockStmt { statements: Seq<StmtView> },
    IfStmt { condition: ExprView, then_branch: Box<StmtView>, else_branch: Option<Box<StmtView>> },
    WhileStmt { condition: ExprView, body: Box<StmtView> },
    FunctionStmt { declaration: FunctionView },
    ReturnStmt { keyword: Token, value: ExprView },
    ClassStmt { declaration: ClassView },
}

impl Stmt {
    pub open spec fn view(&self) -> StmtView
        decreases self,
    {
        match self {
            Stmt::ExpressionStmt { expression } => StmtView::ExpressionStmt { expression: expression@ },
            Stmt::PrintStmt { expression } => StmtView::PrintStmt { expression: expression@ },
            Stmt::VarStmt { name, initializer } => StmtView::VarStmt {
                name: *name,
                initializer: initializer@,
            },
            Stmt::BlockStmt { statements } => StmtView::BlockStmt { statements: stmts_view(statements@) },
            Stmt::IfStmt { condition, then_branch, else_branch } => StmtView::IfStmt {
                condition: condition@,
                then_branch: Box::new(then_branch.view()),
                else_branch: match else_branch {
                    Some(s) => Some(Box::new(s.view())),
                    None => None,
                },
            },
            Stmt::WhileStmt { condition, body } => StmtView::WhileStmt {
                condition: condition@,
                body: Box::new(body.view()),
            },
            Stmt::FunctionStmt { declaration } => StmtView::FunctionStmt {
                declaration: declaration.view(),
            },
            Stmt::ReturnStmt { keyword, value } => StmtView::ReturnStmt { keyword: *keyword, value: value@ },
            Stmt::ClassStmt { declaration } => StmtView::ClassStmt { declaration: declaration.view() },
        }
    }
}

impl Function {
    pub open spec fn view(&self) -> FunctionView
        decreases self,
    {
        FunctionView { name: self.name, params: self.params@, body: stmts_view(self.body@) }
    }
}

impl Class {
    pub open spec fn view(&self) -> ClassView
        decreases self,
    {
        ClassView {
            name: self.name,
            superclass: self.superclass,
            methods: functions_view(self.methods@),
        }
    }
}

/// The shapes of a sequence of statements.
pub open spec fn stmts_view(ss: Seq<Stmt>) -> Seq<StmtView>
    decreases ss,
{
    Seq::new(
        ss.len(),
        |i: int|
            if 0 <= i < ss.len() {
                ss[i].view()
            } else {
                StmtView::BlockStmt { statements: Seq::empty() }
            },
    )
}

/// The shapes of a sequence of function declarations.
pub open spec fn functions_view(fs: Seq<Function>) -> Seq<FunctionView>
    decreases fs,
{
    Seq::new(
        fs.len(),
        |i: int|
            if 0 <= i < fs.len() {
                fs[i].view()
            } else {
                FunctionView { name: fs[0].name, params: Seq::empty(), body: Seq::empty() }
            },
    )
}

pub proof fn lemma_stmts_view_push(ss: Seq<Stmt>, s: Stmt)
    ensures
        stmts_view(ss.push(s)) == stmts_view(ss).push(s@),
{
    assert(stmts_view(ss.push(s)) =~= stmts_view(ss).push(s@));
}

pub proof fn lemma_stmts_view_empty()
    ensures
        stmts_view(Seq::<Stmt>::empty()) == Seq::<StmtView>::empty(),
{
    assert(stmts_view(Seq::<Stmt>::empty()) =~= Seq::<StmtView>::empty());
}

pub proof fn lemma_functions_view_push(fs: Seq<Function>, f: Function)
    ensures
        functions_view(fs.push(f)) == functions_view(fs).push(f@),
{
    assert(functions_view(fs.push(f)) =~= functions_view(fs).push(f@));
}

pub proof fn lemma_functions_view_empty()
    ensures
        functions_view(Seq::<Function>::empty()) == Seq::<FunctionView>::empty(),
{
    assert(functions_view(Seq::<Function>::empty()) =~= Seq::<FunctionView>::empty());
}

} // verus!
