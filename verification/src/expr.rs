//! Expressions of the syntax tree.
use crate::token::{Literal, Token};
use vstd::prelude::*;

verus! {

/// An expression. Every node that refers to a variable (`Variable`, `Assign`,
/// `This`, `Super`) carries an `id` of its own, by which the resolver records
/// where its binding lives.
#[derive(Debug)]
#[allow(inconsistent_fields)]
pub enum Expr {
    BinaryExpr { left: Box<Expr>, operator: Token, right: Box<Expr> },
    GroupingExpr { expression: Box<Expr> },
    LiteralExpr { value: Literal },
    UnaryExpr { operator: Token, right: Box<Expr> },
    VariableExpr { name: Token, id: usize },
    AssignExpr { name: Token, value: Box<Expr>, id: usize },
    LogicalExpr { left: Box<Expr>, operator: Token, right: Box<Expr> },
    CallExpr { callee: Box<Expr>, paren: Token, arguments: Vec<Expr> },
    GetExpr { object: Box<Expr>, name: Token },
    SetExpr { object: Box<Expr>, name: Token, value: Box<Expr> },
    ThisExpr { keyword: Token, id: usize },
    SuperExpr { keyword: Token, method: Token, id: usize },
}

/// The mathematical shape of an expression: the same tree with sequences in
/// place of vectors.
#[allow(inconsistent_fields)]
pub enum ExprView {
    BinaryExpr { left: Box<ExprView>, operator: Token, right: Box<ExprView> },
    GroupingExpr { expression: Box<ExprView> },
    LiteralExpr { value: Literal },
    UnaryExpr { operator: Token, right: Box<ExprView> },
    VariableExpr { name: Token, id: usize },
    AssignExpr { name: Token, value: Box<ExprView>, id: usize },
    LogicalExpr { left: Box<ExprView>, operator: Token, right: Box<ExprView> },
    CallExpr { callee: Box<ExprView>, paren: Token, arguments: Seq<ExprView> },
    GetExpr { object: Box<ExprView>, name: Token },
    SetExpr { object: Box<ExprView>, name: Token, value: Box<ExprView> },
    ThisExpr { keyword: Token, id: usize },
    SuperExpr { keyword: Token, method: Token, id: usize },
}

impl Expr {
    pub open spec fn view(&self) -> ExprView
        decreases self,
    {
        match self {
            Expr::BinaryExpr { left, operator, right } => ExprView::BinaryExpr {
                left: Box::new(left.view()),
                operator: *operator,
                right: Box::new(right.view()),
            },
            Expr::GroupingExpr { expression } => ExprView::GroupingExpr {
                expression: Box::new(expression.view()),
            },
            Expr::LiteralExpr { value } => ExprView::LiteralExpr { value: *value },
            Expr::UnaryExpr { operator, right } => ExprView::UnaryExpr {
                operator: *operator,
                right: Box::new(right.view()),
            },
            Expr::VariableExpr { name, id } => ExprView::VariableExpr { name: *name, id: *id },
            Expr::AssignExpr { name, value, id } => ExprView::AssignExpr {
                name: *name,
                value: Box::new(value.view()),
                id: *id,
            },
            Expr::LogicalExpr { left, operator, right } => ExprView::LogicalExpr {
                left: Box::new(left.view()),
                operator: *operator,
                right: Box::new(right.view()),
            },
            Expr::CallExpr { callee, paren, arguments } => ExprView::CallExpr {
                callee: Box::new(callee.view()),
                paren: *paren,
                arguments: exprs_view(arguments@),
            },
            Expr::GetExpr { object, name } => ExprView::GetExpr {
                object: Box::new(object.view()),
                name: *name,
            },
            Expr::SetExpr { object, name, value } => ExprView::SetExpr {
                object: Box::new(object.view()),
                name: *name,
                value: Box::new(value.view()),
            },
            Expr::ThisExpr { keyword, id } => ExprView::ThisExpr { keyword: *keyword, id: *id },
            Expr::SuperExpr { keyword, method, id } => ExprView::SuperExpr {
                keyword: *keyword,
                method: *method,
                id: *id,
            },
        }
    }
}

/// The shapes of a sequence of expressions.
pub open spec fn exprs_view(es: Seq<Expr>) -> Seq<ExprView>
    decreases es,
{
    Seq::new(
        es.len(),
        |i: int|
            if 0 <= i < es.len() {
                es[i].view()
            } else {
                ExprView::LiteralExpr { value: Literal::NoneLiteral }
            },
    )
}

pub proof fn lemma_exprs_view_push(es: Seq<Expr>, e: Expr)
    ensures
        exprs_view(es.push(e)) == exprs_view(es).push(e@),
{
    assert(exprs_view(es.push(e)) =~= exprs_view(es).push(e@));
}

pub proof fn lemma_exprs_view_empty()
    ensures
        exprs_view(Seq::<Expr>::empty()) == Seq::<ExprView>::empty(),
{
    assert(exprs_view(Seq::<Expr>::empty()) =~= Seq::<ExprView>::empty());
}

} // verus!
