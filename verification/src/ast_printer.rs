//! Writes an expression out with every operation in parentheses, so that the
//! shape of the tree can be read.
use crate::expr::Expr;
use crate::token::Literal;
use vstd::prelude::*;
use vstd::string::StringExecFns;

verus! {

/// How a literal is written: a number as its numeral, a string between
/// double quotes, and `true`, `false` and `nil` as themselves.
pub open spec fn literal_text(value: Literal) -> Seq<char> {
    match value {
        Literal::NumberLiteral(s) => s@,
        Literal::StringLiteral(s) => "\""@ + s@ + "\""@,
        Literal::BoolLiteral(b) => if b {
            "true"@
        } else {
            "false"@
        },
        Literal::NoneLiteral => "nil"@,
    }
}

/// `(left name right)`
pub open spec fn parenthesized_two(name: Seq<char>, left: Seq<char>, right: Seq<char>) -> Seq<char> {
    "("@ + left + " "@ + name + " "@ + right + ")"@
}

/// `(name inner)`, without a blank between the two.
pub open spec fn parenthesized_one(name: Seq<char>, inner: Seq<char>) -> Seq<char> {
    "("@ + name + inner + ")"@
}

/// How an expression is written.
pub open spec fn printed(e: Expr) -> Seq<char>
    decreases e, 0nat,
{
    match e {
        Expr::BinaryExpr { left, operator, right } => parenthesized_two(
            operator.lexeme@,
            printed(*left),
            printed(*right),
        ),
        Expr::LogicalExpr { left, operator, right } => parenthesized_two(
            operator.lexeme@,
            printed(*left),
            printed(*right),
        ),
        Expr::GroupingExpr { expression } => parenthesized_one("group "@, printed(*expression)),
        Expr::LiteralExpr { value } => literal_text(value),
        Expr::UnaryExpr { operator, right } => parenthesized_one(operator.lexeme@, printed(*right)),
        Expr::VariableExpr { name, id } => name.lexeme@,
        Expr::AssignExpr { name, value, id } => parenthesized_two(
            "="@,
            name.lexeme@,
            printed(*value),
        ),
        Expr::CallExpr { callee, paren, arguments } => printed(*callee) + "("@ + printed_from(
            arguments@,
            0,
        ) + ")"@,
        Expr::GetExpr { object, name } => printed(*object) + "."@ + name.lexeme@,
        Expr::SetExpr { object, name, value } => parenthesized_two(
            "="@,
            printed(*object) + "."@ + name.lexeme@,
            printed(*value),
        ),
        Expr::ThisExpr { keyword, id } => "this"@,
        Expr::SuperExpr { keyword, method, id } => "super."@ + method.lexeme@,
    }
}

/// The expressions `es[i..]`, each with a blank in front of it.
pub open spec fn printed_from(es: Seq<Expr>, i: int) -> Seq<char>
    decreases es, es.len() - i,
{
    if 0 <= i < es.len() {
        " "@ + printed(es[i]) + printed_from(es, i + 1)
    } else {
        Seq::empty()
    }
}

/// Writes expressions out.
#[derive(Copy, Clone, Debug)]
pub struct AstPrinter {}

impl AstPrinter {
    /// The expression, written out.
    pub fn print(&self, expr: &Expr) -> (out: String)
        ensures
            out@ == printed(*expr),
        decreases expr, 0nat,
    {
        match expr {
            Expr::BinaryExpr { left, operator, right } => {
                let lexpr = self.print(left);
                let rexpr = self.print(right);
                self.parenthesize_two(operator.lexeme.as_str(), lexpr.as_str(), rexpr.as_str())
            },
            Expr::LogicalExpr { left, operator, right } => {
                let lexpr = self.print(left);
                let rexpr = self.print(right);
                self.parenthesize_two(operator.lexeme.as_str(), lexpr.as_str(), rexpr.as_str())
            },
            Expr::GroupingExpr { expression } => {
                let inner = self.print(expression);
                self.parenthesize_one("group ", inner.as_str())
            },
            Expr::LiteralExpr { value } => self.visit_literalexpr_expr(value),
            Expr::UnaryExpr { operator, right } => {
                let inner = self.print(right);
                self.parenthesize_one(operator.lexeme.as_str(), inner.as_str())
            },
            Expr::VariableExpr { name, id: _ } => name.lexeme.clone(),
            Expr::AssignExpr { name, value, id: _ } => {
                let inner = self.print(value);
                self.parenthesize_two("=", name.lexeme.as_str(), inner.as_str())
            },
            Expr::CallExpr { callee, paren: _, arguments } => {
                let mut builder = self.print(callee);
                builder.append("(");
                let inner = self.print_all(arguments);
                builder.append(inner.as_str());
                builder.append(")");
                builder
            },
            Expr::GetExpr { object, name } => {
                let mut builder = self.print(object);
                builder.append(".");
                builder.append(name.lexeme.as_str());
                builder
            },
            Expr::SetExpr { object, name, value } => {
                let mut target = self.print(object);
                target.append(".");
                target.append(name.lexeme.as_str());
                let inner = self.print(value);
                self.parenthesize_two("=", target.as_str(), inner.as_str())
            },
            Expr::ThisExpr { keyword: _, id: _ } => String::from_str("this"),
            Expr::SuperExpr { keyword: _, method, id: _ } => {
                let mut builder = String::from_str("super.");
                builder.append(method.lexeme.as_str());
                builder
            },
        }
    }

    /// The expressions, each with a blank in front of it.
    fn print_all(&self, exprs: &Vec<Expr>) -> (out: String)
        ensures
            out@ == printed_from(exprs@, 0),
        decreases exprs, 1nat,
    {
        let mut out = String::new();
        let mut i: usize = 0;
        while i < exprs.len()
            invariant
                i <= exprs@.len(),
                out@ + printed_from(exprs@, i as int) == printed_from(exprs@, 0),
            decreases exprs@.len() - i,
        {
            let ghost before = out@;
            out.append(" ");
            let inner = self.print(&exprs[i]);
            out.append(inner.as_str());
            assert(out@ + printed_from(exprs@, i + 1) =~= before + (" "@ + printed(exprs@[i as int])
                + printed_from(exprs@, i + 1)));
            i += 1;
        }
        assert(out@ =~= out@ + printed_from(exprs@, exprs@.len() as int));
        out
    }

    fn parenthesize_two(&self, name: &str, lexpr: &str, rexpr: &str) -> (out: String)
        ensures
            out@ == parenthesized_two(name@, lexpr@, rexpr@),
    {
        let mut builder = String::from_str("(");
        builder.append(lexpr);
        builder.append(" ");
        builder.append(name);
        builder.append(" ");
        builder.append(rexpr);
        builder.append(")");
        builder
    }

    fn parenthesize_one(&self, name: &str, expr: &str) -> (out: String)
        ensures
            out@ == parenthesized_one(name@, expr@),
    {
        let mut builder = String::from_str("(");
        builder.append(name);
        builder.append(expr);
        builder.append(")");
        builder
    }

    fn visit_literalexpr_expr(&self, value: &Literal) -> (out: String)
        ensures
            out@ == literal_text(*value),
    {
        match value {
            Literal::NoneLiteral => String::from_str("nil"),
            Literal::NumberLiteral(s) => s.clone(),
            Literal::StringLiteral(s) => {
                let mut out = String::from_str("\"");
                out.append(s.as_str());
                out.append("\"");
                out
            },
            Literal::BoolLiteral(b) => if *b {
                String::from_str("true")
            } else {
                String::from_str("false")
            },
        }
    }
}

} // verus!
