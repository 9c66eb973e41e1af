//! The grammar of Lox as a function from tokens to syntax trees.
//!
//! Each production takes the tokens and a cursor (how far the parse has come,
//! the next free node id, the complaints so far) and gives what it parsed, or
//! nothing after a syntax error, with the cursor behind it.
use crate::expr::ExprView;
use crate::report::{place_of, Diagnostic};
use crate::stmt::{ClassView, FunctionView, StmtView, Variable};
use crate::token::{Literal, Token, TokenType};
use vstd::prelude::*;

verus! {

/// Whether `tokens` is a token list that can be parsed: it ends with the
/// end-of-input token.
pub open spec fn ends_with_eof(tokens: Seq<Token>) -> bool {
    tokens.len() > 0 && tokens.last().token_type == TokenType::Eof
}

/// How far a parse has come.
pub struct Cursor {
    /// The index of the next token.
    pub pos: int,
    /// The id that the next variable reference gets.
    pub next_id: usize,
    /// The complaints so far.
    pub errors: Seq<Diagnostic>,
}

/// What a production gives: a value, or none after a syntax error, and the
/// cursor behind it.
pub struct Parsed<T> {
    pub value: Option<T>,
    pub at: Cursor,
}

pub open spec fn ok<T>(value: T, at: Cursor) -> Parsed<T> {
    Parsed { value: Some(value), at }
}

pub open spec fn fail<T>(at: Cursor) -> Parsed<T> {
    Parsed { value: None, at }
}

/// The token at the cursor.
pub open spec fn peek(t: Seq<Token>, c: Cursor) -> Token {
    t[c.pos]
}

/// The token before the cursor.
pub open spec fn previous(t: Seq<Token>, c: Cursor) -> Token {
    t[c.pos - 1]
}

/// Whether the cursor stands at the end-of-input token.
pub open spec fn at_end(t: Seq<Token>, c: Cursor) -> bool {
    !(0 <= c.pos < t.len()) || peek(t, c).token_type == TokenType::Eof
}

/// Whether the token at the cursor is of class `kind`.
pub open spec fn check(t: Seq<Token>, c: Cursor, kind: TokenType) -> bool {
    !at_end(t, c) && peek(t, c).token_type == kind
}

/// The cursor one token on; the end-of-input token is never passed.
pub open spec fn advance(t: Seq<Token>, c: Cursor) -> Cursor {
    if at_end(t, c) {
        c
    } else {
        Cursor { pos: c.pos + 1, ..c }
    }
}

/// The cursor with one more complaint, about `token`.
pub open spec fn complain(c: Cursor, token: Token, message: &'static str) -> Cursor {
    Cursor {
        errors: c.errors.push(Diagnostic { line: token.line, place: place_of(token), message }),
        ..c
    }
}

/// The cursor after its next id has been given out. Ids are given out in
/// order; the count stops at the largest `usize`.
pub open spec fn fresh(c: Cursor) -> Cursor {
    Cursor {
        next_id: if c.next_id < usize::MAX {
            (c.next_id + 1) as usize
        } else {
            c.next_id
        },
        ..c
    }
}

/// Takes the token at the cursor if it is of class `kind`, and complains with
/// `message` if it is not.
pub open spec fn consume(t: Seq<Token>, c: Cursor, kind: TokenType, message: &'static str) -> Parsed<
    Token,
> {
    if check(t, c, kind) {
        ok(peek(t, c), advance(t, c))
    } else {
        fail(complain(c, peek(t, c), message))
    }
}

/// The cursor `n`, which a production that started at `c` left behind, as
/// long as it lies at or behind `c` and within the tokens; the cursor is kept
/// at `c` otherwise. A parse does not move backwards, so that this is `n`
/// itself: the module `progress` proves it of every production.
pub open spec fn onward(t: Seq<Token>, c: Cursor, n: Cursor) -> Cursor {
    if c.pos <= n.pos < t.len() {
        n
    } else {
        Cursor { pos: c.pos, ..n }
    }
}

/// The cursor `n`, which a declaration that started at `c` left behind, as
/// long as it lies behind `c` and within the tokens; the cursor is moved one
/// token on otherwise. A declaration takes at least one token, so that this
/// is `n` itself: the module `progress` proves it.
pub open spec fn beyond(t: Seq<Token>, c: Cursor, n: Cursor) -> Cursor {
    if c.pos < n.pos < t.len() {
        n
    } else {
        Cursor { pos: c.pos + 1, ..n }
    }
}

/// The levels of binary operators, from the loosest to the tightest.
#[derive(Clone, Copy)]
pub enum Level {
    Or,
    And,
    Equality,
    Comparison,
    Term,
    Factor,
}

/// Whether a token of class `kind` is an operator of `level`.
pub open spec fn joins(level: Level, kind: TokenType) -> bool {
    match level {
        Level::Or => kind == TokenType::Or,
        Level::And => kind == TokenType::And,
        Level::Equality => kind == TokenType::BangEqual || kind == TokenType::EqualEqual,
        Level::Comparison => kind == TokenType::Greater || kind == TokenType::GreaterEqual || kind
            == TokenType::Less || kind == TokenType::LessEqual,
        Level::Term => kind == TokenType::Minus || kind == TokenType::Plus,
        Level::Factor => kind == TokenType::Slash || kind == TokenType::Star,
    }
}

/// The level that binds tighter than `level`; the operands of the tightest
/// are unary expressions.
pub open spec fn tighter(level: Level) -> Option<Level> {
    match level {
        Level::Or => Some(Level::And),
        Level::And => Some(Level::Equality),
        Level::Equality => Some(Level::Comparison),
        Level::Comparison => Some(Level::Term),
        Level::Term => Some(Level::Factor),
        Level::Factor => None,
    }
}

pub open spec fn height(level: Level) -> nat {
    match level {
        Level::Or => 6,
        Level::And => 5,
        Level::Equality => 4,
        Level::Comparison => 3,
        Level::Term => 2,
        Level::Factor => 1,
    }
}

/// The node for `left operator right` at `level`: `and` and `or` short-circuit
/// and get a node of their own kind.
pub open spec fn combine(level: Level, left: ExprView, operator: Token, right: ExprView) -> ExprView {
    match level {
        Level::Or | Level::And => ExprView::LogicalExpr {
            left: Box::new(left),
            operator,
            right: Box::new(right),
        },
        _ => ExprView::BinaryExpr { left: Box::new(left), operator, right: Box::new(right) },
    }
}

/// primary → "true" | "false" | "nil" | "this" | NUMBER | STRING | IDENT
///         | "(" expression ")" | "super" "." IDENT
pub open spec fn primary(t: Seq<Token>, c: Cursor) -> Parsed<ExprView>
    decreases t.len() - c.pos, 1nat,
{
    let token = peek(t, c);
    let c1 = advance(t, c);
    if check(t, c, TokenType::False) {
        ok(ExprView::LiteralExpr { value: Literal::BoolLiteral(false) }, c1)
    } else if check(t, c, TokenType::True) {
        ok(ExprView::LiteralExpr { value: Literal::BoolLiteral(true) }, c1)
    } else if check(t, c, TokenType::NilTokenType) {
        ok(ExprView::LiteralExpr { value: Literal::NoneLiteral }, c1)
    } else if check(t, c, TokenType::Number) || check(t, c, TokenType::StringToken) {
        ok(ExprView::LiteralExpr { value: token.literal }, c1)
    } else if check(t, c, TokenType::Super) {
        let dot = consume(t, c1, TokenType::Dot, "Expect '.' after 'super'.");
        if dot.value is None {
            fail(dot.at)
        } else {
            let method = consume(
                t,
                dot.at,
                TokenType::Identifier,
                "Expect superclass method name.",
            );
            match method.value {
                None => fail(method.at),
                Some(m) => ok(
                    ExprView::SuperExpr { keyword: token, method: m, id: method.at.next_id },
                    fresh(method.at),
                ),
            }
        }
    } else if check(t, c, TokenType::This) {
        ok(ExprView::ThisExpr { keyword: token, id: c1.next_id }, fresh(c1))
    } else if check(t, c, TokenType::Identifier) {
        ok(ExprView::VariableExpr { name: token, id: c1.next_id }, fresh(c1))
    } else if check(t, c, TokenType::LeftParen) {
        let inner = expression(t, c1);
        match inner.value {
            None => fail(inner.at),
            Some(e) => {
                let close = consume(
                    t,
                    inner.at,
                    TokenType::RightParen,
                    "Expect ')' after expression.",
                );
                if close.value is None {
                    fail(close.at)
                } else {
                    ok(ExprView::GroupingExpr { expression: Box::new(e) }, close.at)
                }
            },
        }
    } else {
        fail(complain(c, token, "Expect expression."))
    }
}

/// The arguments of a call, after those in `done`, up to the closing
/// parenthesis. More than 255 draw a complaint and are parsed all the same.
pub open spec fn arguments(t: Seq<Token>, c: Cursor, done: Seq<ExprView>) -> Parsed<Seq<ExprView>>
    decreases t.len() - c.pos, 21nat,
{
    let c0 = if done.len() >= 255 {
        complain(c, peek(t, c), "Can't have more than 255 arguments.")
    } else {
        c
    };
    let e = expression(t, c0);
    match e.value {
        None => fail(e.at),
        Some(v) => {
            let c1 = onward(t, c, e.at);
            if check(t, c1, TokenType::Comma) {
                arguments(t, advance(t, c1), done.push(v))
            } else {
                ok(done.push(v), c1)
            }
        },
    }
}

/// The rest of a call of `callee`, from behind its opening parenthesis.
pub open spec fn finish_call(t: Seq<Token>, c: Cursor, callee: ExprView) -> Parsed<ExprView>
    decreases t.len() - c.pos, 22nat,
{
    let args = if check(t, c, TokenType::RightParen) {
        ok(Seq::<ExprView>::empty(), c)
    } else {
        arguments(t, c, Seq::<ExprView>::empty())
    };
    match args.value {
        None => fail(args.at),
        Some(list) => {
            let paren = consume(t, args.at, TokenType::RightParen, "Expect ')' after arguments.");
            match paren.value {
                None => fail(paren.at),
                Some(p) => ok(
                    ExprView::CallExpr { callee: Box::new(callee), paren: p, arguments: list },
                    paren.at,
                ),
            }
        },
    }
}

/// What follows a primary expression: any number of calls and property
/// accesses, applied from left to right.
pub open spec fn call_rest(t: Seq<Token>, c: Cursor, callee: ExprView) -> Parsed<ExprView>
    decreases t.len() - c.pos, 2nat,
{
    if check(t, c, TokenType::LeftParen) {
        let called = finish_call(t, advance(t, c), callee);
        match called.value {
            None => called,
            Some(e) => call_rest(t, onward(t, advance(t, c), called.at), e),
        }
    } else if check(t, c, TokenType::Dot) {
        let name = consume(
            t,
            advance(t, c),
            TokenType::Identifier,
            "Expect property name after '.'.",
        );
        match name.value {
            None => fail(name.at),
            Some(n) => call_rest(
                t,
                onward(t, advance(t, c), name.at),
                ExprView::GetExpr { object: Box::new(callee), name: n },
            ),
        }
    } else {
        ok(callee, c)
    }
}

/// call → primary ( "(" arguments? ")" | "." IDENT )*
pub open spec fn call(t: Seq<Token>, c: Cursor) -> Parsed<ExprView>
    decreases t.len() - c.pos, 3nat,
{
    let callee = primary(t, c);
    match callee.value {
        None => callee,
        Some(e) => call_rest(t, onward(t, c, callee.at), e),
    }
}

/// unary → ("!"|"-") unary | call
pub open spec fn unary(t: Seq<Token>, c: Cursor) -> Parsed<ExprView>
    decreases t.len() - c.pos, 4nat,
{
    if check(t, c, TokenType::Bang) || check(t, c, TokenType::Minus) {
        let right = unary(t, advance(t, c));
        match right.value {
            None => right,
            Some(r) => ok(
                ExprView::UnaryExpr { operator: peek(t, c), right: Box::new(r) },
                right.at,
            ),
        }
    } else {
        call(t, c)
    }
}

/// An operand of `level`: an expression of the next tighter level.
pub open spec fn operand(t: Seq<Token>, c: Cursor, level: Level) -> Parsed<ExprView>
    decreases t.len() - c.pos, 4 + 2 * height(level),
{
    match tighter(level) {
        Some(l) => binary(t, c, l),
        None => unary(t, c),
    }
}

/// What follows an operand of `level`: any number of operators of that level,
/// each with its right operand, joined from left to right.
pub open spec fn binary_rest(t: Seq<Token>, c: Cursor, level: Level, left: ExprView) -> Parsed<
    ExprView,
>
    decreases t.len() - c.pos, 0nat,
{
    if !at_end(t, c) && joins(level, peek(t, c).token_type) {
        let right = operand(t, advance(t, c), level);
        match right.value {
            None => right,
            Some(r) => binary_rest(
                t,
                onward(t, advance(t, c), right.at),
                level,
                combine(level, left, peek(t, c), r),
            ),
        }
    } else {
        ok(left, c)
    }
}

/// The expressions of one level of binary operators.
pub open spec fn binary(t: Seq<Token>, c: Cursor, level: Level) -> Parsed<ExprView>
    decreases t.len() - c.pos, 5 + 2 * height(level),
{
    let first = operand(t, c, level);
    match first.value {
        None => first,
        Some(e) => binary_rest(t, onward(t, c, first.at), level, e),
    }
}

/// assignment → (call ".")? IDENT "=" assignment | logic_or
///
/// The left side is parsed as an expression; behind a `=` a variable becomes
/// the target of an assignment, which takes over its id, and a property
/// access becomes the target of a property assignment. Anything else is no
/// target.
pub open spec fn assignment(t: Seq<Token>, c: Cursor) -> Parsed<ExprView>
    decreases t.len() - c.pos, 19nat,
{
    let left = binary(t, c, Level::Or);
    match left.value {
        None => left,
        Some(target) => {
            let c1 = onward(t, c, left.at);
            if check(t, c1, TokenType::Equal) {
                let value = assignment(t, advance(t, c1));
                match value.value {
                    None => value,
                    Some(v) => match target {
                        ExprView::VariableExpr { name, id } => ok(
                            ExprView::AssignExpr { name, value: Box::new(v), id },
                            value.at,
                        ),
                        ExprView::GetExpr { object, name } => ok(
                            ExprView::SetExpr { object, name, value: Box::new(v) },
                            value.at,
                        ),
                        _ => fail(complain(value.at, peek(t, c1), "Invalid assignment target.")),
                    },
                }
            } else {
                ok(target, c1)
            }
        },
    }
}

/// expression → assignment
pub open spec fn expression(t: Seq<Token>, c: Cursor) -> Parsed<ExprView>
    decreases t.len() - c.pos, 20nat,
{
    assignment(t, c)
}

/// What a function-like declaration is: its complaints name it.
#[derive(Clone, Copy)]
pub enum FunctionKind {
    Function,
    Method,
}

pub open spec fn expect_name(kind: FunctionKind) -> &'static str {
    match kind {
        FunctionKind::Function => "Expect function name.",
        FunctionKind::Method => "Expect method name.",
    }
}

pub open spec fn expect_parameters(kind: FunctionKind) -> &'static str {
    match kind {
        FunctionKind::Function => "Expect '(' after function name.",
        FunctionKind::Method => "Expect '(' after method name.",
    }
}

pub open spec fn expect_body(kind: FunctionKind) -> &'static str {
    match kind {
        FunctionKind::Function => "Expect '{' before function body.",
        FunctionKind::Method => "Expect '{' before method body.",
    }
}

/// Whether a statement can begin with a token of class `kind`: error recovery
/// stops in front of such a token.
pub open spec fn begins_statement(kind: TokenType) -> bool {
    kind == TokenType::Class || kind == TokenType::Fun || kind == TokenType::Var || kind
        == TokenType::For || kind == TokenType::If || kind == TokenType::While || kind
        == TokenType::Print || kind == TokenType::Return
}

/// Skips tokens up to a place where a statement may begin: just behind a
/// semicolon, in front of a keyword that begins a statement, or at the end.
pub open spec fn skip_to_boundary(t: Seq<Token>, c: Cursor) -> Cursor
    decreases t.len() - c.pos,
{
    if at_end(t, c) {
        c
    } else if c.pos >= 1 && previous(t, c).token_type == TokenType::Semicolon {
        c
    } else if begins_statement(peek(t, c).token_type) {
        c
    } else {
        skip_to_boundary(t, advance(t, c))
    }
}

/// Recovery after a syntax error: the token at the cursor is given up, and
/// then all tokens up to the next statement boundary.
pub open spec fn synchronize(t: Seq<Token>, c: Cursor) -> Cursor {
    skip_to_boundary(t, advance(t, c))
}

/// exprStmt → expression ";"
pub open spec fn expression_statement(t: Seq<Token>, c: Cursor) -> Parsed<StmtView>
    decreases t.len() - c.pos, 21nat,
{
    let e = expression(t, c);
    match e.value {
        None => fail(e.at),
        Some(v) => {
            let semi = consume(t, e.at, TokenType::Semicolon, "Expect ';' after expression.");
            if semi.value is None {
                fail(semi.at)
            } else {
                ok(StmtView::ExpressionStmt { expression: v }, semi.at)
            }
        },
    }
}

/// printStmt → "print" expression ";", from behind the keyword.
pub open spec fn print_statement(t: Seq<Token>, c: Cursor) -> Parsed<StmtView>
    decreases t.len() - c.pos, 21nat,
{
    let e = expression(t, c);
    match e.value {
        None => fail(e.at),
        Some(v) => {
            let semi = consume(t, e.at, TokenType::Semicolon, "Expect ';' after value.");
            if semi.value is None {
                fail(semi.at)
            } else {
                ok(StmtView::PrintStmt { expression: v }, semi.at)
            }
        },
    }
}

/// returnStmt → "return" expression? ";", from behind the keyword. Without
/// an expression the statement returns `nil`.
pub open spec fn return_statement(t: Seq<Token>, c: Cursor) -> Parsed<StmtView>
    decreases t.len() - c.pos, 21nat,
{
    let e = if !check(t, c, TokenType::Semicolon) {
        expression(t, c)
    } else {
        ok(ExprView::LiteralExpr { value: Literal::NoneLiteral }, c)
    };
    match e.value {
        None => fail(e.at),
        Some(v) => {
            let semi = consume(t, e.at, TokenType::Semicolon, "Expect ';' after return value.");
            if semi.value is None {
                fail(semi.at)
            } else {
                ok(StmtView::ReturnStmt { keyword: previous(t, c), value: v }, semi.at)
            }
        },
    }
}

/// varDecl → "var" IDENT ("=" expression)? ";", from behind the keyword.
/// Without an initializer the variable starts as `nil`.
pub open spec fn var_declaration(t: Seq<Token>, c: Cursor) -> Parsed<StmtView>
    decreases t.len() - c.pos, 21nat,
{
    let name = consume(t, c, TokenType::Identifier, "Expect variable name.");
    match name.value {
        None => fail(name.at),
        Some(n) => {
            let init = if check(t, name.at, TokenType::Equal) {
                expression(t, advance(t, name.at))
            } else {
                ok(ExprView::LiteralExpr { value: Literal::NoneLiteral }, name.at)
            };
            match init.value {
                None => fail(init.at),
                Some(v) => {
                    let semi = consume(
                        t,
                        init.at,
                        TokenType::Semicolon,
                        "Expect ';' after variable declaration.",
                    );
                    if semi.value is None {
                        fail(semi.at)
                    } else {
                        ok(StmtView::VarStmt { name: n, initializer: v }, semi.at)
                    }
                },
            }
        },
    }
}

/// whileStmt → "while" "(" expression ")" statement, from behind the keyword.
pub open spec fn while_statement(t: Seq<Token>, c: Cursor) -> Parsed<StmtView>
    decreases t.len() - c.pos, 30nat,
{
    let open = consume(t, c, TokenType::LeftParen, "Expect '(' after 'while'.");
    if open.value is None {
        fail(open.at)
    } else {
        let cond = expression(t, open.at);
        match cond.value {
            None => fail(cond.at),
            Some(condition) => {
                let close = consume(
                    t,
                    cond.at,
                    TokenType::RightParen,
                    "Expect ')' after condition.",
                );
                if close.value is None {
                    fail(close.at)
                } else {
                    let body = statement(t, onward(t, c, close.at));
                    match body.value {
                        None => fail(body.at),
                        Some(b) => ok(StmtView::WhileStmt { condition, body: Box::new(b) }, body.at),
                    }
                }
            },
        }
    }
}

/// ifStmt → "if" "(" expression ")" statement ("else" statement)?, from
/// behind the keyword. An `else` belongs to the nearest `if`.
pub open spec fn if_statement(t: Seq<Token>, c: Cursor) -> Parsed<StmtView>
    decreases t.len() - c.pos, 30nat,
{
    let open = consume(t, c, TokenType::LeftParen, "Expect '(' after 'if'.");
    if open.value is None {
        fail(open.at)
    } else {
        let cond = expression(t, open.at);
        match cond.value {
            None => fail(cond.at),
            Some(condition) => {
                let close = consume(
                    t,
                    cond.at,
                    TokenType::RightParen,
                    "Expect ')' after if condition.",
                );
                if close.value is None {
                    fail(close.at)
                } else {
                    let then = statement(t, onward(t, c, close.at));
                    match then.value {
                        None => fail(then.at),
                        Some(then_branch) => {
                            let c1 = onward(t, c, then.at);
                            if check(t, c1, TokenType::Else) {
                                let other = statement(t, advance(t, c1));
                                match other.value {
                                    None => fail(other.at),
                                    Some(else_branch) => ok(
                                        StmtView::IfStmt {
                                            condition,
                                            then_branch: Box::new(then_branch),
                                            else_branch: Some(Box::new(else_branch)),
                                        },
                                        other.at,
                                    ),
                                }
                            } else {
                                ok(
                                    StmtView::IfStmt {
                                        condition,
                                        then_branch: Box::new(then_branch),
                                        else_branch: None,
                                    },
                                    c1,
                                )
                            }
                        },
                    }
                }
            },
        }
    }
}

/// The initializer clause of a `for`: nothing, a variable declaration or an
/// expression statement.
pub open spec fn for_initializer(t: Seq<Token>, c: Cursor) -> Parsed<Option<StmtView>>
    decreases t.len() - c.pos, 22nat,
{
    if check(t, c, TokenType::Semicolon) {
        ok(None, advance(t, c))
    } else if check(t, c, TokenType::Var) {
        let d = var_declaration(t, advance(t, c));
        match d.value {
            None => fail(d.at),
            Some(s) => ok(Some(s), d.at),
        }
    } else {
        let e = expression_statement(t, c);
        match e.value {
            None => fail(e.at),
            Some(s) => ok(Some(s), e.at),
        }
    }
}

/// The loop that a `for` statement stands for: the body, followed by the
/// increment if there is one, repeated while the condition holds, all behind
/// the initializer if there is one.
pub open spec fn desugar_for(
    initializer: Option<StmtView>,
    condition: ExprView,
    increment: Option<ExprView>,
    body: StmtView,
) -> StmtView {
    let stepped = match increment {
        Some(e) => StmtView::BlockStmt {
            statements: seq![body, StmtView::ExpressionStmt { expression: e }],
        },
        None => body,
    };
    let repeated = StmtView::WhileStmt { condition, body: Box::new(stepped) };
    match initializer {
        Some(s) => StmtView::BlockStmt { statements: seq![s, repeated] },
        None => repeated,
    }
}

/// The condition clause of a `for` and the semicolon behind it. A missing
/// condition is `true`.
pub open spec fn for_condition(t: Seq<Token>, c: Cursor) -> Parsed<ExprView>
    decreases t.len() - c.pos, 22nat,
{
    let cond = if !check(t, c, TokenType::Semicolon) {
        expression(t, c)
    } else {
        ok(ExprView::LiteralExpr { value: Literal::BoolLiteral(true) }, c)
    };
    match cond.value {
        None => fail(cond.at),
        Some(condition) => {
            let semi = consume(
                t,
                cond.at,
                TokenType::Semicolon,
                "Expect ';' after loop condition.",
            );
            if semi.value is None {
                fail(semi.at)
            } else {
                ok(condition, semi.at)
            }
        },
    }
}

/// The increment clause of a `for`, if there is one, and the closing
/// parenthesis behind it.
pub open spec fn for_increment(t: Seq<Token>, c: Cursor) -> Parsed<Option<ExprView>>
    decreases t.len() - c.pos, 22nat,
{
    let incr = if !check(t, c, TokenType::RightParen) {
        let e = expression(t, c);
        match e.value {
            None => fail(e.at),
            Some(v) => ok(Some(v), e.at),
        }
    } else {
        ok(None, c)
    };
    match incr.value {
        None => fail(incr.at),
        Some(increment) => {
            let close = consume(
                t,
                incr.at,
                TokenType::RightParen,
                "Expect ')' after for clauses.",
            );
            if close.value is None {
                fail(close.at)
            } else {
                ok(increment, close.at)
            }
        },
    }
}

/// forStmt → "for" "(" (varDecl | exprStmt | ";") expression? ";" expression? ")" statement,
/// from behind the keyword. The first piece that is missing ends the parse
/// of the statement.
pub open spec fn for_statement(t: Seq<Token>, c: Cursor) -> Parsed<StmtView>
    decreases t.len() - c.pos, 30nat,
{
    let open = consume(t, c, TokenType::LeftParen, "Expect '(' after 'for'.");
    let init = for_initializer(t, onward(t, c, open.at));
    let cond = for_condition(t, onward(t, c, init.at));
    let incr = for_increment(t, onward(t, c, cond.at));
    let body = statement(t, onward(t, c, incr.at));
    if open.value is None {
        fail(open.at)
    } else if init.value is None {
        fail(init.at)
    } else if cond.value is None {
        fail(cond.at)
    } else if incr.value is None {
        fail(incr.at)
    } else if body.value is None {
        fail(body.at)
    } else {
        ok(
            desugar_for(
                init.value.unwrap(),
                cond.value.unwrap(),
                incr.value.unwrap(),
                body.value.unwrap(),
            ),
            body.at,
        )
    }
}

/// The declarations of a block after those in `done`, and its closing brace.
/// A declaration with a syntax error is left out.
pub open spec fn block_rest(t: Seq<Token>, c: Cursor, done: Seq<StmtView>) -> Parsed<Seq<StmtView>>
    decreases t.len() - c.pos, 27nat,
{
    if !check(t, c, TokenType::RightBrace) && !at_end(t, c) {
        let d = declaration(t, c);
        block_rest(
            t,
            beyond(t, c, d.at),
            match d.value {
                Some(s) => done.push(s),
                None => done,
            },
        )
    } else {
        let close = consume(t, c, TokenType::RightBrace, "Expect '}' after block.");
        if close.value is None {
            fail(close.at)
        } else {
            ok(done, close.at)
        }
    }
}

/// statement → exprStmt | forStmt | ifStmt | printStmt | returnStmt | whileStmt | block
pub open spec fn statement(t: Seq<Token>, c: Cursor) -> Parsed<StmtView>
    decreases t.len() - c.pos, 25nat,
{
    if check(t, c, TokenType::For) {
        for_statement(t, advance(t, c))
    } else if check(t, c, TokenType::If) {
        if_statement(t, advance(t, c))
    } else if check(t, c, TokenType::Print) {
        print_statement(t, advance(t, c))
    } else if check(t, c, TokenType::Return) {
        return_statement(t, advance(t, c))
    } else if check(t, c, TokenType::While) {
        while_statement(t, advance(t, c))
    } else if check(t, c, TokenType::LeftBrace) {
        let body = block_rest(t, advance(t, c), Seq::<StmtView>::empty());
        match body.value {
            None => fail(body.at),
            Some(statements) => ok(StmtView::BlockStmt { statements }, body.at),
        }
    } else {
        expression_statement(t, c)
    }
}

/// The parameters of a function after those in `done`. More than 255 draw a
/// complaint and are parsed all the same.
pub open spec fn parameters(t: Seq<Token>, c: Cursor, done: Seq<Token>) -> Parsed<Seq<Token>>
    decreases t.len() - c.pos,
{
    let c0 = if done.len() >= 255 {
        complain(c, peek(t, c), "Can't have more than 255 parameters.")
    } else {
        c
    };
    let name = consume(t, c0, TokenType::Identifier, "Expect parameter name.");
    match name.value {
        None => fail(name.at),
        Some(n) => if check(t, name.at, TokenType::Comma) {
            parameters(t, advance(t, name.at), done.push(n))
        } else {
            ok(done.push(n), name.at)
        },
    }
}

/// function → IDENT "(" parameters? ")" block
pub open spec fn function(t: Seq<Token>, c: Cursor, kind: FunctionKind) -> Parsed<FunctionView>
    decreases t.len() - c.pos, 28nat,
{
    let name = consume(t, c, TokenType::Identifier, expect_name(kind));
    match name.value {
        None => fail(name.at),
        Some(n) => {
            let open = consume(t, name.at, TokenType::LeftParen, expect_parameters(kind));
            if open.value is None {
                fail(open.at)
            } else {
                let params = if !check(t, open.at, TokenType::RightParen) {
                    parameters(t, open.at, Seq::<Token>::empty())
                } else {
                    ok(Seq::<Token>::empty(), open.at)
                };
                match params.value {
                    None => fail(params.at),
                    Some(ps) => {
                        let close = consume(
                            t,
                            params.at,
                            TokenType::RightParen,
                            "Expect ')' after parameters.",
                        );
                        if close.value is None {
                            fail(close.at)
                        } else {
                            let brace = consume(
                                t,
                                close.at,
                                TokenType::LeftBrace,
                                expect_body(kind),
                            );
                            if brace.value is None {
                                fail(brace.at)
                            } else {
                                let body = block_rest(
                                    t,
                                    onward(t, c, brace.at),
                                    Seq::<StmtView>::empty(),
                                );
                                match body.value {
                                    None => fail(body.at),
                                    Some(b) => ok(
                                        FunctionView { name: n, params: ps, body: b },
                                        body.at,
                                    ),
                                }
                            }
                        }
                    },
                }
            }
        },
    }
}

/// The methods of a class after those in `done`, up to the closing brace.
pub open spec fn methods_rest(t: Seq<Token>, c: Cursor, done: Seq<FunctionView>) -> Parsed<
    Seq<FunctionView>,
>
    decreases t.len() - c.pos, 29nat,
{
    if !check(t, c, TokenType::RightBrace) && !at_end(t, c) {
        let m = function(t, c, FunctionKind::Method);
        match m.value {
            None => fail(m.at),
            Some(f) => methods_rest(t, beyond(t, c, m.at), done.push(f)),
        }
    } else {
        ok(done, c)
    }
}

/// classDecl → "class" IDENT ("<" IDENT)? "{" function* "}", from behind the
/// keyword.
pub open spec fn class_declaration(t: Seq<Token>, c: Cursor) -> Parsed<StmtView>
    decreases t.len() - c.pos, 31nat,
{
    let name = consume(t, c, TokenType::Identifier, "Expect class name.");
    match name.value {
        None => fail(name.at),
        Some(n) => {
            let superclass = if check(t, name.at, TokenType::Less) {
                let parent = consume(
                    t,
                    advance(t, name.at),
                    TokenType::Identifier,
                    "Expect superclass name.",
                );
                match parent.value {
                    None => fail(parent.at),
                    Some(p) => ok(
                        Some(Variable { name: p, id: parent.at.next_id }),
                        fresh(parent.at),
                    ),
                }
            } else {
                ok(None, name.at)
            };
            match superclass.value {
                None => fail(superclass.at),
                Some(sup) => {
                    let brace = consume(
                        t,
                        superclass.at,
                        TokenType::LeftBrace,
                        "Expect '{' before class body.",
                    );
                    if brace.value is None {
                        fail(brace.at)
                    } else {
                        let methods = methods_rest(
                            t,
                            onward(t, c, brace.at),
                            Seq::<FunctionView>::empty(),
                        );
                        match methods.value {
                            None => fail(methods.at),
                            Some(ms) => {
                                let close = consume(
                                    t,
                                    methods.at,
                                    TokenType::RightBrace,
                                    "Expect '}' after class body.",
                                );
                                if close.value is None {
                                    fail(close.at)
                                } else {
                                    ok(
                                        StmtView::ClassStmt {
                                            declaration: ClassView {
                                                name: n,
                                                superclass: sup,
                                                methods: ms,
                                            },
                                        },
                                        close.at,
                                    )
                                }
                            },
                        }
                    }
                },
            }
        },
    }
}

/// declaration → classDecl | funDecl | varDecl | statement. After a syntax
/// error the parse recovers: it gives no statement and goes on at the next
/// statement boundary.
pub open spec fn declaration(t: Seq<Token>, c: Cursor) -> Parsed<StmtView>
    decreases t.len() - c.pos, 26nat,
{
    let r = if check(t, c, TokenType::Class) {
        class_declaration(t, advance(t, c))
    } else if check(t, c, TokenType::Fun) {
        let f = function(t, advance(t, c), FunctionKind::Function);
        match f.value {
            None => fail(f.at),
            Some(declaration) => ok(StmtView::FunctionStmt { declaration }, f.at),
        }
    } else if check(t, c, TokenType::Var) {
        var_declaration(t, advance(t, c))
    } else {
        statement(t, c)
    };
    match r.value {
        Some(_) => r,
        None => fail(synchronize(t, r.at)),
    }
}

/// program → declaration* EOF: the declarations after those in `done`.
pub open spec fn program(t: Seq<Token>, c: Cursor, done: Seq<StmtView>) -> Parsed<Seq<StmtView>>
    decreases t.len() - c.pos, 32nat,
{
    if !at_end(t, c) {
        let d = declaration(t, c);
        program(
            t,
            beyond(t, c, d.at),
            match d.value {
                Some(s) => done.push(s),
                None => done,
            },
        )
    } else {
        ok(done, c)
    }
}

} // verus!
