//! A parse moves forward: no production leaves the cursor in front of where
//! it found it, or outside the tokens; an expression and a declaration take
//! at least one token. The safeguards in the grammar, `onward` and `beyond`,
//! therefore never change a cursor.
use crate::expr::ExprView;
use crate::grammar::{
    advance, arguments, assignment, at_end, beyond, binary, binary_rest, block_rest, call,
    call_rest, check, class_declaration, consume, declaration, ends_with_eof, expression,
    expression_statement, finish_call, for_condition, for_increment, for_initializer,
    for_statement, function, height, if_statement, methods_rest, onward, operand, parameters,
    primary, print_statement, program, return_statement, skip_to_boundary, statement,
    synchronize, tighter, unary, var_declaration, while_statement, Cursor, FunctionKind, Level,
    Parsed,
};
use crate::stmt::{FunctionView, StmtView};
use crate::token::{Token, TokenType};
use vstd::prelude::*;

verus! {

/// The cursor stands at a token.
pub open spec fn inside(t: Seq<Token>, c: Cursor) -> bool {
    0 <= c.pos < t.len()
}

/// The cursor `n` lies at or behind `c`, at a token.
pub open spec fn on<T>(t: Seq<Token>, c: Cursor, r: Parsed<T>) -> bool {
    c.pos <= r.at.pos < t.len()
}

/// The same, and a value was parsed only if at least one token was taken.
pub open spec fn forward<T>(t: Seq<Token>, c: Cursor, r: Parsed<T>) -> bool {
    on(t, c, r) && (r.value is Some ==> c.pos < r.at.pos)
}

pub proof fn lemma_primary(t: Seq<Token>, c: Cursor)
    requires
        ends_with_eof(t),
        inside(t, c),
    ensures
        forward(t, c, primary(t, c)),
    decreases t.len() - c.pos, 1nat,
{
    if check(t, c, TokenType::LeftParen) {
        lemma_expression(t, advance(t, c));
    }
}

pub proof fn lemma_arguments(t: Seq<Token>, c: Cursor, done: Seq<ExprView>)
    requires
        ends_with_eof(t),
        inside(t, c),
    ensures
        forward(t, c, arguments(t, c, done)),
    decreases t.len() - c.pos, 21nat,
{
    let c0 = if done.len() >= 255 {
        crate::grammar::complain(c, crate::grammar::peek(t, c), "Can't have more than 255 arguments.")
    } else {
        c
    };
    lemma_expression(t, c0);
    let e = expression(t, c0);
    match e.value {
        None => {},
        Some(v) => {
            let c1 = onward(t, c, e.at);
            if check(t, c1, TokenType::Comma) {
                lemma_arguments(t, advance(t, c1), done.push(v));
            }
        },
    }
}

pub proof fn lemma_finish_call(t: Seq<Token>, c: Cursor, callee: ExprView)
    requires
        ends_with_eof(t),
        inside(t, c),
    ensures
        forward(t, c, finish_call(t, c, callee)),
    decreases t.len() - c.pos, 22nat,
{
    let args = if check(t, c, TokenType::RightParen) {
        crate::grammar::ok(Seq::<ExprView>::empty(), c)
    } else {
        lemma_arguments(t, c, Seq::<ExprView>::empty());
        arguments(t, c, Seq::<ExprView>::empty())
    };
    assert(on(t, c, args));
    match args.value {
        None => {
            assert(finish_call(t, c, callee) == crate::grammar::fail::<ExprView>(args.at));
        },
        Some(list) => {
            let paren = consume(t, args.at, TokenType::RightParen, "Expect ')' after arguments.");
            assert(args.at.pos <= paren.at.pos < t.len());
            assert(paren.value is Some ==> args.at.pos < paren.at.pos);
            assert(finish_call(t, c, callee).at == paren.at);
            assert(finish_call(t, c, callee).value is Some ==> paren.value is Some);
        },
    }
}

pub proof fn lemma_call_rest(t: Seq<Token>, c: Cursor, callee: ExprView)
    requires
        ends_with_eof(t),
        inside(t, c),
    ensures
        on(t, c, call_rest(t, c, callee)),
    decreases t.len() - c.pos, 2nat,
{
    if check(t, c, TokenType::LeftParen) {
        lemma_finish_call(t, advance(t, c), callee);
        let called = finish_call(t, advance(t, c), callee);
        match called.value {
            None => {},
            Some(e) => {
                lemma_call_rest(t, onward(t, advance(t, c), called.at), e);
            },
        }
    } else if check(t, c, TokenType::Dot) {
        let name = consume(
            t,
            advance(t, c),
            TokenType::Identifier,
            "Expect property name after '.'.",
        );
        match name.value {
            None => {},
            Some(n) => {
                lemma_call_rest(
                    t,
                    onward(t, advance(t, c), name.at),
                    ExprView::GetExpr { object: Box::new(callee), name: n },
                );
            },
        }
    }
}

pub proof fn lemma_call(t: Seq<Token>, c: Cursor)
    requires
        ends_with_eof(t),
        inside(t, c),
    ensures
        forward(t, c, call(t, c)),
    decreases t.len() - c.pos, 3nat,
{
    lemma_primary(t, c);
    let callee = primary(t, c);
    match callee.value {
        None => {},
        Some(e) => {
            lemma_call_rest(t, onward(t, c, callee.at), e);
        },
    }
}

pub proof fn lemma_unary(t: Seq<Token>, c: Cursor)
    requires
        ends_with_eof(t),
        inside(t, c),
    ensures
        forward(t, c, unary(t, c)),
    decreases t.len() - c.pos, 4nat,
{
    if check(t, c, TokenType::Bang) || check(t, c, TokenType::Minus) {
        lemma_unary(t, advance(t, c));
    } else {
        lemma_call(t, c);
    }
}

pub proof fn lemma_operand(t: Seq<Token>, c: Cursor, level: Level)
    requires
        ends_with_eof(t),
        inside(t, c),
    ensures
        forward(t, c, operand(t, c, level)),
    decreases t.len() - c.pos, 4 + 2 * height(level),
{
    match tighter(level) {
        Some(l) => {
            lemma_binary(t, c, l);
        },
        None => {
            lemma_unary(t, c);
        },
    }
}

pub proof fn lemma_binary_rest(t: Seq<Token>, c: Cursor, level: Level, left: ExprView)
    requires
        ends_with_eof(t),
        inside(t, c),
    ensures
        on(t, c, binary_rest(t, c, level, left)),
    decreases t.len() - c.pos, 0nat,
{
    if !at_end(t, c) && crate::grammar::joins(level, crate::grammar::peek(t, c).token_type) {
        lemma_operand(t, advance(t, c), level);
        let right = operand(t, advance(t, c), level);
        match right.value {
            None => {},
            Some(r) => {
                lemma_binary_rest(
                    t,
                    onward(t, advance(t, c), right.at),
                    level,
                    crate::grammar::combine(level, left, crate::grammar::peek(t, c), r),
                );
            },
        }
    }
}

pub proof fn lemma_binary(t: Seq<Token>, c: Cursor, level: Level)
    requires
        ends_with_eof(t),
        inside(t, c),
    ensures
        forward(t, c, binary(t, c, level)),
    decreases t.len() - c.pos, 5 + 2 * height(level),
{
    lemma_operand(t, c, level);
    let first = operand(t, c, level);
    match first.value {
        None => {},
        Some(e) => {
            lemma_binary_rest(t, onward(t, c, first.at), level, e);
        },
    }
}

pub proof fn lemma_assignment(t: Seq<Token>, c: Cursor)
    requires
        ends_with_eof(t),
        inside(t, c),
    ensures
        forward(t, c, assignment(t, c)),
    decreases t.len() - c.pos, 19nat,
{
    lemma_binary(t, c, Level::Or);
    let left = binary(t, c, Level::Or);
    match left.value {
        None => {},
        Some(target) => {
            let c1 = onward(t, c, left.at);
            if check(t, c1, TokenType::Equal) {
                lemma_assignment(t, advance(t, c1));
            }
        },
    }
}

/// An expression leaves the cursor behind where it found it, and a parsed
/// expression takes at least one token.
pub proof fn lemma_expression(t: Seq<Token>, c: Cursor)
    requires
        ends_with_eof(t),
        inside(t, c),
    ensures
        forward(t, c, expression(t, c)),
    decreases t.len() - c.pos, 20nat,
{
    lemma_assignment(t, c);
}

pub proof fn lemma_skip_to_boundary(t: Seq<Token>, c: Cursor)
    requires
        ends_with_eof(t),
        inside(t, c),
    ensures
        c.pos <= skip_to_boundary(t, c).pos < t.len(),
    decreases t.len() - c.pos,
{
    if at_end(t, c) {
    } else if c.pos >= 1 && crate::grammar::previous(t, c).token_type == TokenType::Semicolon {
    } else if crate::grammar::begins_statement(crate::grammar::peek(t, c).token_type) {
    } else {
        lemma_skip_to_boundary(t, advance(t, c));
    }
}

/// Recovery gives up at least one token, unless the input is at its end.
pub proof fn lemma_synchronize(t: Seq<Token>, c: Cursor)
    requires
        ends_with_eof(t),
        inside(t, c),
    ensures
        c.pos <= synchronize(t, c).pos < t.len(),
        !at_end(t, c) ==> c.pos < synchronize(t, c).pos,
{
    lemma_skip_to_boundary(t, advance(t, c));
}

pub proof fn lemma_expression_statement(t: Seq<Token>, c: Cursor)
    requires
        ends_with_eof(t),
        inside(t, c),
    ensures
        forward(t, c, expression_statement(t, c)),
    decreases t.len() - c.pos, 21nat,
{
    lemma_expression(t, c);
}

pub proof fn lemma_print_statement(t: Seq<Token>, c: Cursor)
    requires
        ends_with_eof(t),
        inside(t, c),
    ensures
        forward(t, c, print_statement(t, c)),
    decreases t.len() - c.pos, 21nat,
{
    lemma_expression(t, c);
}

pub proof fn lemma_return_statement(t: Seq<Token>, c: Cursor)
    requires
        ends_with_eof(t),
        inside(t, c),
    ensures
        forward(t, c, return_statement(t, c)),
    decreases t.len() - c.pos, 21nat,
{
    if !check(t, c, TokenType::Semicolon) {
        lemma_expression(t, c);
    }
}

pub proof fn lemma_var_declaration(t: Seq<Token>, c: Cursor)
    requires
        ends_with_eof(t),
        inside(t, c),
    ensures
        forward(t, c, var_declaration(t, c)),
    decreases t.len() - c.pos, 21nat,
{
    let name = consume(t, c, TokenType::Identifier, "Expect variable name.");
    if name.value is Some && check(t, name.at, TokenType::Equal) {
        lemma_expression(t, advance(t, name.at));
    }
}

pub proof fn lemma_while_statement(t: Seq<Token>, c: Cursor)
    requires
        ends_with_eof(t),
        inside(t, c),
    ensures
        forward(t, c, while_statement(t, c)),
    decreases t.len() - c.pos, 30nat,
{
    let open = consume(t, c, TokenType::LeftParen, "Expect '(' after 'while'.");
    if open.value is Some {
        lemma_expression(t, open.at);
        let cond = expression(t, open.at);
        if cond.value is Some {
            let close = consume(t, cond.at, TokenType::RightParen, "Expect ')' after condition.");
            if close.value is Some {
                lemma_statement(t, onward(t, c, close.at));
            }
        }
    }
}

pub proof fn lemma_if_statement(t: Seq<Token>, c: Cursor)
    requires
        ends_with_eof(t),
        inside(t, c),
    ensures
        forward(t, c, if_statement(t, c)),
    decreases t.len() - c.pos, 30nat,
{
    let open = consume(t, c, TokenType::LeftParen, "Expect '(' after 'if'.");
    if open.value is Some {
        lemma_expression(t, open.at);
        let cond = expression(t, open.at);
        if cond.value is Some {
            let close = consume(
                t,
                cond.at,
                TokenType::RightParen,
                "Expect ')' after if condition.",
            );
            if close.value is Some {
                lemma_statement(t, onward(t, c, close.at));
                let then = statement(t, onward(t, c, close.at));
                if then.value is Some {
                    let c1 = onward(t, c, then.at);
                    if check(t, c1, TokenType::Else) {
                        lemma_statement(t, advance(t, c1));
                    }
                }
            }
        }
    }
}

pub proof fn lemma_for_initializer(t: Seq<Token>, c: Cursor)
    requires
        ends_with_eof(t),
        inside(t, c),
    ensures
        forward(t, c, for_initializer(t, c)),
    decreases t.len() - c.pos, 22nat,
{
    if check(t, c, TokenType::Semicolon) {
    } else if check(t, c, TokenType::Var) {
        lemma_var_declaration(t, advance(t, c));
    } else {
        lemma_expression_statement(t, c);
    }
}

pub proof fn lemma_for_condition(t: Seq<Token>, c: Cursor)
    requires
        ends_with_eof(t),
        inside(t, c),
    ensures
        forward(t, c, for_condition(t, c)),
    decreases t.len() - c.pos, 22nat,
{
    if !check(t, c, TokenType::Semicolon) {
        lemma_expression(t, c);
    }
}

pub proof fn lemma_for_increment(t: Seq<Token>, c: Cursor)
    requires
        ends_with_eof(t),
        inside(t, c),
    ensures
        forward(t, c, for_increment(t, c)),
    decreases t.len() - c.pos, 22nat,
{
    if !check(t, c, TokenType::RightParen) {
        lemma_expression(t, c);
    }
}

pub proof fn lemma_for_statement(t: Seq<Token>, c: Cursor)
    requires
        ends_with_eof(t),
        inside(t, c),
    ensures
        forward(t, c, for_statement(t, c)),
    decreases t.len() - c.pos, 30nat,
{
    let open = consume(t, c, TokenType::LeftParen, "Expect '(' after 'for'.");
    lemma_for_initializer(t, onward(t, c, open.at));
    let init = for_initializer(t, onward(t, c, open.at));
    lemma_for_condition(t, onward(t, c, init.at));
    let cond = for_condition(t, onward(t, c, init.at));
    lemma_for_increment(t, onward(t, c, cond.at));
    let incr = for_increment(t, onward(t, c, cond.at));
    lemma_statement(t, onward(t, c, incr.at));
}

pub proof fn lemma_block_rest(t: Seq<Token>, c: Cursor, done: Seq<StmtView>)
    requires
        ends_with_eof(t),
        inside(t, c),
    ensures
        forward(t, c, block_rest(t, c, done)),
    decreases t.len() - c.pos, 27nat,
{
    if !check(t, c, TokenType::RightBrace) && !at_end(t, c) {
        lemma_declaration(t, c);
        let d = declaration(t, c);
        lemma_block_rest(
            t,
            beyond(t, c, d.at),
            match d.value {
                Some(s) => done.push(s),
                None => done,
            },
        );
    }
}

pub proof fn lemma_statement(t: Seq<Token>, c: Cursor)
    requires
        ends_with_eof(t),
        inside(t, c),
    ensures
        forward(t, c, statement(t, c)),
    decreases t.len() - c.pos, 25nat,
{
    if check(t, c, TokenType::For) {
        lemma_for_statement(t, advance(t, c));
    } else if check(t, c, TokenType::If) {
        lemma_if_statement(t, advance(t, c));
    } else if check(t, c, TokenType::Print) {
        lemma_print_statement(t, advance(t, c));
    } else if check(t, c, TokenType::Return) {
        lemma_return_statement(t, advance(t, c));
    } else if check(t, c, TokenType::While) {
        lemma_while_statement(t, advance(t, c));
    } else if check(t, c, TokenType::LeftBrace) {
        lemma_block_rest(t, advance(t, c), Seq::<StmtView>::empty());
    } else {
        lemma_expression_statement(t, c);
    }
}

pub proof fn lemma_parameters(t: Seq<Token>, c: Cursor, done: Seq<Token>)
    requires
        ends_with_eof(t),
        inside(t, c),
    ensures
        forward(t, c, parameters(t, c, done)),
    decreases t.len() - c.pos,
{
    let c0 = if done.len() >= 255 {
        crate::grammar::complain(
            c,
            crate::grammar::peek(t, c),
            "Can't have more than 255 parameters.",
        )
    } else {
        c
    };
    let name = consume(t, c0, TokenType::Identifier, "Expect parameter name.");
    match name.value {
        None => {},
        Some(n) => {
            if check(t, name.at, TokenType::Comma) {
                lemma_parameters(t, advance(t, name.at), done.push(n));
            }
        },
    }
}

pub proof fn lemma_function(t: Seq<Token>, c: Cursor, kind: FunctionKind)
    requires
        ends_with_eof(t),
        inside(t, c),
    ensures
        forward(t, c, function(t, c, kind)),
    decreases t.len() - c.pos, 28nat,
{
    let name = consume(t, c, TokenType::Identifier, crate::grammar::expect_name(kind));
    if name.value is Some {
        let open = consume(
            t,
            name.at,
            TokenType::LeftParen,
            crate::grammar::expect_parameters(kind),
        );
        if open.value is Some {
            if !check(t, open.at, TokenType::RightParen) {
                lemma_parameters(t, open.at, Seq::<Token>::empty());
            }
            let params = if !check(t, open.at, TokenType::RightParen) {
                parameters(t, open.at, Seq::<Token>::empty())
            } else {
                crate::grammar::ok(Seq::<Token>::empty(), open.at)
            };
            if params.value is Some {
                let close = consume(
                    t,
                    params.at,
                    TokenType::RightParen,
                    "Expect ')' after parameters.",
                );
                if close.value is Some {
                    let brace = consume(
                        t,
                        close.at,
                        TokenType::LeftBrace,
                        crate::grammar::expect_body(kind),
                    );
                    if brace.value is Some {
                        lemma_block_rest(t, onward(t, c, brace.at), Seq::<StmtView>::empty());
                    }
                }
            }
        }
    }
}

pub proof fn lemma_methods_rest(t: Seq<Token>, c: Cursor, done: Seq<FunctionView>)
    requires
        ends_with_eof(t),
        inside(t, c),
    ensures
        on(t, c, methods_rest(t, c, done)),
    decreases t.len() - c.pos, 29nat,
{
    if !check(t, c, TokenType::RightBrace) && !at_end(t, c) {
        lemma_function(t, c, FunctionKind::Method);
        let m = function(t, c, FunctionKind::Method);
        match m.value {
            None => {},
            Some(f) => {
                lemma_methods_rest(t, beyond(t, c, m.at), done.push(f));
            },
        }
    }
}

pub proof fn lemma_class_declaration(t: Seq<Token>, c: Cursor)
    requires
        ends_with_eof(t),
        inside(t, c),
    ensures
        forward(t, c, class_declaration(t, c)),
    decreases t.len() - c.pos, 31nat,
{
    let name = consume(t, c, TokenType::Identifier, "Expect class name.");
    if name.value is Some {
        let superclass: Parsed<Option<crate::stmt::Variable>> = if check(
            t,
            name.at,
            TokenType::Less,
        ) {
            let parent = consume(
                t,
                advance(t, name.at),
                TokenType::Identifier,
                "Expect superclass name.",
            );
            match parent.value {
                None => crate::grammar::fail(parent.at),
                Some(p) => crate::grammar::ok(
                    Some(crate::stmt::Variable { name: p, id: parent.at.next_id }),
                    crate::grammar::fresh(parent.at),
                ),
            }
        } else {
            crate::grammar::ok(None, name.at)
        };
        if superclass.value is Some {
            let brace = consume(
                t,
                superclass.at,
                TokenType::LeftBrace,
                "Expect '{' before class body.",
            );
            if brace.value is Some {
                lemma_methods_rest(t, onward(t, c, brace.at), Seq::<FunctionView>::empty());
            }
        }
    }
}

/// A declaration leaves the cursor behind where it found it: it takes at
/// least one token, unless the input is at its end.
pub proof fn lemma_declaration(t: Seq<Token>, c: Cursor)
    requires
        ends_with_eof(t),
        inside(t, c),
    ensures
        on(t, c, declaration(t, c)),
        !at_end(t, c) ==> c.pos < declaration(t, c).at.pos,
    decreases t.len() - c.pos, 26nat,
{
    let r = if check(t, c, TokenType::Class) {
        lemma_class_declaration(t, advance(t, c));
        class_declaration(t, advance(t, c))
    } else if check(t, c, TokenType::Fun) {
        lemma_function(t, advance(t, c), FunctionKind::Function);
        let f = function(t, advance(t, c), FunctionKind::Function);
        match f.value {
            None => crate::grammar::fail(f.at),
            Some(declaration) => crate::grammar::ok(StmtView::FunctionStmt { declaration }, f.at),
        }
    } else if check(t, c, TokenType::Var) {
        lemma_var_declaration(t, advance(t, c));
        var_declaration(t, advance(t, c))
    } else {
        lemma_statement(t, c);
        statement(t, c)
    };
    if r.value is None {
        lemma_synchronize(t, r.at);
    }
}

/// A program is parsed to the end of the input.
pub proof fn lemma_program(t: Seq<Token>, c: Cursor, done: Seq<StmtView>)
    requires
        ends_with_eof(t),
        inside(t, c),
    ensures
        on(t, c, program(t, c, done)),
        program(t, c, done).value is Some,
        at_end(t, program(t, c, done).at),
    decreases t.len() - c.pos, 32nat,
{
    if !at_end(t, c) {
        lemma_declaration(t, c);
        let d = declaration(t, c);
        lemma_program(
            t,
            beyond(t, c, d.at),
            match d.value {
                Some(s) => done.push(s),
                None => done,
            },
        );
    }
}

/// Where a production has left the cursor at or behind the place it started
/// from, `onward` gives that cursor back unchanged.
pub proof fn lemma_onward_keeps<T>(t: Seq<Token>, c: Cursor, r: Parsed<T>)
    requires
        on(t, c, r),
    ensures
        onward(t, c, r.at) == r.at,
{
}

/// Where a production has taken at least one token, `beyond` gives the
/// cursor that it left back unchanged.
pub proof fn lemma_beyond_keeps<T>(t: Seq<Token>, c: Cursor, r: Parsed<T>)
    requires
        on(t, c, r),
        c.pos < r.at.pos,
    ensures
        beyond(t, c, r.at) == r.at,
{
}

} // verus!
