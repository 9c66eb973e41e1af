//! The parser: from tokens to a syntax tree, by recursive descent.
use crate::expr::{lemma_exprs_view_empty, lemma_exprs_view_push, exprs_view, Expr, ExprView};
use crate::grammar;
pub use crate::grammar::ends_with_eof;
use crate::grammar::{Cursor, FunctionKind, Level, Parsed};
use crate::report::Diagnostic;
use crate::stmt::{
    lemma_functions_view_empty, lemma_functions_view_push, lemma_stmts_view_empty,
    lemma_stmts_view_push, functions_view, stmts_view, Class, Function, FunctionView, Stmt,
    StmtView, Variable,
};
use crate::token::{Literal, Token, TokenType};
use vstd::prelude::*;

verus! {

/// A syntax error. What was wrong has been recorded as a complaint by the
/// time this value exists.
#[derive(Debug)]
pub struct ParseError;

/// A recursive-descent parser over a list of tokens that ends with the
/// end-of-input token.
pub struct Parser {
    pub tokens: Vec<Token>,
    pub current: usize,
    pub next_id: usize,
    pub errors: Vec<Diagnostic>,
}

/// The parser went from `before` to `after` and gave `r`, and that is what
/// the grammar says: `goal`.
pub open spec fn yields_expr(
    before: Parser,
    after: Parser,
    r: Result<Expr, ParseError>,
    goal: Parsed<ExprView>,
) -> bool {
    &&& before.carried_on(after)
    &&& (r is Ok ==> before.current < after.current)
    &&& goal.at == after.cursor()
    &&& match r {
        Ok(e) => goal.value == Some(e@),
        Err(_) => goal.value is None,
    }
}

impl Parser {
    /// The token list ends with the end-of-input token and the parser stands
    /// inside it.
    pub open spec fn wf(&self) -> bool {
        &&& ends_with_eof(self.tokens@)
        &&& self.current < self.tokens@.len() <= usize::MAX
    }

    /// How far the parse has come.
    pub open spec fn cursor(&self) -> Cursor {
        Cursor { pos: self.current as int, next_id: self.next_id, errors: self.errors@ }
    }

    /// `after` is a later state of the same parse.
    pub open spec fn carried_on(&self, after: Parser) -> bool {
        &&& after.wf()
        &&& after.tokens == self.tokens
        &&& self.current <= after.current
    }

    /// A parser at the beginning of `tokens` that numbers variable references
    /// from `first_id` on.
    pub fn from(tokens: Vec<Token>, first_id: usize) -> (p: Self)
        requires
            ends_with_eof(tokens@),
        ensures
            p.wf(),
            p.tokens == tokens,
            p.cursor() == (Cursor { pos: 0, next_id: first_id, errors: Seq::empty() }),
    {
        assert(tokens@.len() == tokens.len());
        Parser { tokens, current: 0, next_id: first_id, errors: Vec::new() }
    }

    fn is_at_end(&self) -> (r: bool)
        requires
            self.wf(),
        ensures
            r == grammar::at_end(self.tokens@, self.cursor()),
    {
        self.peek().token_type == TokenType::Eof
    }

    fn peek(&self) -> (r: &Token)
        requires
            self.wf(),
        ensures
            *r == grammar::peek(self.tokens@, self.cursor()),
    {
        &self.tokens[self.current]
    }

    fn previous(&self) -> (r: Token)
        requires
            self.wf(),
            self.current >= 1,
        ensures
            r == grammar::previous(self.tokens@, self.cursor()),
    {
        self.tokens[self.current - 1].clone()
    }

    fn check_type(&self, token_type: TokenType) -> (r: bool)
        requires
            self.wf(),
        ensures
            r == grammar::check(self.tokens@, self.cursor(), token_type),
    {
        if self.is_at_end() {
            false
        } else {
            self.peek().token_type == token_type
        }
    }

    /// Passes the token at the cursor, unless it is the end of the input, and
    /// gives it back.
    fn advance(&mut self) -> (r: Token)
        requires
            old(self).wf(),
        ensures
            old(self).carried_on(*final(self)),
            final(self).cursor() == grammar::advance(old(self).tokens@, old(self).cursor()),
            r == grammar::peek(old(self).tokens@, old(self).cursor()),
            !grammar::at_end(old(self).tokens@, old(self).cursor()) ==> final(self).current
                == old(self).current + 1,
    {
        let token = self.peek().clone();
        if !self.is_at_end() {
            self.current += 1
        }
        token
    }

    /// Passes the token at the cursor if it is of class `token_type`.
    fn match_one(&mut self, token_type: TokenType) -> (r: bool)
        requires
            old(self).wf(),
        ensures
            r == grammar::check(old(self).tokens@, old(self).cursor(), token_type),
            old(self).carried_on(*final(self)),
            final(self).cursor() == if r {
                grammar::advance(old(self).tokens@, old(self).cursor())
            } else {
                old(self).cursor()
            },
            r ==> final(self).current == old(self).current + 1,
    {
        if self.check_type(token_type) {
            let _ = self.advance();
            true
        } else {
            false
        }
    }

    /// Passes the token at the cursor if it is of one of the classes in
    /// `token_types`.
    fn match_next_token_type(&mut self, token_types: Vec<TokenType>) -> (r: bool)
        requires
            old(self).wf(),
        ensures
            r == exists|i: int|
                0 <= i < token_types@.len() && grammar::check(
                    old(self).tokens@,
                    old(self).cursor(),
                    #[trigger] token_types@[i],
                ),
            old(self).carried_on(*final(self)),
            final(self).cursor() == if r {
                grammar::advance(old(self).tokens@, old(self).cursor())
            } else {
                old(self).cursor()
            },
            r ==> final(self).current == old(self).current + 1,
    {
        let mut i: usize = 0;
        while i < token_types.len()
            invariant
                self.wf(),
                *self == *old(self),
                i <= token_types@.len(),
                forall|j: int|
                    0 <= j < i ==> !grammar::check(
                        self.tokens@,
                        self.cursor(),
                        #[trigger] token_types@[j],
                    ),
            decreases token_types@.len() - i,
        {
            if self.check_type(token_types[i]) {
                let _ = self.advance();
                return true;
            }
            i += 1;
        }
        false
    }

    /// Passes the token at the cursor if it is of class `token_type`;
    /// complains with `message` if it is not.
    fn consume(&mut self, token_type: TokenType, message: &'static str) -> (r: Result<
        Token,
        ParseError,
    >)
        requires
            old(self).wf(),
        ensures
            old(self).carried_on(*final(self)),
            final(self).cursor() == grammar::consume(
                old(self).tokens@,
                old(self).cursor(),
                token_type,
                message,
            ).at,
            match r {
                Ok(token) => grammar::consume(
                    old(self).tokens@,
                    old(self).cursor(),
                    token_type,
                    message,
                ).value == Some(token) && final(self).current == old(self).current + 1,
                Err(_) => grammar::consume(
                    old(self).tokens@,
                    old(self).cursor(),
                    token_type,
                    message,
                ).value is None,
            },
    {
        if self.check_type(token_type) {
            Ok(self.advance())
        } else {
            let token = self.peek().clone();
            Err(self.error(&token, message))
        }
    }

    /// Records a complaint about `token`.
    fn error(&mut self, token: &Token, message: &'static str) -> (r: ParseError)
        requires
            old(self).wf(),
        ensures
            old(self).carried_on(*final(self)),
            final(self).cursor() == grammar::complain(old(self).cursor(), *token, message),
    {
        self.errors.push(Diagnostic::at_token(token, message));
        ParseError
    }

    /// Gives out the next id for a variable reference.
    fn fresh_id(&mut self) -> (id: usize)
        requires
            old(self).wf(),
        ensures
            old(self).carried_on(*final(self)),
            id == old(self).next_id,
            final(self).cursor() == grammar::fresh(old(self).cursor()),
    {
        let id = self.next_id;
        if self.next_id < usize::MAX {
            self.next_id += 1;
        }
        id
    }

    pub fn expression(&mut self) -> (r: Result<Expr, ParseError>)
        requires
            old(self).wf(),
        ensures
            yields_expr(
                *old(self),
                *final(self),
                r,
                grammar::expression(old(self).tokens@, old(self).cursor()),
            ),
        decreases old(self).tokens@.len() - old(self).current, 31nat,
    {
        self.assignment()
    }

    fn assignment(&mut self) -> (r: Result<Expr, ParseError>)
        requires
            old(self).wf(),
        ensures
            yields_expr(
                *old(self),
                *final(self),
                r,
                grammar::assignment(old(self).tokens@, old(self).cursor()),
            ),
        decreases old(self).tokens@.len() - old(self).current, 30nat,
    {
        let expr = self.or()?;
        if self.match_one(TokenType::Equal) {
            let equals = self.previous();
            let value = self.assignment()?;
            match expr {
                Expr::VariableExpr { name, id } => Ok(
                    Expr::AssignExpr { name, value: Box::new(value), id },
                ),
                Expr::GetExpr { object, name } => Ok(
                    Expr::SetExpr { object, name, value: Box::new(value) },
                ),
                _ => Err(self.error(&equals, "Invalid assignment target.")),
            }
        } else {
            Ok(expr)
        }
    }

    fn or(&mut self) -> (r: Result<Expr, ParseError>)
        requires
            old(self).wf(),
        ensures
            yields_expr(
                *old(self),
                *final(self),
                r,
                grammar::binary(old(self).tokens@, old(self).cursor(), Level::Or),
            ),
        decreases old(self).tokens@.len() - old(self).current, 21nat,
    {
        self.binary(Level::Or)
    }

    fn and(&mut self) -> (r: Result<Expr, ParseError>)
        requires
            old(self).wf(),
        ensures
            yields_expr(
                *old(self),
                *final(self),
                r,
                grammar::binary(old(self).tokens@, old(self).cursor(), Level::And),
            ),
        decreases old(self).tokens@.len() - old(self).current, 18nat,
    {
        self.binary(Level::And)
    }

    fn equality(&mut self) -> (r: Result<Expr, ParseError>)
        requires
            old(self).wf(),
        ensures
            yields_expr(
                *old(self),
                *final(self),
                r,
                grammar::binary(old(self).tokens@, old(self).cursor(), Level::Equality),
            ),
        decreases old(self).tokens@.len() - old(self).current, 15nat,
    {
        self.binary(Level::Equality)
    }

    fn comparison(&mut self) -> (r: Result<Expr, ParseError>)
        requires
            old(self).wf(),
        ensures
            yields_expr(
                *old(self),
                *final(self),
                r,
                grammar::binary(old(self).tokens@, old(self).cursor(), Level::Comparison),
            ),
        decreases old(self).tokens@.len() - old(self).current, 12nat,
    {
        self.binary(Level::Comparison)
    }

    fn term(&mut self) -> (r: Result<Expr, ParseError>)
        requires
            old(self).wf(),
        ensures
            yields_expr(
                *old(self),
                *final(self),
                r,
                grammar::binary(old(self).tokens@, old(self).cursor(), Level::Term),
            ),
        decreases old(self).tokens@.len() - old(self).current, 9nat,
    {
        self.binary(Level::Term)
    }

    fn factor(&mut self) -> (r: Result<Expr, ParseError>)
        requires
            old(self).wf(),
        ensures
            yields_expr(
                *old(self),
                *final(self),
                r,
                grammar::binary(old(self).tokens@, old(self).cursor(), Level::Factor),
            ),
        decreases old(self).tokens@.len() - old(self).current, 6nat,
    {
        self.binary(Level::Factor)
    }

    /// An operand of `level`.
    fn operand(&mut self, level: Level) -> (r: Result<Expr, ParseError>)
        requires
            old(self).wf(),
        ensures
            yields_expr(
                *old(self),
                *final(self),
                r,
                grammar::operand(old(self).tokens@, old(self).cursor(), level),
            ),
        decreases old(self).tokens@.len() - old(self).current, 3 * grammar::height(level) + 1,
    {
        match level {
            Level::Or => self.and(),
            Level::And => self.equality(),
            Level::Equality => self.comparison(),
            Level::Comparison => self.term(),
            Level::Term => self.factor(),
            Level::Factor => self.unary(),
        }
    }

    /// Whether the token at the cursor is an operator of `level`.
    fn joining(&self, level: Level) -> (r: bool)
        requires
            self.wf(),
        ensures
            r == (!grammar::at_end(self.tokens@, self.cursor()) && grammar::joins(
                level,
                grammar::peek(self.tokens@, self.cursor()).token_type,
            )),
    {
        let kind = self.peek().token_type;
        match level {
            Level::Or => kind == TokenType::Or,
            Level::And => kind == TokenType::And,
            Level::Equality => kind == TokenType::BangEqual || kind == TokenType::EqualEqual,
            Level::Comparison => kind == TokenType::Greater || kind == TokenType::GreaterEqual
                || kind == TokenType::Less || kind == TokenType::LessEqual,
            Level::Term => kind == TokenType::Minus || kind == TokenType::Plus,
            Level::Factor => kind == TokenType::Slash || kind == TokenType::Star,
        }
    }

    /// The expressions of one level of binary operators: operands joined by
    /// the operators of the level, from left to right.
    fn binary(&mut self, level: Level) -> (r: Result<Expr, ParseError>)
        requires
            old(self).wf(),
        ensures
            yields_expr(
                *old(self),
                *final(self),
                r,
                grammar::binary(old(self).tokens@, old(self).cursor(), level),
            ),
        decreases old(self).tokens@.len() - old(self).current, 3 * grammar::height(level) + 2,
    {
        let ghost t = self.tokens@;
        let ghost goal = grammar::binary(t, self.cursor(), level);
        let mut expr = self.operand(level)?;
        while self.joining(level)
            invariant
                old(self).carried_on(*self),
                old(self).current < self.current,
                t == self.tokens@,
                goal == grammar::binary(t, old(self).cursor(), level),
                grammar::binary_rest(t, self.cursor(), level, expr@) == goal,
            decreases t.len() - self.current,
        {
            let operator = self.advance();
            let right = self.operand(level)?;
            expr = match level {
                Level::Or | Level::And => Expr::LogicalExpr {
                    left: Box::new(expr),
                    operator,
                    right: Box::new(right),
                },
                _ => Expr::BinaryExpr { left: Box::new(expr), operator, right: Box::new(right) },
            };
        }
        Ok(expr)
    }

    fn unary(&mut self) -> (r: Result<Expr, ParseError>)
        requires
            old(self).wf(),
        ensures
            yields_expr(
                *old(self),
                *final(self),
                r,
                grammar::unary(old(self).tokens@, old(self).cursor()),
            ),
        decreases old(self).tokens@.len() - old(self).current, 3nat,
    {
        if self.match_next_token_type(vec![TokenType::Bang, TokenType::Minus]) {
            let operator = self.previous();
            let right = self.unary()?;
            Ok(Expr::UnaryExpr { operator, right: Box::new(right) })
        } else {
            self.call()
        }
    }

    #[verifier::rlimit(40)]
    fn call(&mut self) -> (r: Result<Expr, ParseError>)
        requires
            old(self).wf(),
        ensures
            yields_expr(
                *old(self),
                *final(self),
                r,
                grammar::call(old(self).tokens@, old(self).cursor()),
            ),
        decreases old(self).tokens@.len() - old(self).current, 2nat,
    {
        let ghost t = self.tokens@;
        let ghost goal = grammar::call(t, self.cursor());
        let mut expr = self.primary()?;
        loop
            invariant_except_break
                grammar::call_rest(t, self.cursor(), expr@) == goal,
            invariant
                old(self).carried_on(*self),
                old(self).current < self.current,
                t == self.tokens@,
                goal == grammar::call(t, old(self).cursor()),
            ensures
                yields_expr(*old(self), *self, Ok(expr), goal),
            decreases t.len() - self.current,
        {
            if self.match_one(TokenType::LeftParen) {
                expr = self.finish_call(expr)?;
            } else if self.match_one(TokenType::Dot) {
                let name = self.consume(TokenType::Identifier, "Expect property name after '.'.")?;
                expr = Expr::GetExpr { object: Box::new(expr), name };
            } else {
                break ;
            }
        }
        Ok(expr)
    }

    /// The rest of a call of `callee`, from behind its opening parenthesis.
    fn finish_call(&mut self, callee: Expr) -> (r: Result<Expr, ParseError>)
        requires
            old(self).wf(),
        ensures
            yields_expr(
                *old(self),
                *final(self),
                r,
                grammar::finish_call(old(self).tokens@, old(self).cursor(), callee@),
            ),
        decreases old(self).tokens@.len() - old(self).current, 33nat,
    {
        let ghost t = self.tokens@;
        let ghost start = self.cursor();
        let mut arguments: Vec<Expr> = Vec::new();
        proof {
            lemma_exprs_view_empty();
        }
        if !self.check_type(TokenType::RightParen) {
            let ghost goal = grammar::arguments(t, start, Seq::<ExprView>::empty());
            loop
                invariant_except_break
                    grammar::arguments(t, self.cursor(), exprs_view(arguments@)) == goal,
                invariant
                    old(self).carried_on(*self),
                    t == self.tokens@,
                    start == old(self).cursor(),
                    !grammar::check(t, start, TokenType::RightParen),
                    goal == grammar::arguments(t, start, Seq::<ExprView>::empty()),
                    exprs_view(arguments@).len() == arguments@.len(),
                ensures
                    old(self).carried_on(*self),
                    t == self.tokens@,
                    goal == grammar::ok(exprs_view(arguments@), self.cursor()),
                    old(self).current < self.current,
                decreases t.len() - self.current,
            {
                if arguments.len() >= 255 {
                    let token = self.peek().clone();
                    let _ = self.error(&token, "Can't have more than 255 arguments.");
                }
                let argument = self.expression()?;
                proof {
                    lemma_exprs_view_push(arguments@, argument);
                }
                arguments.push(argument);
                if !self.match_one(TokenType::Comma) {
                    break ;
                }
            }
        }
        let paren = self.consume(TokenType::RightParen, "Expect ')' after arguments.")?;
        Ok(Expr::CallExpr { callee: Box::new(callee), paren, arguments })
    }

    fn primary(&mut self) -> (r: Result<Expr, ParseError>)
        requires
            old(self).wf(),
        ensures
            yields_expr(
                *old(self),
                *final(self),
                r,
                grammar::primary(old(self).tokens@, old(self).cursor()),
            ),
        decreases old(self).tokens@.len() - old(self).current, 1nat,
    {
        if self.match_one(TokenType::False) {
            return Ok(Expr::LiteralExpr { value: Literal::BoolLiteral(false) });
        }
        if self.match_one(TokenType::True) {
            return Ok(Expr::LiteralExpr { value: Literal::BoolLiteral(true) });
        }
        if self.match_one(TokenType::NilTokenType) {
            return Ok(Expr::LiteralExpr { value: Literal::NoneLiteral });
        }
        if self.match_next_token_type(vec![TokenType::Number, TokenType::StringToken]) {
            return Ok(Expr::LiteralExpr { value: self.previous().literal });
        }
        if self.match_one(TokenType::Super) {
            let keyword = self.previous();
            self.consume(TokenType::Dot, "Expect '.' after 'super'.")?;
            let method = self.consume(TokenType::Identifier, "Expect superclass method name.")?;
            let id = self.fresh_id();
            return Ok(Expr::SuperExpr { keyword, method, id });
        }
        if self.match_one(TokenType::This) {
            let keyword = self.previous();
            let id = self.fresh_id();
            return Ok(Expr::ThisExpr { keyword, id });
        }
        if self.match_one(TokenType::Identifier) {
            let name = self.previous();
            let id = self.fresh_id();
            return Ok(Expr::VariableExpr { name, id });
        }
        if self.match_one(TokenType::LeftParen) {
            let expr = self.expression()?;
            self.consume(TokenType::RightParen, "Expect ')' after expression.")?;
            return Ok(Expr::GroupingExpr { expression: Box::new(expr) });
        }
        let token = self.peek().clone();
        Err(self.error(&token, "Expect expression."))
    }
}

/// The parser went from `before` to `after` and gave the statement `r`, and
/// that is what the grammar says: `goal`.
pub open spec fn yields_stmt(
    before: Parser,
    after: Parser,
    r: Result<Stmt, ParseError>,
    goal: Parsed<StmtView>,
) -> bool {
    &&& before.carried_on(after)
    &&& (r is Ok ==> before.current < after.current)
    &&& goal.at == after.cursor()
    &&& match r {
        Ok(s) => goal.value == Some(s@),
        Err(_) => goal.value is None,
    }
}

/// The same for a list of statements.
pub open spec fn yields_stmts(
    before: Parser,
    after: Parser,
    r: Result<Vec<Stmt>, ParseError>,
    goal: Parsed<Seq<StmtView>>,
) -> bool {
    &&& before.carried_on(after)
    &&& goal.at == after.cursor()
    &&& match r {
        Ok(ss) => goal.value == Some(stmts_view(ss@)),
        Err(_) => goal.value is None,
    }
}

/// The same for a function declaration.
pub open spec fn yields_function(
    before: Parser,
    after: Parser,
    r: Result<Function, ParseError>,
    goal: Parsed<FunctionView>,
) -> bool {
    &&& before.carried_on(after)
    &&& (r is Ok ==> before.current < after.current)
    &&& goal.at == after.cursor()
    &&& match r {
        Ok(f) => goal.value == Some(f@),
        Err(_) => goal.value is None,
    }
}

impl Parser {
    /// Parses the whole token list: the declarations of the program, those
    /// with a syntax error left out. The complaints are in `errors`.
    pub fn parse(&mut self) -> (statements: Vec<Stmt>)
        requires
            old(self).wf(),
        ensures
            old(self).carried_on(*final(self)),
            grammar::program(old(self).tokens@, old(self).cursor(), Seq::<StmtView>::empty())
                == grammar::ok(stmts_view(statements@), final(self).cursor()),
    {
        let ghost t = self.tokens@;
        let ghost goal = grammar::program(t, self.cursor(), Seq::<StmtView>::empty());
        let mut statements: Vec<Stmt> = Vec::new();
        proof {
            lemma_stmts_view_empty();
        }
        while !self.is_at_end()
            invariant
                old(self).carried_on(*self),
                t == self.tokens@,
                grammar::program(t, self.cursor(), stmts_view(statements@)) == goal,
            decreases t.len() - self.current,
        {
            match self.declaration() {
                Some(s) => {
                    proof {
                        lemma_stmts_view_push(statements@, s);
                    }
                    statements.push(s);
                },
                None => {},
            }
        }
        statements
    }

    /// One declaration, or nothing where it had a syntax error: the parser
    /// then stands at the next statement boundary.
    fn declaration(&mut self) -> (r: Option<Stmt>)
        requires
            old(self).wf(),
        ensures
            old(self).carried_on(*final(self)),
            !grammar::at_end(old(self).tokens@, old(self).cursor()) ==> old(self).current
                < final(self).current,
            grammar::declaration(old(self).tokens@, old(self).cursor()).at == final(self).cursor(),
            match r {
                Some(s) => grammar::declaration(old(self).tokens@, old(self).cursor()).value
                    == Some(s@),
                None => grammar::declaration(old(self).tokens@, old(self).cursor()).value is None,
            },
        decreases old(self).tokens@.len() - old(self).current, 41nat,
    {
        let stmt_result = if self.match_one(TokenType::Class) {
            self.class_declaration()
        } else if self.match_one(TokenType::Fun) {
            match self.function(FunctionKind::Function) {
                Ok(declaration) => Ok(Stmt::FunctionStmt { declaration }),
                Err(e) => Err(e),
            }
        } else if self.match_one(TokenType::Var) {
            self.var_declaration()
        } else {
            self.statement()
        };
        match stmt_result {
            Ok(s) => Some(s),
            Err(_) => {
                self.synchronize();
                None
            },
        }
    }

    fn class_declaration(&mut self) -> (r: Result<Stmt, ParseError>)
        requires
            old(self).wf(),
        ensures
            yields_stmt(
                *old(self),
                *final(self),
                r,
                grammar::class_declaration(old(self).tokens@, old(self).cursor()),
            ),
        decreases old(self).tokens@.len() - old(self).current, 45nat,
    {
        let ghost t = self.tokens@;
        let name = self.consume(TokenType::Identifier, "Expect class name.")?;
        let mut superclass: Option<Variable> = None;
        if self.match_one(TokenType::Less) {
            let parent = self.consume(TokenType::Identifier, "Expect superclass name.")?;
            let id = self.fresh_id();
            superclass = Some(Variable { name: parent, id });
        }
        self.consume(TokenType::LeftBrace, "Expect '{' before class body.")?;
        let ghost start = self.cursor();
        let ghost goal = grammar::methods_rest(t, start, Seq::<FunctionView>::empty());
        let mut methods: Vec<Function> = Vec::new();
        proof {
            lemma_functions_view_empty();
        }
        while !self.check_type(TokenType::RightBrace) && !self.is_at_end()
            invariant
                old(self).carried_on(*self),
                old(self).current < self.current,
                t == self.tokens@,
                grammar::methods_rest(t, self.cursor(), functions_view(methods@)) == goal,
                grammar::class_declaration(t, old(self).cursor()) == match goal.value {
                    None => grammar::fail::<StmtView>(goal.at),
                    Some(ms) => {
                        let close = grammar::consume(
                            t,
                            goal.at,
                            TokenType::RightBrace,
                            "Expect '}' after class body.",
                        );
                        if close.value is None {
                            grammar::fail::<StmtView>(close.at)
                        } else {
                            grammar::ok(
                                StmtView::ClassStmt {
                                    declaration: crate::stmt::ClassView {
                                        name,
                                        superclass,
                                        methods: ms,
                                    },
                                },
                                close.at,
                            )
                        }
                    },
                },
            decreases t.len() - self.current,
        {
            let method = self.function(FunctionKind::Method)?;
            proof {
                lemma_functions_view_push(methods@, method);
            }
            methods.push(method);
        }
        self.consume(TokenType::RightBrace, "Expect '}' after class body.")?;
        let declaration = Class { name, superclass, methods };
        assert(declaration@ == (crate::stmt::ClassView {
            name,
            superclass,
            methods: functions_view(methods@),
        }));
        Ok(Stmt::ClassStmt { declaration })
    }

    fn statement(&mut self) -> (r: Result<Stmt, ParseError>)
        requires
            old(self).wf(),
        ensures
            yields_stmt(
                *old(self),
                *final(self),
                r,
                grammar::statement(old(self).tokens@, old(self).cursor()),
            ),
        decreases old(self).tokens@.len() - old(self).current, 40nat,
    {
        if self.match_one(TokenType::For) {
            self.for_statement()
        } else if self.match_one(TokenType::If) {
            self.if_statement()
        } else if self.match_one(TokenType::Print) {
            self.print_statement()
        } else if self.match_one(TokenType::Return) {
            self.return_statement()
        } else if self.match_one(TokenType::While) {
            self.while_statement()
        } else if self.match_one(TokenType::LeftBrace) {
            let statements = self.block()?;
            Ok(Stmt::BlockStmt { statements })
        } else {
            self.expression_statement()
        }
    }

    /// The initializer clause of a `for`.
    fn for_initializer(&mut self) -> (r: Result<Option<Stmt>, ParseError>)
        requires
            old(self).wf(),
        ensures
            old(self).carried_on(*final(self)),
            grammar::for_initializer(old(self).tokens@, old(self).cursor()).at
                == final(self).cursor(),
            match r {
                Ok(Some(s)) => grammar::for_initializer(
                    old(self).tokens@,
                    old(self).cursor(),
                ).value == Some(Some(s@)),
                Ok(None) => grammar::for_initializer(old(self).tokens@, old(self).cursor()).value
                    == Some(None::<StmtView>),
                Err(_) => grammar::for_initializer(old(self).tokens@, old(self).cursor()).value
                    is None,
            },
        decreases old(self).tokens@.len() - old(self).current, 39nat,
    {
        if self.match_one(TokenType::Semicolon) {
            Ok(None)
        } else if self.match_one(TokenType::Var) {
            Ok(Some(self.var_declaration()?))
        } else {
            Ok(Some(self.expression_statement()?))
        }
    }

    /// The condition clause of a `for` and the semicolon behind it.
    fn for_condition(&mut self) -> (r: Result<Expr, ParseError>)
        requires
            old(self).wf(),
        ensures
            yields_expr(
                *old(self),
                *final(self),
                r,
                grammar::for_condition(old(self).tokens@, old(self).cursor()),
            ),
        decreases old(self).tokens@.len() - old(self).current, 39nat,
    {
        let condition = if !self.check_type(TokenType::Semicolon) {
            self.expression()?
        } else {
            Expr::LiteralExpr { value: Literal::BoolLiteral(true) }
        };
        self.consume(TokenType::Semicolon, "Expect ';' after loop condition.")?;
        Ok(condition)
    }

    /// The increment clause of a `for` and the closing parenthesis behind
    /// it.
    fn for_increment(&mut self) -> (r: Result<Option<Expr>, ParseError>)
        requires
            old(self).wf(),
        ensures
            old(self).carried_on(*final(self)),
            grammar::for_increment(old(self).tokens@, old(self).cursor()).at
                == final(self).cursor(),
            match r {
                Ok(Some(e)) => grammar::for_increment(old(self).tokens@, old(self).cursor()).value
                    == Some(Some(e@)),
                Ok(None) => grammar::for_increment(old(self).tokens@, old(self).cursor()).value
                    == Some(None::<ExprView>),
                Err(_) => grammar::for_increment(old(self).tokens@, old(self).cursor()).value
                    is None,
            },
        decreases old(self).tokens@.len() - old(self).current, 39nat,
    {
        let increment = if !self.check_type(TokenType::RightParen) {
            Some(self.expression()?)
        } else {
            None
        };
        self.consume(TokenType::RightParen, "Expect ')' after for clauses.")?;
        Ok(increment)
    }

    fn for_statement(&mut self) -> (r: Result<Stmt, ParseError>)
        requires
            old(self).wf(),
        ensures
            yields_stmt(
                *old(self),
                *final(self),
                r,
                grammar::for_statement(old(self).tokens@, old(self).cursor()),
            ),
        decreases old(self).tokens@.len() - old(self).current, 45nat,
    {
        self.consume(TokenType::LeftParen, "Expect '(' after 'for'.")?;
        let initializer = self.for_initializer()?;
        let condition = self.for_condition()?;
        let increment = self.for_increment()?;
        let body = self.statement()?;
        Ok(desugar_for(initializer, condition, increment, body))
    }

    fn if_statement(&mut self) -> (r: Result<Stmt, ParseError>)
        requires
            old(self).wf(),
        ensures
            yields_stmt(
                *old(self),
                *final(self),
                r,
                grammar::if_statement(old(self).tokens@, old(self).cursor()),
            ),
        decreases old(self).tokens@.len() - old(self).current, 45nat,
    {
        self.consume(TokenType::LeftParen, "Expect '(' after 'if'.")?;
        let condition = self.expression()?;
        self.consume(TokenType::RightParen, "Expect ')' after if condition.")?;
        let then_branch = self.statement()?;
        let mut else_branch: Option<Box<Stmt>> = None;
        if self.match_one(TokenType::Else) {
            else_branch = Some(Box::new(self.statement()?));
        }
        Ok(Stmt::IfStmt { condition, then_branch: Box::new(then_branch), else_branch })
    }

    fn while_statement(&mut self) -> (r: Result<Stmt, ParseError>)
        requires
            old(self).wf(),
        ensures
            yields_stmt(
                *old(self),
                *final(self),
                r,
                grammar::while_statement(old(self).tokens@, old(self).cursor()),
            ),
        decreases old(self).tokens@.len() - old(self).current, 45nat,
    {
        self.consume(TokenType::LeftParen, "Expect '(' after 'while'.")?;
        let condition = self.expression()?;
        self.consume(TokenType::RightParen, "Expect ')' after condition.")?;
        let body = self.statement()?;
        Ok(Stmt::WhileStmt { condition, body: Box::new(body) })
    }

    fn print_statement(&mut self) -> (r: Result<Stmt, ParseError>)
        requires
            old(self).wf(),
        ensures
            yields_stmt(
                *old(self),
                *final(self),
                r,
                grammar::print_statement(old(self).tokens@, old(self).cursor()),
            ),
        decreases old(self).tokens@.len() - old(self).current, 32nat,
    {
        let value = self.expression()?;
        self.consume(TokenType::Semicolon, "Expect ';' after value.")?;
        Ok(Stmt::PrintStmt { expression: value })
    }

    fn return_statement(&mut self) -> (r: Result<Stmt, ParseError>)
        requires
            old(self).wf(),
            old(self).current >= 1,
        ensures
            yields_stmt(
                *old(self),
                *final(self),
                r,
                grammar::return_statement(old(self).tokens@, old(self).cursor()),
            ),
        decreases old(self).tokens@.len() - old(self).current, 32nat,
    {
        let keyword = self.previous();
        let value = if !self.check_type(TokenType::Semicolon) {
            self.expression()?
        } else {
            Expr::LiteralExpr { value: Literal::NoneLiteral }
        };
        self.consume(TokenType::Semicolon, "Expect ';' after return value.")?;
        Ok(Stmt::ReturnStmt { keyword, value })
    }

    fn var_declaration(&mut self) -> (r: Result<Stmt, ParseError>)
        requires
            old(self).wf(),
        ensures
            yields_stmt(
                *old(self),
                *final(self),
                r,
                grammar::var_declaration(old(self).tokens@, old(self).cursor()),
            ),
        decreases old(self).tokens@.len() - old(self).current, 32nat,
    {
        let name = self.consume(TokenType::Identifier, "Expect variable name.")?;
        let mut initializer = Expr::LiteralExpr { value: Literal::NoneLiteral };
        if self.match_one(TokenType::Equal) {
            initializer = self.expression()?;
        }
        self.consume(TokenType::Semicolon, "Expect ';' after variable declaration.")?;
        Ok(Stmt::VarStmt { name, initializer })
    }

    fn expression_statement(&mut self) -> (r: Result<Stmt, ParseError>)
        requires
            old(self).wf(),
        ensures
            yields_stmt(
                *old(self),
                *final(self),
                r,
                grammar::expression_statement(old(self).tokens@, old(self).cursor()),
            ),
        decreases old(self).tokens@.len() - old(self).current, 32nat,
    {
        let expr = self.expression()?;
        self.consume(TokenType::Semicolon, "Expect ';' after expression.")?;
        Ok(Stmt::ExpressionStmt { expression: expr })
    }

    /// A function or method, from its name on.
    fn function(&mut self, kind: FunctionKind) -> (r: Result<Function, ParseError>)
        requires
            old(self).wf(),
        ensures
            yields_function(
                *old(self),
                *final(self),
                r,
                grammar::function(old(self).tokens@, old(self).cursor(), kind),
            ),
        decreases old(self).tokens@.len() - old(self).current, 43nat,
    {
        let ghost t = self.tokens@;
        let name = self.consume(TokenType::Identifier, expect_name(kind))?;
        self.consume(TokenType::LeftParen, expect_parameters(kind))?;
        let ghost start = self.cursor();
        let mut parameters: Vec<Token> = Vec::new();
        if !self.check_type(TokenType::RightParen) {
            let ghost goal = grammar::parameters(t, start, Seq::<Token>::empty());
            loop
                invariant_except_break
                    grammar::parameters(t, self.cursor(), parameters@) == goal,
                invariant
                    old(self).carried_on(*self),
                    old(self).current < self.current,
                    t == self.tokens@,
                    !grammar::check(t, start, TokenType::RightParen),
                    goal == grammar::parameters(t, start, Seq::<Token>::empty()),
                    grammar::function(t, old(self).cursor(), kind) == match goal.value {
                        None => grammar::fail::<FunctionView>(goal.at),
                        Some(ps) => function_tail(t, old(self).cursor(), goal.at, kind, name, ps),
                    },
                ensures
                    old(self).carried_on(*self),
                    old(self).current < self.current,
                    t == self.tokens@,
                    goal == grammar::ok(parameters@, self.cursor()),
                decreases t.len() - self.current,
            {
                if parameters.len() >= 255 {
                    let token = self.peek().clone();
                    let _ = self.error(&token, "Can't have more than 255 parameters.");
                }
                let parameter = self.consume(TokenType::Identifier, "Expect parameter name.")?;
                parameters.push(parameter);
                if !self.match_one(TokenType::Comma) {
                    break ;
                }
            }
        }
        self.consume(TokenType::RightParen, "Expect ')' after parameters.")?;
        self.consume(TokenType::LeftBrace, expect_body(kind))?;
        let body = self.block()?;
        Ok(Function { name, params: parameters, body })
    }

    /// The declarations of a block and its closing brace, from behind the
    /// opening brace.
    fn block(&mut self) -> (r: Result<Vec<Stmt>, ParseError>)
        requires
            old(self).wf(),
        ensures
            yields_stmts(
                *old(self),
                *final(self),
                r,
                grammar::block_rest(old(self).tokens@, old(self).cursor(), Seq::<StmtView>::empty()),
            ),
        decreases old(self).tokens@.len() - old(self).current, 42nat,
    {
        let ghost t = self.tokens@;
        let ghost goal = grammar::block_rest(t, self.cursor(), Seq::<StmtView>::empty());
        let mut statements: Vec<Stmt> = Vec::new();
        proof {
            lemma_stmts_view_empty();
        }
        while !self.check_type(TokenType::RightBrace) && !self.is_at_end()
            invariant
                old(self).carried_on(*self),
                t == self.tokens@,
                grammar::block_rest(t, self.cursor(), stmts_view(statements@)) == goal,
            decreases t.len() - self.current,
        {
            match self.declaration() {
                Some(s) => {
                    proof {
                        lemma_stmts_view_push(statements@, s);
                    }
                    statements.push(s);
                },
                None => {},
            }
        }
        self.consume(TokenType::RightBrace, "Expect '}' after block.")?;
        Ok(statements)
    }

    /// Recovery after a syntax error: gives up the token at the cursor and
    /// all tokens up to the next statement boundary.
    fn synchronize(&mut self)
        requires
            old(self).wf(),
        ensures
            old(self).carried_on(*final(self)),
            final(self).cursor() == grammar::synchronize(old(self).tokens@, old(self).cursor()),
            !grammar::at_end(old(self).tokens@, old(self).cursor()) ==> old(self).current
                < final(self).current,
    {
        let ghost t = self.tokens@;
        let _ = self.advance();
        let ghost goal = grammar::skip_to_boundary(t, self.cursor());
        let ghost from = self.current;
        while !self.is_at_end()
            invariant_except_break
                grammar::skip_to_boundary(t, self.cursor()) == goal,
            invariant
                old(self).carried_on(*self),
                from <= self.current,
                t == self.tokens@,
            ensures
                old(self).carried_on(*self),
                from <= self.current,
                self.cursor() == goal,
            decreases t.len() - self.current,
        {
            if self.current >= 1 && self.previous().token_type == TokenType::Semicolon {
                break ;
            }
            let kind = self.peek().token_type;
            if kind == TokenType::Class || kind == TokenType::Fun || kind == TokenType::Var || kind
                == TokenType::For || kind == TokenType::If || kind == TokenType::While || kind
                == TokenType::Print || kind == TokenType::Return {
                break ;
            }
            let _ = self.advance();
        }
    }
}

/// What `function` does behind its parameters `ps`, which end at `at`.
pub open spec fn function_tail(
    t: Seq<Token>,
    c: Cursor,
    at: Cursor,
    kind: FunctionKind,
    name: Token,
    ps: Seq<Token>,
) -> Parsed<FunctionView> {
    let close = grammar::consume(t, at, TokenType::RightParen, "Expect ')' after parameters.");
    if close.value is None {
        grammar::fail(close.at)
    } else {
        let brace = grammar::consume(t, close.at, TokenType::LeftBrace, grammar::expect_body(kind));
        if brace.value is None {
            grammar::fail(brace.at)
        } else {
            let body = grammar::block_rest(
                t,
                grammar::onward(t, c, brace.at),
                Seq::<StmtView>::empty(),
            );
            match body.value {
                None => grammar::fail(body.at),
                Some(b) => grammar::ok(FunctionView { name, params: ps, body: b }, body.at),
            }
        }
    }
}

/// The loop that a `for` statement stands for.
fn desugar_for(
    initializer: Option<Stmt>,
    condition: Expr,
    increment: Option<Expr>,
    body: Stmt,
) -> (r: Stmt)
    ensures
        r@ == grammar::desugar_for(
            match initializer {
                Some(s) => Some(s@),
                None => None,
            },
            condition@,
            match increment {
                Some(e) => Some(e@),
                None => None,
            },
            body@,
        ),
{
    let ghost condition_view = condition@;
    let stepped = match increment {
        Some(incr_expr) => {
            let mut statements: Vec<Stmt> = Vec::new();
            let step = Stmt::ExpressionStmt { expression: incr_expr };
            proof {
                lemma_stmts_view_empty();
                lemma_stmts_view_push(statements@, body);
                lemma_stmts_view_push(statements@.push(body), step);
                assert(seq![body@, step@] =~= Seq::<StmtView>::empty().push(body@).push(step@));
            }
            statements.push(body);
            statements.push(step);
            Stmt::BlockStmt { statements }
        },
        None => body,
    };
    let ghost stepped_view = stepped@;
    let repeated = Stmt::WhileStmt { condition, body: Box::new(stepped) };
    assert(repeated@ == (StmtView::WhileStmt {
        condition: condition_view,
        body: Box::new(stepped_view),
    }));
    match initializer {
        Some(init_stmt) => {
            let mut statements: Vec<Stmt> = Vec::new();
            proof {
                lemma_stmts_view_empty();
                lemma_stmts_view_push(statements@, init_stmt);
                lemma_stmts_view_push(statements@.push(init_stmt), repeated);
                assert(seq![init_stmt@, repeated@] =~= Seq::<StmtView>::empty().push(
                    init_stmt@,
                ).push(repeated@));
            }
            statements.push(init_stmt);
            statements.push(repeated);
            let both = Stmt::BlockStmt { statements };
            assert(both@ == (StmtView::BlockStmt { statements: stmts_view(statements@) }));
            both
        },
        None => repeated,
    }
}

fn expect_name(kind: FunctionKind) -> (r: &'static str)
    ensures
        r == grammar::expect_name(kind),
{
    match kind {
        FunctionKind::Function => "Expect function name.",
        FunctionKind::Method => "Expect method name.",
    }
}

fn expect_parameters(kind: FunctionKind) -> (r: &'static str)
    ensures
        r == grammar::expect_parameters(kind),
{
    match kind {
        FunctionKind::Function => "Expect '(' after function name.",
        FunctionKind::Method => "Expect '(' after method name.",
    }
}

fn expect_body(kind: FunctionKind) -> (r: &'static str)
    ensures
        r == grammar::expect_body(kind),
{
    match kind {
        FunctionKind::Function => "Expect '{' before function body.",
        FunctionKind::Method => "Expect '{' before method body.",
    }
}

} // verus!
