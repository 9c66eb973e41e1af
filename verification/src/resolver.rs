//! The resolver: one pass over the syntax tree before it runs, which finds
//! for every variable reference the scope that its binding lives in.
use crate::expr::Expr;
use crate::report::{place_of, Diagnostic};
use crate::resolution::Resolution;
use crate::stmt::{Class, Function, Stmt};
use crate::table::Table;
use crate::text::reads;
use crate::token::{Literal, Token};
use vstd::prelude::*;
use vstd::string::StringExecFns;

verus! {

/// What kind of function body the resolver is in.
#[derive(Clone, Copy, PartialEq, Eq, Structural, Debug)]
pub enum FunctionType {
    NotFun,
    Fun,
    Method,
    Initializer,
}

/// What kind of class body the resolver is in.
#[derive(Clone, Copy, PartialEq, Eq, Structural, Debug)]
pub enum ClassType {
    NotClass,
    Class,
    Subclass,
}

/// The state of a resolving pass.
pub struct Resolving {
    /// The local scopes that are open, the innermost last. Each maps the
    /// names declared in it to whether their initializer is done.
    pub scopes: Seq<Map<Seq<char>, bool>>,
    pub function: FunctionType,
    pub class: ClassType,
    /// The depths found so far, by node id.
    pub depths: Map<usize, usize>,
    /// The complaints so far.
    pub errors: Seq<Diagnostic>,
}

/// The state with one more complaint, about `token`.
pub open spec fn blame(s: Resolving, token: Token, message: &'static str) -> Resolving {
    Resolving {
        errors: s.errors.push(Diagnostic { line: token.line, place: place_of(token), message }),
        ..s
    }
}

pub open spec fn begin_scope(s: Resolving) -> Resolving {
    Resolving { scopes: s.scopes.push(Map::empty()), ..s }
}

pub open spec fn end_scope(s: Resolving) -> Resolving {
    if s.scopes.len() == 0 {
        s
    } else {
        Resolving { scopes: s.scopes.drop_last(), ..s }
    }
}

/// Enters `name` with the given state into the innermost scope, if there is
/// one.
pub open spec fn enter(s: Resolving, name: Seq<char>, ready: bool) -> Resolving {
    if s.scopes.len() == 0 {
        s
    } else {
        Resolving {
            scopes: s.scopes.update(s.scopes.len() - 1, s.scopes.last().insert(name, ready)),
            ..s
        }
    }
}

/// Declares `name` in the innermost scope: it exists, but may not be read
/// yet. Declaring a name twice in one local scope is an error.
pub open spec fn declare(s: Resolving, name: Token) -> Resolving {
    if s.scopes.len() > 0 && s.scopes.last().contains_key(name.lexeme@) {
        blame(s, name, "Already a variable with this name in this scope.")
    } else {
        enter(s, name.lexeme@, false)
    }
}

/// Marks `name` in the innermost scope as ready to be read.
pub open spec fn define(s: Resolving, name: Token) -> Resolving {
    enter(s, name.lexeme@, true)
}

/// How many scopes lie between the innermost scope and the nearest scope at
/// or below index `i` that declares `name`; nothing if none does.
pub open spec fn hops_from(scopes: Seq<Map<Seq<char>, bool>>, name: Seq<char>, i: int) -> Option<
    usize,
>
    decreases i + 1,
{
    if i < 0 || i >= scopes.len() {
        None
    } else if scopes[i].contains_key(name) {
        Some((scopes.len() - 1 - i) as usize)
    } else {
        hops_from(scopes, name, i - 1)
    }
}

/// The depth of the binding that a use of `name` refers to: the number of
/// scopes between the innermost scope and the nearest one that declares it.
/// Nothing if no local scope does: the name is then global.
pub open spec fn hops(scopes: Seq<Map<Seq<char>, bool>>, name: Seq<char>) -> Option<usize> {
    hops_from(scopes, name, scopes.len() - 1)
}

/// Records the depth of the reference `id` to `name`, if it is local.
pub open spec fn resolve_local(s: Resolving, name: Token, id: usize) -> Resolving {
    match hops(s.scopes, name.lexeme@) {
        Some(depth) => Resolving { depths: s.depths.insert(id, depth), ..s },
        None => s,
    }
}

/// A use of the variable `name` by node `id`. Reading a local variable in
/// its own initializer is an error.
pub open spec fn resolve_variable(s: Resolving, name: Token, id: usize) -> Resolving {
    let checked = if s.scopes.len() > 0 && s.scopes.last().contains_key(name.lexeme@)
        && !s.scopes.last()[name.lexeme@] {
        blame(s, name, "Can't read local variable in its own initializer.")
    } else {
        s
    };
    resolve_local(checked, name, id)
}

pub open spec fn resolve_expr(e: Expr, s: Resolving) -> Resolving
    decreases e, 0nat,
{
    match e {
        Expr::BinaryExpr { left, operator, right } => resolve_expr(*right, resolve_expr(*left, s)),
        Expr::GroupingExpr { expression } => resolve_expr(*expression, s),
        Expr::LiteralExpr { value } => s,
        Expr::UnaryExpr { operator, right } => resolve_expr(*right, s),
        Expr::VariableExpr { name, id } => resolve_variable(s, name, id),
        Expr::AssignExpr { name, value, id } => resolve_local(resolve_expr(*value, s), name, id),
        Expr::LogicalExpr { left, operator, right } => resolve_expr(*right, resolve_expr(*left, s)),
        Expr::CallExpr { callee, paren, arguments } => resolve_exprs_from(
            arguments@,
            0,
            resolve_expr(*callee, s),
        ),
        Expr::GetExpr { object, name } => resolve_expr(*object, s),
        Expr::SetExpr { object, name, value } => resolve_expr(*object, resolve_expr(*value, s)),
        Expr::ThisExpr { keyword, id } => if s.class == ClassType::NotClass {
            blame(s, keyword, "Can't use 'this' outside of a class.")
        } else {
            resolve_local(s, keyword, id)
        },
        Expr::SuperExpr { keyword, method, id } => resolve_local(
            match s.class {
                ClassType::NotClass => blame(s, keyword, "Can't use 'super' outside of a class."),
                ClassType::Class => blame(
                    s,
                    keyword,
                    "Can't use 'super' in a class with no superclass.",
                ),
                ClassType::Subclass => s,
            },
            keyword,
            id,
        ),
    }
}

/// The expressions `es[i..]`, one after the other.
pub open spec fn resolve_exprs_from(es: Seq<Expr>, i: int, s: Resolving) -> Resolving
    decreases es, es.len() - i,
{
    if 0 <= i < es.len() {
        resolve_exprs_from(es, i + 1, resolve_expr(es[i], s))
    } else {
        s
    }
}

/// The parameters `ps[i..]`: each is declared and defined.
pub open spec fn declare_from(ps: Seq<Token>, i: int, s: Resolving) -> Resolving
    decreases ps.len() - i,
{
    if 0 <= i < ps.len() {
        declare_from(ps, i + 1, define(declare(s, ps[i]), ps[i]))
    } else {
        s
    }
}

/// The body of a function of the given kind, in a scope of its own that
/// holds the parameters.
pub open spec fn resolve_function(f: Function, kind: FunctionType, s: Resolving) -> Resolving
    decreases f, 0nat,
{
    let inside = declare_from(f.params@, 0, begin_scope(Resolving { function: kind, ..s }));
    let done = end_scope(resolve_stmts_from(f.body@, 0, inside));
    Resolving { function: s.function, ..done }
}

/// The kind of a method: `init` is the initializer.
pub open spec fn method_kind(f: Function) -> FunctionType {
    if f.name.lexeme@ == "init"@ {
        FunctionType::Initializer
    } else {
        FunctionType::Method
    }
}

/// The methods `ms[i..]`, one after the other.
pub open spec fn resolve_methods_from(ms: Seq<Function>, i: int, s: Resolving) -> Resolving
    decreases ms, ms.len() - i,
{
    if 0 <= i < ms.len() {
        resolve_methods_from(ms, i + 1, resolve_function(ms[i], method_kind(ms[i]), s))
    } else {
        s
    }
}

/// Whether `e` is the literal `nil`.
pub open spec fn is_nil_literal(e: Expr) -> bool {
    e matches Expr::LiteralExpr { value } && value is NoneLiteral
}

/// The complaints that a `return` draws where it stands.
pub open spec fn check_return(s: Resolving, keyword: Token, value: Expr) -> Resolving {
    match s.function {
        FunctionType::NotFun => blame(s, keyword, "Can't return from top-level code."),
        FunctionType::Initializer => if is_nil_literal(value) {
            s
        } else {
            blame(s, keyword, "Can't return a value from an initializer.")
        },
        _ => s,
    }
}

/// A class declaration up to its methods: the name is declared, the
/// superclass is resolved, and the scopes that hold `super` and `this` are
/// opened.
pub open spec fn enter_class(c: Class, s: Resolving) -> Resolving {
    let named = define(declare(Resolving { class: ClassType::Class, ..s }, c.name), c.name);
    let derived = match c.superclass {
        Some(parent) => {
            let marked = Resolving { class: ClassType::Subclass, ..named };
            let checked = if c.name.lexeme@ == parent.name.lexeme@ {
                blame(marked, parent.name, "A class can't inherit from itself.")
            } else {
                marked
            };
            enter(begin_scope(resolve_variable(checked, parent.name, parent.id)), "super"@, true)
        },
        None => named,
    };
    enter(begin_scope(derived), "this"@, true)
}

/// A class declaration behind its methods: the scopes of `this` and `super`
/// are closed, and the resolver is in the class it was in before.
pub open spec fn leave_class(c: Class, before: Resolving, s: Resolving) -> Resolving {
    let closed = if c.superclass is Some {
        end_scope(end_scope(s))
    } else {
        end_scope(s)
    };
    Resolving { class: before.class, ..closed }
}

pub open spec fn resolve_stmt(st: Stmt, s: Resolving) -> Resolving
    decreases st, 0nat,
{
    match st {
        Stmt::ExpressionStmt { expression } => resolve_expr(expression, s),
        Stmt::PrintStmt { expression } => resolve_expr(expression, s),
        Stmt::VarStmt { name, initializer } => define(
            resolve_expr(initializer, declare(s, name)),
            name,
        ),
        Stmt::BlockStmt { statements } => end_scope(
            resolve_stmts_from(statements@, 0, begin_scope(s)),
        ),
        Stmt::IfStmt { condition, then_branch, else_branch } => {
            let s1 = resolve_stmt(*then_branch, resolve_expr(condition, s));
            match else_branch {
                Some(other) => resolve_stmt(*other, s1),
                None => s1,
            }
        },
        Stmt::WhileStmt { condition, body } => resolve_stmt(*body, resolve_expr(condition, s)),
        Stmt::FunctionStmt { declaration } => resolve_function(
            declaration,
            FunctionType::Fun,
            define(declare(s, declaration.name), declaration.name),
        ),
        Stmt::ReturnStmt { keyword, value } => resolve_expr(value, check_return(s, keyword, value)),
        Stmt::ClassStmt { declaration } => leave_class(
            declaration,
            s,
            resolve_methods_from(declaration.methods@, 0, enter_class(declaration, s)),
        ),
    }
}

/// The statements `ss[i..]`, one after the other.
pub open spec fn resolve_stmts_from(ss: Seq<Stmt>, i: int, s: Resolving) -> Resolving
    decreases ss, ss.len() - i,
{
    if 0 <= i < ss.len() {
        resolve_stmts_from(ss, i + 1, resolve_stmt(ss[i], s))
    } else {
        s
    }
}

/// The maps that a stack of scope tables stands for.
pub open spec fn tables_view(ts: Seq<Table<bool>>) -> Seq<Map<Seq<char>, bool>> {
    Seq::new(ts.len(), |i: int| ts[i]@)
}

/// Walks a syntax tree and records where the binding of each variable
/// reference lives. It complains about what it finds wrong, and walks on.
pub struct Resolver {
    pub scopes: Vec<Table<bool>>,
    pub resolution: Resolution,
    pub current_function: FunctionType,
    pub current_class: ClassType,
    pub errors: Vec<Diagnostic>,
}

impl Resolver {
    pub open spec fn view(&self) -> Resolving {
        Resolving {
            scopes: tables_view(self.scopes@),
            function: self.current_function,
            class: self.current_class,
            depths: self.resolution@,
            errors: self.errors@,
        }
    }

    /// A resolver at the top level of a program, which adds to `resolution`.
    pub fn new(resolution: Resolution) -> (r: Self)
        ensures
            r@ == (Resolving {
                scopes: Seq::empty(),
                function: FunctionType::NotFun,
                class: ClassType::NotClass,
                depths: resolution@,
                errors: Seq::empty(),
            }),
    {
        let r = Resolver {
            scopes: Vec::new(),
            resolution,
            current_function: FunctionType::NotFun,
            current_class: ClassType::NotClass,
            errors: Vec::new(),
        };
        assert(tables_view(r.scopes@) =~= Seq::empty());
        r
    }

    /// Resolves the statements in order.
    pub fn resolve(&mut self, statements: &Vec<Stmt>)
        ensures
            final(self)@ == resolve_stmts_from(statements@, 0, old(self)@),
        decreases statements, 1nat,
    {
        let mut i: usize = 0;
        while i < statements.len()
            invariant
                i <= statements@.len(),
                resolve_stmts_from(statements@, i as int, self@) == resolve_stmts_from(
                    statements@,
                    0,
                    old(self)@,
                ),
            decreases statements@.len() - i,
        {
            self.resolve_statement(&statements[i]);
            i += 1;
        }
    }

    fn insert_step_for_id(&mut self, id: usize, steps: usize)
        ensures
            final(self)@ == (Resolving { depths: old(self)@.depths.insert(id, steps), ..old(self)@ }),
    {
        self.resolution.set_step_for_id(id, steps);
    }

    fn complain(&mut self, token: &Token, message: &'static str)
        ensures
            final(self)@ == blame(old(self)@, *token, message),
    {
        self.errors.push(Diagnostic::at_token(token, message));
    }

    fn begin_scope(&mut self)
        ensures
            final(self)@ == begin_scope(old(self)@),
    {
        self.scopes.push(Table::new());
        assert(tables_view(self.scopes@) =~= tables_view(old(self).scopes@).push(Map::empty()));
    }

    fn end_scope(&mut self)
        ensures
            final(self)@ == end_scope(old(self)@),
    {
        let _ = self.scopes.pop();
        assert(old(self).scopes@.len() > 0 ==> tables_view(self.scopes@) =~= tables_view(
            old(self).scopes@,
        ).drop_last());
    }

    /// Enters `name` into the innermost scope, if there is one.
    fn enter(&mut self, name: String, ready: bool)
        ensures
            final(self)@ == enter(old(self)@, name@, ready),
    {
        match self.scopes.pop() {
            Some(top) => {
                let mut top = top;
                top.insert(name, ready);
                self.scopes.push(top);
                assert(tables_view(self.scopes@) =~= tables_view(old(self).scopes@).update(
                    old(self).scopes@.len() - 1,
                    tables_view(old(self).scopes@).last().insert(name@, ready),
                ));
            },
            None => {
                assert(tables_view(self.scopes@) =~= tables_view(old(self).scopes@));
            },
        }
    }

    /// What the innermost scope says of `name`, if it declares it.
    fn innermost(&self, name: &String) -> (r: Option<bool>)
        ensures
            r == if self@.scopes.len() > 0 && self@.scopes.last().contains_key(name@) {
                Some(self@.scopes.last()[name@])
            } else {
                None
            },
    {
        let n = self.scopes.len();
        if n == 0 {
            None
        } else {
            match self.scopes[n - 1].get(name) {
                Some(ready) => Some(*ready),
                None => None,
            }
        }
    }

    fn declare(&mut self, name: &Token)
        ensures
            final(self)@ == declare(old(self)@, *name),
    {
        if self.innermost(&name.lexeme).is_some() {
            self.complain(name, "Already a variable with this name in this scope.");
        } else {
            self.enter(name.lexeme.clone(), false);
        }
    }

    fn define(&mut self, name: &Token)
        ensures
            final(self)@ == define(old(self)@, *name),
    {
        self.enter(name.lexeme.clone(), true);
    }

    /// The depth of the binding that a use of `name` refers to, if it is
    /// local.
    fn resolve_local(&self, name: &Token) -> (r: Option<usize>)
        ensures
            r == hops(self@.scopes, name.lexeme@),
    {
        let n = self.scopes.len();
        let mut i: usize = n;
        while i > 0
            invariant
                i <= n,
                n == self.scopes@.len(),
                hops_from(self@.scopes, name.lexeme@, i - 1) == hops(self@.scopes, name.lexeme@),
            decreases i,
        {
            i -= 1;
            if self.scopes[i].contains_key(&name.lexeme) {
                return Some(n - 1 - i);
            }
        }
        None
    }

    /// Records the depth of the reference `id` to `name`, if it is local.
    fn note_local(&mut self, name: &Token, id: usize)
        ensures
            final(self)@ == resolve_local(old(self)@, *name, id),
    {
        let index = self.resolve_local(name);
        if let Some(step) = index {
            self.insert_step_for_id(id, step);
        }
    }

    fn resolve_function(&mut self, function: &Function, function_type: FunctionType)
        ensures
            final(self)@ == resolve_function(*function, function_type, old(self)@),
        decreases function, 0nat,
    {
        let enclosing_function = self.current_function;
        self.current_function = function_type;
        self.begin_scope();
        let ghost inside = self@;
        let mut i: usize = 0;
        while i < function.params.len()
            invariant
                i <= function.params@.len(),
                declare_from(function.params@, i as int, self@) == declare_from(
                    function.params@,
                    0,
                    inside,
                ),
            decreases function.params@.len() - i,
        {
            self.declare(&function.params[i]);
            self.define(&function.params[i]);
            i += 1;
        }
        self.resolve(&function.body);
        self.end_scope();
        self.current_function = enclosing_function;
    }

    fn resolve_variable(&mut self, name: &Token, id: usize)
        ensures
            final(self)@ == resolve_variable(old(self)@, *name, id),
    {
        if let Some(ready) = self.innermost(&name.lexeme) {
            if !ready {
                self.complain(name, "Can't read local variable in its own initializer.");
            }
        }
        self.note_local(name, id);
    }

    fn resolve_expr(&mut self, expr: &Expr)
        ensures
            final(self)@ == resolve_expr(*expr, old(self)@),
        decreases expr, 0nat,
    {
        match expr {
            Expr::BinaryExpr { left, operator: _, right } => {
                self.resolve_expr(left);
                self.resolve_expr(right);
            },
            Expr::GroupingExpr { expression } => {
                self.resolve_expr(expression);
            },
            Expr::LiteralExpr { value: _ } => {},
            Expr::UnaryExpr { operator: _, right } => {
                self.resolve_expr(right);
            },
            Expr::VariableExpr { name, id } => {
                self.resolve_variable(name, *id);
            },
            Expr::AssignExpr { name, value, id } => {
                self.resolve_expr(value);
                self.note_local(name, *id);
            },
            Expr::LogicalExpr { left, operator: _, right } => {
                self.resolve_expr(left);
                self.resolve_expr(right);
            },
            Expr::CallExpr { callee, paren: _, arguments } => {
                self.resolve_expr(callee);
                self.resolve_exprs(arguments);
            },
            Expr::GetExpr { object, name: _ } => {
                self.resolve_expr(object);
            },
            Expr::SetExpr { object, name: _, value } => {
                self.resolve_expr(value);
                self.resolve_expr(object);
            },
            Expr::ThisExpr { keyword, id } => {
                if self.current_class == ClassType::NotClass {
                    self.complain(keyword, "Can't use 'this' outside of a class.");
                } else {
                    self.note_local(keyword, *id);
                }
            },
            Expr::SuperExpr { keyword, method: _, id } => {
                match self.current_class {
                    ClassType::NotClass => self.complain(
                        keyword,
                        "Can't use 'super' outside of a class.",
                    ),
                    ClassType::Class => self.complain(
                        keyword,
                        "Can't use 'super' in a class with no superclass.",
                    ),
                    ClassType::Subclass => {},
                }
                self.note_local(keyword, *id);
            },
        }
    }

    /// Resolves the expressions in order.
    fn resolve_exprs(&mut self, exprs: &Vec<Expr>)
        ensures
            final(self)@ == resolve_exprs_from(exprs@, 0, old(self)@),
        decreases exprs, 1nat,
    {
        let mut i: usize = 0;
        while i < exprs.len()
            invariant
                i <= exprs@.len(),
                resolve_exprs_from(exprs@, i as int, self@) == resolve_exprs_from(
                    exprs@,
                    0,
                    old(self)@,
                ),
            decreases exprs@.len() - i,
        {
            self.resolve_expr(&exprs[i]);
            i += 1;
        }
    }

    /// Resolves the methods of a class in order.
    fn resolve_methods(&mut self, methods: &Vec<Function>)
        ensures
            final(self)@ == resolve_methods_from(methods@, 0, old(self)@),
        decreases methods, 1nat,
    {
        let mut i: usize = 0;
        while i < methods.len()
            invariant
                i <= methods@.len(),
                resolve_methods_from(methods@, i as int, self@) == resolve_methods_from(
                    methods@,
                    0,
                    old(self)@,
                ),
            decreases methods@.len() - i,
        {
            let method = &methods[i];
            if reads(&method.name.lexeme, "init") {
                self.resolve_function(method, FunctionType::Initializer);
            } else {
                self.resolve_function(method, FunctionType::Method);
            }
            i += 1;
        }
    }

    fn check_return(&mut self, keyword: &Token, value: &Expr)
        ensures
            final(self)@ == check_return(old(self)@, *keyword, *value),
    {
        match self.current_function {
            FunctionType::NotFun => self.complain(keyword, "Can't return from top-level code."),
            FunctionType::Initializer => {
                let bare = match value {
                    Expr::LiteralExpr { value: Literal::NoneLiteral } => true,
                    _ => false,
                };
                if !bare {
                    self.complain(keyword, "Can't return a value from an initializer.");
                }
            },
            _ => {},
        }
    }

    fn enter_class(&mut self, class: &Class)
        ensures
            final(self)@ == enter_class(*class, old(self)@),
    {
        self.current_class = ClassType::Class;
        self.declare(&class.name);
        self.define(&class.name);
        if let Some(superclass) = &class.superclass {
            self.current_class = ClassType::Subclass;
            if class.name.lexeme == superclass.name.lexeme {
                self.complain(&superclass.name, "A class can't inherit from itself.");
            }
            self.resolve_variable(&superclass.name, superclass.id);
            self.begin_scope();
            self.enter(String::from_str("super"), true);
        }
        self.begin_scope();
        self.enter(String::from_str("this"), true);
    }

    fn resolve_statement(&mut self, statement: &Stmt)
        ensures
            final(self)@ == resolve_stmt(*statement, old(self)@),
        decreases statement, 0nat,
    {
        match statement {
            Stmt::ExpressionStmt { expression } => {
                self.resolve_expr(expression);
            },
            Stmt::PrintStmt { expression } => {
                self.resolve_expr(expression);
            },
            Stmt::VarStmt { name, initializer } => {
                self.declare(name);
                self.resolve_expr(initializer);
                self.define(name);
            },
            Stmt::BlockStmt { statements } => {
                self.begin_scope();
                self.resolve(statements);
                self.end_scope();
            },
            Stmt::IfStmt { condition, then_branch, else_branch } => {
                self.resolve_expr(condition);
                self.resolve_statement(then_branch);
                if let Some(other) = else_branch {
                    self.resolve_statement(other);
                }
            },
            Stmt::WhileStmt { condition, body } => {
                self.resolve_expr(condition);
                self.resolve_statement(body);
            },
            Stmt::FunctionStmt { declaration } => {
                self.declare(&declaration.name);
                self.define(&declaration.name);
                self.resolve_function(declaration, FunctionType::Fun);
            },
            Stmt::ReturnStmt { keyword, value } => {
                self.check_return(keyword, value);
                self.resolve_expr(value);
            },
            Stmt::ClassStmt { declaration } => {
                let enclosing_class = self.current_class;
                self.enter_class(declaration);
                self.resolve_methods(&declaration.methods);
                self.end_scope();
                if declaration.superclass.is_some() {
                    self.end_scope();
                }
                self.current_class = enclosing_class;
            },
        }
    }
}

} // verus!
