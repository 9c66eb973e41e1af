//! What one step of the machine does.
//!
//! Each kind of step is described by a relation between the machine before
//! the step, the machine after it and the request that the host gets. The
//! relation `steps` puts them together.
use crate::environment_tree::TreeView;
use crate::expr::Expr;
use crate::lox_callable::{arity_of, arity_text, callable_text, classes_wf, method_of, LoxClass};
use crate::machine::{Arguments, Ask, Control, Frame, Interpreter, Operation, Output, Request, Store};
use crate::number;
use crate::resolver::{ClassType, FunctionType, Resolving};
use crate::stmt::{Class, Function, Stmt};
use crate::token::{Literal, Token, TokenType};
use crate::value::{LoxCallable, LoxFunction, Value};
use vstd::prelude::*;

verus! {

impl<'a> Interpreter<'a> {
    /// The machine is in order when what it keeps is.
    pub open spec fn wf(&self) -> bool {
        self.store.wf()
    }
}

/// The class that `super` means for the reference `id`: the one that the
/// name `super` is bound to in the scope where the resolver found it. That
/// is the superclass of the class whose body the reference is written in.
pub open spec fn super_class<'a>(env: TreeView<'a>, id: usize) -> Option<usize> {
    if env.depths.contains_key(id) && env.depths[id] >= 1 {
        match env.binding_at("super"@, env.depths[id] as nat) {
            Some(Value::Callable(LoxCallable::UserClass(c))) => Some(c),
            _ => None,
        }
    } else {
        None
    }
}

/// The method that `super.method` means for the reference `id`: the nearest
/// method of that name from the superclass upwards.
pub open spec fn super_target<'a>(
    env: TreeView<'a>,
    classes: Seq<LoxClass<'a>>,
    method: Seq<char>,
    id: usize,
) -> Option<LoxFunction<'a>> {
    match super_class(env, id) {
        Some(c) => method_of(classes, c as int, method),
        None => None,
    }
}

/// The object that a method found through `super` is bound to: `this`, one
/// scope further in than `super`.
pub open spec fn super_receiver<'a>(env: TreeView<'a>, id: usize) -> Option<Value<'a>> {
    if env.depths.contains_key(id) && env.depths[id] >= 1 {
        env.binding_at("this"@, (env.depths[id] - 1) as nat)
    } else {
        None
    }
}

/// What `this` is in scope `closure`; `nil` where it is nothing.
pub open spec fn this_in<'a>(env: TreeView<'a>, closure: usize) -> Value<'a> {
    if closure < env.scopes.len() && env.scopes[closure as int].bindings.contains_key("this"@) {
        env.scopes[closure as int].bindings["this"@]
    } else {
        Value::Nil
    }
}

/// What a call of `function` gives when its body gave `returned`: an
/// initializer gives the instance it was bound to, whatever its body
/// returned.
pub open spec fn result_of<'a>(env: TreeView<'a>, function: LoxFunction<'a>, returned: Value<'a>) -> Value<
    'a,
> {
    if function.is_initializer {
        this_in(env, function.closure)
    } else {
        returned
    }
}

/// The value of a literal that is no number.
pub open spec fn literal_value<'a>(literal: Literal) -> Value<'a> {
    match literal {
        Literal::StringLiteral(s) => Value::Str(s),
        Literal::BoolLiteral(b) => Value::Bool(b),
        _ => Value::Nil,
    }
}

/// The text of the error for an undefined variable.
pub open spec fn undefined_text(name: Seq<char>) -> Seq<char> {
    "Undefined variable '"@ + name + "'."@
}

/// The text of the error for an undefined property.
pub open spec fn no_property_text(name: Seq<char>) -> Seq<char> {
    "Undefined property '"@ + name + "'."@
}

/// `after` keeps `store`, has the frames `frames` and the control `control`.
pub open spec fn goes<'a>(
    store: Store<'a>,
    after: Interpreter<'a>,
    frames: Seq<Frame<'a>>,
    control: Control<'a>,
) -> bool {
    &&& after.store == store
    &&& after.frames@ == frames
    &&& after.control == control
}

/// `after` keeps the classes and instances of `store`, has the scopes `env`,
/// the frames `frames` and the control `control`.
pub open spec fn turns<'a>(
    store: Store<'a>,
    after: Interpreter<'a>,
    env: TreeView<'a>,
    frames: Seq<Frame<'a>>,
    control: Control<'a>,
) -> bool {
    &&& after.store.env@ == env
    &&& after.store.classes == store.classes
    &&& after.store.instances == store.instances
    &&& after.frames@ == frames
    &&& after.control == control
}

/// The program has failed: nothing waits any more, the machine is back in
/// the global scope, and the host gets the failure.
pub open spec fn fails<'a>(
    store: Store<'a>,
    after: Interpreter<'a>,
    request: Request,
    message: Seq<char>,
    line: usize,
) -> bool {
    &&& turns(
        store,
        after,
        TreeView { current: 0, ..store.env@ },
        Seq::<Frame<'a>>::empty(),
        Control::<'a>::Halted,
    )
    &&& (request matches Request::Failed(e) && e.message@ == message && e.line == line)
}

impl<'a> Store<'a> {
    /// The scopes and the classes are in order, the methods of every class
    /// close over a scope that exists, and every instance is of a class that
    /// exists.
    pub open spec fn wf(&self) -> bool {
        &&& self.env.wf()
        &&& classes_wf(self.classes@)
        &&& forall|c: int, name: Seq<char>|
            0 <= c < self.classes@.len() && (#[trigger] self.classes@[c].methods@.contains_key(name))
                ==> self.classes@[c].methods@[name].closure < self.env@.scopes.len()
        &&& forall|i: int|
            0 <= i < self.instances@.len() ==> (#[trigger] self.instances@[i]).class
                < self.classes@.len()
    }

    /// The instance that `value` names, if it names one.
    pub open spec fn instance_of(self, value: Value<'a>) -> Option<usize> {
        match value {
            Value::Instance(i) => if i < self.instances@.len() {
                Some(i)
            } else {
                None
            },
            _ => None,
        }
    }

    /// The method that `super.method` means for the reference `id`, and the
    /// instance it is to be bound to.
    pub open spec fn super_method(self, method: Seq<char>, id: usize) -> Option<
        (LoxFunction<'a>, usize),
    > {
        match (super_target(self.env@, self.classes@, method, id), super_receiver(self.env@, id)) {
            (Some(f), Some(object)) => match self.instance_of(object) {
                Some(i) => Some((f, i)),
                None => None,
            },
            _ => None,
        }
    }

    /// The tree after `function` has been bound to instance `instance`: a
    /// new scope under the function's closure, in which `this` is the
    /// instance.
    pub open spec fn bound_env(self, function: LoxFunction<'a>, instance: usize) -> TreeView<'a> {
        self.env@.new_child(Some(function.closure)).bind(
            self.env@.scopes.len() as int,
            "this"@,
            Value::Instance(instance),
        )
    }

    /// `function` bound to an instance: the same function, closed over the
    /// new scope that holds `this`.
    pub open spec fn bound(self, function: LoxFunction<'a>) -> LoxFunction<'a> {
        LoxFunction { closure: self.env@.scopes.len() as usize, ..function }
    }
}

/// A method that is found in a class of a store in order closes over a
/// scope that exists.
pub proof fn lemma_found_method_closed<'a>(store: Store<'a>, c: int, name: Seq<char>)
    requires
        store.wf(),
        method_of(store.classes@, c, name) is Some,
    ensures
        method_of(store.classes@, c, name).unwrap().closure < store.env@.scopes.len(),
    decreases c,
{
    if 0 <= c < store.classes@.len() && !store.classes@[c].methods@.contains_key(name) {
        match store.classes@[c].superclass {
            Some(p) => {
                lemma_found_method_closed(store, p as int, name);
            },
            None => {},
        }
    }
}

/// The method that `super` means in a store in order closes over a scope
/// that exists.
pub proof fn lemma_method_closed<'a>(store: Store<'a>, method: Seq<char>, id: usize)
    requires
        store.wf(),
        store.super_method(method, id) is Some,
    ensures
        store.super_method(method, id).unwrap().0.closure < store.env@.scopes.len(),
{
    match super_class(store.env@, id) {
        Some(c) => {
            lemma_found_method_closed(store, c as int, method);
        },
        None => {},
    }
}

/// What evaluating `e` comes to, with the frames `rest` waiting.
///
/// The operands of an operator, the callee and the arguments of a call, and
/// the object and the value of a property assignment are evaluated from left
/// to right: the first is evaluated now, and a frame remembers the rest.
pub open spec fn evaluates<'a>(
    store: Store<'a>,
    rest: Seq<Frame<'a>>,
    e: &'a Expr,
    after: Interpreter<'a>,
    request: Request,
) -> bool {
    match *e {
        Expr::LiteralExpr { value } => match value {
            Literal::NumberLiteral(s) => goes(store, after, rest, Control::Await(Ask::Numeral(&s)))
                && (request matches Request::Numeral(t) && t@ == s@),
            _ => goes(store, after, rest, Control::Deliver(literal_value(value)))
                && request is Continue,
        },
        Expr::GroupingExpr { expression } => goes(store, after, rest, Control::Eval(&*expression))
            && request is Continue,
        Expr::UnaryExpr { operator, right } => goes(
            store,
            after,
            rest.push(Frame::UnaryOp { operator: &operator }),
            Control::Eval(&*right),
        ) && request is Continue,
        Expr::BinaryExpr { left, operator, right } => goes(
            store,
            after,
            rest.push(Frame::BinaryRight { operator: &operator, right: &*right }),
            Control::Eval(&*left),
        ) && request is Continue,
        Expr::LogicalExpr { left, operator, right } => goes(
            store,
            after,
            rest.push(Frame::LogicalRight { operator: &operator, right: &*right }),
            Control::Eval(&*left),
        ) && request is Continue,
        Expr::AssignExpr { name, value, id } => goes(
            store,
            after,
            rest.push(Frame::AssignTo { name: &name, id }),
            Control::Eval(&*value),
        ) && request is Continue,
        Expr::CallExpr { callee, paren, arguments } => goes(
            store,
            after,
            rest.push(Frame::CallCallee { paren: &paren, arguments: &arguments }),
            Control::Eval(&*callee),
        ) && request is Continue,
        Expr::GetExpr { object, name } => goes(
            store,
            after,
            rest.push(Frame::GetProperty { name: &name }),
            Control::Eval(&*object),
        ) && request is Continue,
        Expr::SetExpr { object, name, value } => goes(
            store,
            after,
            rest.push(Frame::SetObject { name: &name, value: &*value }),
            Control::Eval(&*object),
        ) && request is Continue,
        Expr::VariableExpr { name, id } => reads_variable(store, rest, name, id, after, request),
        Expr::ThisExpr { keyword, id } => reads_variable(store, rest, keyword, id, after, request),
        Expr::SuperExpr { keyword, method, id } => match store.super_method(method.lexeme@, id) {
            Some((f, i)) => turns(
                store,
                after,
                store.bound_env(f, i),
                rest,
                Control::Deliver(Value::Callable(LoxCallable::UserFunction(store.bound(f)))),
            ) && request is Continue,
            None => fails(store, after, request, no_property_text(method.lexeme@), method.line),
        },
    }
}

/// Reading the variable `name` for the reference `id`: its value is
/// delivered, or the program fails because it is not defined.
pub open spec fn reads_variable<'a>(
    store: Store<'a>,
    rest: Seq<Frame<'a>>,
    name: Token,
    id: usize,
    after: Interpreter<'a>,
    request: Request,
) -> bool {
    match store.env@.read(name.lexeme@, id) {
        Some(v) => goes(store, after, rest, Control::Deliver(v)) && request is Continue,
        None => fails(store, after, request, undefined_text(name.lexeme@), name.line),
    }
}

/// The function value that the declaration `declaration` makes in a scope.
pub open spec fn function_value<'a>(declaration: &'a Function, closure: usize) -> Value<'a> {
    Value::Callable(
        LoxCallable::UserFunction(LoxFunction { declaration, closure, is_initializer: false }),
    )
}

/// The method that the declaration `declaration` makes in a class body.
pub open spec fn method_value<'a>(declaration: &'a Function, closure: usize) -> LoxFunction<'a> {
    LoxFunction { declaration, closure, is_initializer: declaration.name.lexeme@ == "init"@ }
}

/// The methods that the first `n` declarations of `ms` make, by name. Of two
/// methods of one name the later one stays.
pub open spec fn method_table<'a>(ms: &'a Vec<Function>, n: int, closure: usize) -> Map<
    Seq<char>,
    LoxFunction<'a>,
>
    decreases n,
{
    if n <= 0 || n > ms@.len() {
        Map::empty()
    } else {
        method_table(ms, n - 1, closure).insert(
            ms@[n - 1].name.lexeme@,
            method_value(&ms@[n - 1], closure),
        )
    }
}

/// Every method of a method table closes over the scope it was made in.
pub proof fn lemma_method_table_closure<'a>(ms: &'a Vec<Function>, n: int, closure: usize)
    ensures
        forall|name: Seq<char>| #[trigger]
            method_table(ms, n, closure).contains_key(name) ==> method_table(
                ms,
                n,
                closure,
            )[name].closure == closure,
    decreases n,
{
    if !(n <= 0 || n > ms@.len()) {
        lemma_method_table_closure(ms, n - 1, closure);
    }
}

impl<'a> Store<'a> {
    /// The class that `value` names, if it names one.
    pub open spec fn class_of(self, value: Value<'a>) -> Option<usize> {
        match value {
            Value::Callable(LoxCallable::UserClass(c)) => if c < self.classes@.len() {
                Some(c)
            } else {
                None
            },
            _ => None,
        }
    }

    /// The scope that the methods of a new class close over: a new scope
    /// that holds `super` where the class has a superclass, the current
    /// scope where it has none.
    pub open spec fn method_scope(self, superclass: Option<usize>) -> usize {
        match superclass {
            Some(_) => self.env@.scopes.len() as usize,
            None => self.env@.current,
        }
    }

    /// The scopes after the class `declaration` has been declared: its name
    /// is bound to `nil` first, so that the methods can refer to it; then,
    /// where there is a superclass, a new scope under the current one holds
    /// it as `super`; last, the name is bound to the class.
    pub open spec fn class_env(self, declaration: &'a Class, superclass: Option<usize>) -> TreeView<
        'a,
    > {
        let named = self.env@.define_current(declaration.name.lexeme@, Value::Nil);
        let derived = match superclass {
            Some(c) => named.new_child(Some(named.current)).bind(
                named.scopes.len() as int,
                "super"@,
                Value::Callable(LoxCallable::UserClass(c)),
            ),
            None => named,
        };
        derived.bind(
            derived.current as int,
            declaration.name.lexeme@,
            Value::Callable(LoxCallable::UserClass(self.classes@.len() as usize)),
        )
    }
}

/// The class `declaration` with the given superclass has been made: it is
/// the last of the classes, its methods close over the scope that holds
/// `super`, or over the current one, and its name is bound to it.
pub open spec fn makes_class<'a>(
    store: Store<'a>,
    rest: Seq<Frame<'a>>,
    declaration: &'a Class,
    superclass: Option<usize>,
    after: Interpreter<'a>,
) -> bool {
    &&& after.store.env@ == store.class_env(declaration, superclass)
    &&& after.store.instances == store.instances
    &&& after.store.classes@.len() == store.classes@.len() + 1
    &&& after.store.classes@.drop_last() == store.classes@
    &&& after.store.classes@.last().class == declaration
    &&& after.store.classes@.last().superclass == superclass
    &&& after.store.classes@.last().methods@ == method_table(
        &declaration.methods,
        declaration.methods@.len() as int,
        store.method_scope(superclass),
    )
    &&& after.frames@ == rest
    &&& after.control == Control::<'a>::Deliver(Value::Nil)
}

/// A class declaration: the superclass, where one is named, must be a
/// class; then the class is made.
pub open spec fn declares_class<'a>(
    store: Store<'a>,
    rest: Seq<Frame<'a>>,
    declaration: &'a Class,
    after: Interpreter<'a>,
    request: Request,
) -> bool {
    match declaration.superclass {
        Some(parent) => match store.env@.read(parent.name.lexeme@, parent.id) {
            None => fails(
                store,
                after,
                request,
                undefined_text(parent.name.lexeme@),
                parent.name.line,
            ),
            Some(v) => match store.class_of(v) {
                Some(c) => makes_class(store, rest, declaration, Some(c), after)
                    && request is Continue,
                None => fails(
                    store,
                    after,
                    request,
                    "Superclass must be a class."@,
                    parent.name.line,
                ),
            },
        },
        None => makes_class(store, rest, declaration, None, after) && request is Continue,
    }
}

/// What executing `s` comes to, with the frames `rest` waiting.
pub open spec fn executes<'a>(
    store: Store<'a>,
    rest: Seq<Frame<'a>>,
    s: &'a Stmt,
    after: Interpreter<'a>,
    request: Request,
) -> bool {
    match *s {
        Stmt::ExpressionStmt { expression } => goes(store, after, rest, Control::Eval(&expression))
            && request is Continue,
        Stmt::PrintStmt { expression } => goes(
            store,
            after,
            rest.push(Frame::PrintValue),
            Control::Eval(&expression),
        ) && request is Continue,
        Stmt::VarStmt { name, initializer } => goes(
            store,
            after,
            rest.push(Frame::DefineVar { name: &name }),
            Control::Eval(&initializer),
        ) && request is Continue,
        Stmt::BlockStmt { statements } => turns(
            store,
            after,
            TreeView {
                current: store.env@.scopes.len() as usize,
                ..store.env@.new_child(Some(store.env@.current))
            },
            rest.push(Frame::Restore { scope: store.env@.current }).push(
                Frame::Sequence { statements: &statements, next: 0 },
            ),
            Control::Deliver(Value::Nil),
        ) && request is Continue,
        Stmt::IfStmt { condition, then_branch, else_branch } => goes(
            store,
            after,
            rest.push(
                Frame::Branch {
                    then_branch: &*then_branch,
                    else_branch: match else_branch {
                        Some(other) => Some(&*other),
                        None => None,
                    },
                },
            ),
            Control::Eval(&condition),
        ) && request is Continue,
        Stmt::WhileStmt { condition, body } => goes(
            store,
            after,
            rest.push(Frame::LoopTest { condition: &condition, body: &*body }),
            Control::Eval(&condition),
        ) && request is Continue,
        Stmt::FunctionStmt { declaration } => turns(
            store,
            after,
            store.env@.define_current(
                declaration.name.lexeme@,
                function_value(&declaration, store.env@.current),
            ),
            rest,
            Control::Deliver(Value::Nil),
        ) && request is Continue,
        Stmt::ReturnStmt { keyword, value } => goes(
            store,
            after,
            rest.push(Frame::ReturnValue { keyword: &keyword }),
            Control::Eval(&value),
        ) && request is Continue,
        Stmt::ClassStmt { declaration } => declares_class(store, rest, &declaration, after, request),
    }
}

/// The request that asks the host for the number `ask`.
pub open spec fn asks<'a>(request: Request, ask: Ask<'a>) -> bool {
    match ask {
        Ask::Numeral(text) => request matches Request::Numeral(t) && t@ == text@,
        Ask::Arithmetic { operation, left, right } => request == (Request::Arithmetic {
            operation,
            left,
            right,
        }),
        Ask::Clock => request is Clock,
    }
}

/// The machine waits for a number from the host.
pub open spec fn awaits<'a>(
    store: Store<'a>,
    rest: Seq<Frame<'a>>,
    ask: Ask<'a>,
    after: Interpreter<'a>,
    request: Request,
) -> bool {
    goes(store, after, rest, Control::Await(ask)) && asks(request, ask)
}

/// The scopes after a block or a call has been left for scope `scope`.
pub open spec fn back_to<'a>(env: TreeView<'a>, scope: usize) -> TreeView<'a> {
    if scope < env.scopes.len() {
        TreeView { current: scope, ..env }
    } else {
        env
    }
}

/// The index of the innermost call boundary among `frames`, or -1 where no
/// call is under way.
pub open spec fn boundary<'a>(frames: Seq<Frame<'a>>) -> int
    decreases frames.len(),
{
    if frames.len() == 0 {
        -1
    } else if frames.last() is CallBoundary {
        frames.len() - 1
    } else {
        boundary(frames.drop_last())
    }
}

/// The scopes after the first `k` parameters have been bound to their
/// arguments in scope `n`.
pub open spec fn bind_params<'a>(
    env: TreeView<'a>,
    n: int,
    params: Seq<Token>,
    args: Seq<Value<'a>>,
    k: int,
) -> TreeView<'a>
    decreases k,
{
    if k <= 0 || k > params.len() || k > args.len() {
        env
    } else {
        bind_params(env, n, params, args, k - 1).bind(n, params[k - 1].lexeme@, args[k - 1])
    }
}

/// The scopes in which the body of `function` runs when it is called with
/// `args`: a new scope under the function's closure holds the parameters and
/// is the current one.
pub open spec fn called_env<'a>(env: TreeView<'a>, function: LoxFunction<'a>, args: Seq<Value<'a>>) -> TreeView<
    'a,
> {
    TreeView {
        current: env.scopes.len() as usize,
        ..bind_params(
            env.new_child(Some(function.closure)),
            env.scopes.len() as int,
            function.declaration.params@,
            args,
            function.declaration.params@.len() as int,
        )
    }
}

/// The body of `function` has been entered with `args`, from the scopes
/// `env`: a call boundary remembers the caller's scope.
pub open spec fn enters<'a>(
    env: TreeView<'a>,
    rest: Seq<Frame<'a>>,
    function: LoxFunction<'a>,
    args: Seq<Value<'a>>,
    after: Interpreter<'a>,
) -> bool {
    &&& after.store.env@ == called_env(env, function, args)
    &&& after.frames@ == rest.push(Frame::CallBoundary { scope: env.current, function }).push(
        Frame::Sequence { statements: &function.declaration.body, next: 0 },
    )
    &&& after.control == Control::<'a>::Deliver(Value::Nil)
}

impl<'a> Store<'a> {
    /// What a call of `function` gives when its body gave `returned`.
    pub open spec fn call_result(self, function: LoxFunction<'a>, returned: Value<'a>) -> Value<'a> {
        result_of(self.env@, function, returned)
    }

    /// What can be called in `value`, if it is a callable that the store
    /// knows.
    pub open spec fn callable_of(self, value: Value<'a>) -> Option<LoxCallable<'a>> {
        match value {
            Value::Callable(c) => match c {
                LoxCallable::Clock => Some(c),
                LoxCallable::UserFunction(f) => if f.closure < self.env@.scopes.len() {
                    Some(c)
                } else {
                    None
                },
                LoxCallable::UserClass(k) => if k < self.classes@.len() {
                    Some(c)
                } else {
                    None
                },
            },
            _ => None,
        }
    }

    /// How instance `i` is written out.
    pub open spec fn instance_text(self, i: int) -> Seq<char> {
        "<cls "@ + self.classes@[self.instances@[i].class as int].class.name.lexeme@ + "> instance"@
    }

    /// How a value that is no number is written out.
    pub open spec fn text_of(self, value: Value<'a>) -> Seq<char> {
        match value {
            Value::Nil => "nil"@,
            Value::Bool(b) => if b {
                "true"@
            } else {
                "false"@
            },
            Value::Number(_) => Seq::empty(),
            Value::Str(s) => s@,
            Value::Callable(c) => callable_text(self.classes@, c),
            Value::Instance(i) => if i < self.instances@.len() {
                self.instance_text(i as int)
            } else {
                "<instance>"@
            },
        }
    }

    /// `out` is what printing `value` writes: a number goes to the host as
    /// it is, everything else as its text.
    pub open spec fn shows(self, value: Value<'a>, out: Output) -> bool {
        match value {
            Value::Number(n) => out == Output::Number(n),
            _ => out matches Output::Text(s) && s@ == self.text_of(value),
        }
    }
}

/// A call of `callee` with `args`, written with the closing parenthesis
/// `paren`. Only functions and classes can be called, and only with as many
/// arguments as they have parameters. The clock is the host's; a function
/// runs its body in a new scope; a class makes an instance and runs its
/// initializer, if it has one, bound to the instance.
pub open spec fn invokes<'a>(
    store: Store<'a>,
    rest: Seq<Frame<'a>>,
    callee: Value<'a>,
    args: Seq<Value<'a>>,
    paren: &'a Token,
    after: Interpreter<'a>,
    request: Request,
) -> bool {
    match store.callable_of(callee) {
        None => fails(store, after, request, "Can only call functions and classes."@, paren.line),
        Some(c) => if arity_of(store.classes@, c) != args.len() {
            fails(
                store,
                after,
                request,
                arity_text(arity_of(store.classes@, c), args.len()),
                paren.line,
            )
        } else {
            match c {
                LoxCallable::Clock => awaits(store, rest, Ask::Clock, after, request),
                LoxCallable::UserFunction(f) => enters(store.env@, rest, f, args, after)
                    && after.store.classes == store.classes && after.store.instances
                    == store.instances && request is Continue,
                LoxCallable::UserClass(k) => instantiates(store, rest, k, args, after)
                    && request is Continue,
            }
        },
    }
}

/// A call of class `k`: a new instance without fields is the last of the
/// instances. Where the class has an initializer, it is bound to the
/// instance and entered; where it has none, the instance is delivered.
pub open spec fn instantiates<'a>(
    store: Store<'a>,
    rest: Seq<Frame<'a>>,
    k: usize,
    args: Seq<Value<'a>>,
    after: Interpreter<'a>,
) -> bool {
    &&& after.store.classes == store.classes
    &&& after.store.instances@.len() == store.instances@.len() + 1
    &&& after.store.instances@.drop_last() == store.instances@
    &&& after.store.instances@.last().class == k
    &&& after.store.instances@.last().fields@ == Map::<Seq<char>, Value<'a>>::empty()
    &&& match method_of(store.classes@, k as int, "init"@) {
        Some(init) => enters(
            store.bound_env(init, store.instances@.len() as usize),
            rest,
            store.bound(init),
            args,
            after,
        ),
        None => after.store.env@ == store.env@ && after.frames@ == rest && after.control
            == Control::<'a>::Deliver(Value::Instance(store.instances@.len() as usize)),
    }
}

/// Applying the binary operator `operator` to `left` and `right`. Equality
/// is defined on all values. `+` adds two numbers or joins two strings; the
/// other operators take two numbers. Arithmetic is the host's.
pub open spec fn applies<'a>(
    store: Store<'a>,
    rest: Seq<Frame<'a>>,
    operator: &'a Token,
    left: Value<'a>,
    right: Value<'a>,
    after: Interpreter<'a>,
    request: Request,
) -> bool {
    let delivers = |b: bool|
        goes(store, after, rest, Control::Deliver(Value::Bool(b))) && request is Continue;
    let computes = |operation: Operation, a: u64, b: u64|
        awaits(store, rest, Ask::Arithmetic { operation, left: a, right: b }, after, request);
    let refuses = fails(store, after, request, "Operands must be numbers."@, operator.line);
    match operator.token_type {
        TokenType::BangEqual => delivers(!left.equals(right)),
        TokenType::EqualEqual => delivers(left.equals(right)),
        TokenType::Plus => match (left, right) {
            (Value::Str(a), Value::Str(b)) => after.store == store && after.frames@ == rest && (
            after.control matches Control::Deliver(Value::Str(joined)) && joined@ == a@ + b@)
                && request is Continue,
            (Value::Number(a), Value::Number(b)) => computes(Operation::Add, a, b),
            _ => fails(
                store,
                after,
                request,
                "Operands must be two numbers or two strings."@,
                operator.line,
            ),
        },
        _ => match (left, right) {
            (Value::Number(a), Value::Number(b)) => match operator.token_type {
                TokenType::Minus => computes(Operation::Subtract, a, b),
                TokenType::Slash => computes(Operation::Divide, a, b),
                TokenType::Star => computes(Operation::Multiply, a, b),
                TokenType::Greater => delivers(number::less(b, a)),
                TokenType::GreaterEqual => delivers(number::at_most(b, a)),
                TokenType::Less => delivers(number::less(a, b)),
                TokenType::LessEqual => delivers(number::at_most(a, b)),
                _ => refuses,
            },
            _ => refuses,
        },
    }
}

/// Reading the property `name` of `object`: a field of the instance, or
/// else a method of its class, bound to the instance.
pub open spec fn gets<'a>(
    store: Store<'a>,
    rest: Seq<Frame<'a>>,
    name: &'a Token,
    object: Value<'a>,
    after: Interpreter<'a>,
    request: Request,
) -> bool {
    match store.instance_of(object) {
        None => fails(store, after, request, "Only instances have properties."@, name.line),
        Some(i) => if store.instances@[i as int].fields@.contains_key(name.lexeme@) {
            goes(
                store,
                after,
                rest,
                Control::Deliver(store.instances@[i as int].fields@[name.lexeme@]),
            ) && request is Continue
        } else {
            match method_of(store.classes@, store.instances@[i as int].class as int, name.lexeme@) {
                Some(f) => turns(
                    store,
                    after,
                    store.bound_env(f, i),
                    rest,
                    Control::Deliver(Value::Callable(LoxCallable::UserFunction(store.bound(f)))),
                ) && request is Continue,
                None => fails(store, after, request, no_property_text(name.lexeme@), name.line),
            }
        },
    }
}

/// Setting the field `name` of instance `instance` to `value`.
pub open spec fn sets<'a>(
    store: Store<'a>,
    rest: Seq<Frame<'a>>,
    name: &'a Token,
    instance: usize,
    value: Value<'a>,
    after: Interpreter<'a>,
) -> bool {
    if instance < store.instances@.len() {
        &&& after.store.env == store.env
        &&& after.store.classes == store.classes
        &&& after.store.instances@.len() == store.instances@.len()
        &&& forall|j: int|
            0 <= j < store.instances@.len() && j != instance ==> #[trigger] after.store.instances@[j]
                == store.instances@[j]
        &&& after.store.instances@[instance as int].class == store.instances@[instance as int].class
        &&& after.store.instances@[instance as int].fields@
            == store.instances@[instance as int].fields@.insert(name.lexeme@, value)
        &&& after.frames@ == rest
        &&& after.control == Control::<'a>::Deliver(value)
    } else {
        goes(store, after, rest, Control::Deliver(value))
    }
}

/// A `return` with the value `value`: the innermost call ends. The frames
/// above its boundary are given up, the caller's scope is current again, and
/// the result of the call is delivered. Outside of any call the program
/// fails.
pub open spec fn unwinds<'a>(
    store: Store<'a>,
    rest: Seq<Frame<'a>>,
    keyword: &'a Token,
    value: Value<'a>,
    after: Interpreter<'a>,
    request: Request,
) -> bool {
    let at = boundary(rest);
    if at < 0 {
        fails(store, after, request, Seq::<char>::empty(), keyword.line)
    } else {
        match rest[at] {
            Frame::CallBoundary { scope, function } => turns(
                store,
                after,
                back_to(store.env@, scope),
                rest.take(at),
                Control::Deliver(store.call_result(function, value)),
            ) && request is Continue,
            _ => false,
        }
    }
}

/// What handing `value` to `frame` comes to, with the frames `rest` waiting
/// below it.
pub open spec fn resumes<'a>(
    store: Store<'a>,
    rest: Seq<Frame<'a>>,
    frame: Frame<'a>,
    value: Value<'a>,
    after: Interpreter<'a>,
    request: Request,
) -> bool {
    match frame {
        Frame::Sequence { statements, next } => (if next < statements@.len() {
            goes(
                store,
                after,
                rest.push(Frame::Sequence { statements, next: (next + 1) as usize }),
                Control::Exec(&statements@[next as int]),
            )
        } else {
            goes(store, after, rest, Control::Deliver(Value::Nil))
        }) && request is Continue,
        Frame::Restore { scope } => turns(
            store,
            after,
            back_to(store.env@, scope),
            rest,
            Control::Deliver(value),
        ) && request is Continue,
        Frame::CallBoundary { scope, function } => turns(
            store,
            after,
            back_to(store.env@, scope),
            rest,
            Control::Deliver(store.call_result(function, Value::Nil)),
        ) && request is Continue,
        Frame::UnaryOp { operator } => match operator.token_type {
            TokenType::Bang => goes(
                store,
                after,
                rest,
                Control::Deliver(Value::Bool(!value.truthy())),
            ) && request is Continue,
            _ => match value {
                Value::Number(n) => if operator.token_type == TokenType::Minus {
                    goes(store, after, rest, Control::Deliver(Value::Number(number::negated(n))))
                        && request is Continue
                } else {
                    fails(store, after, request, "Operand must be a number."@, operator.line)
                },
                _ => fails(store, after, request, "Operand must be a number."@, operator.line),
            },
        },
        Frame::BinaryRight { operator, right } => goes(
            store,
            after,
            rest.push(Frame::BinaryApply { operator, left: value }),
            Control::Eval(right),
        ) && request is Continue,
        Frame::BinaryApply { operator, left } => applies(
            store,
            rest,
            operator,
            left,
            value,
            after,
            request,
        ),
        Frame::LogicalRight { operator, right } => (if (operator.token_type == TokenType::Or)
            == value.truthy() {
            goes(store, after, rest, Control::Deliver(value))
        } else {
            goes(store, after, rest, Control::Eval(right))
        }) && request is Continue,
        Frame::AssignTo { name, id } => match store.env@.assign(name.lexeme@, value, id) {
            Some(env) => turns(store, after, env, rest, Control::Deliver(value))
                && request is Continue,
            None => fails(store, after, request, undefined_text(name.lexeme@), name.line),
        },
        Frame::CallCallee { paren, arguments } => if arguments@.len() == 0 {
            invokes(store, rest, value, Seq::empty(), paren, after, request)
        } else {
            goes(
                store,
                after,
                rest.push(
                    Frame::CallArgument {
                        paren,
                        callee: value,
                        arguments,
                        done: Arguments::Empty,
                        next: 0,
                    },
                ),
                Control::Eval(&arguments@[0]),
            ) && request is Continue
        },
        Frame::CallArgument { paren, callee, arguments, done, next } => {
            let all = Arguments::More { value, rest: Box::new(done) };
            if next + 1 < arguments@.len() {
                goes(
                    store,
                    after,
                    rest.push(
                        Frame::CallArgument {
                            paren,
                            callee,
                            arguments,
                            done: all,
                            next: (next + 1) as usize,
                        },
                    ),
                    Control::Eval(&arguments@[next + 1]),
                ) && request is Continue
            } else {
                invokes(store, rest, callee, all.in_order(), paren, after, request)
            }
        },
        Frame::GetProperty { name } => gets(store, rest, name, value, after, request),
        Frame::SetObject { name, value: e } => match store.instance_of(value) {
            Some(i) => goes(
                store,
                after,
                rest.push(Frame::SetValue { name, instance: i }),
                Control::Eval(e),
            ) && request is Continue,
            None => fails(store, after, request, "Only instances have fields."@, name.line),
        },
        Frame::SetValue { name, instance } => sets(store, rest, name, instance, value, after)
            && request is Continue,
        Frame::PrintValue => goes(store, after, rest, Control::Deliver(Value::Nil)) && (
        request matches Request::Print(out) && store.shows(value, out)),
        Frame::DefineVar { name } => turns(
            store,
            after,
            store.env@.define_current(name.lexeme@, value),
            rest,
            Control::Deliver(Value::Nil),
        ) && request is Continue,
        Frame::Branch { then_branch, else_branch } => (if value.truthy() {
            goes(store, after, rest, Control::Exec(then_branch))
        } else {
            match else_branch {
                Some(other) => goes(store, after, rest, Control::Exec(other)),
                None => goes(store, after, rest, Control::Deliver(Value::Nil)),
            }
        }) && request is Continue,
        Frame::LoopTest { condition, body } => (if value.truthy() {
            goes(
                store,
                after,
                rest.push(Frame::LoopBody { condition, body }),
                Control::Exec(body),
            )
        } else {
            goes(store, after, rest, Control::Deliver(Value::Nil))
        }) && request is Continue,
        Frame::LoopBody { condition, body } => goes(
            store,
            after,
            rest.push(Frame::LoopTest { condition, body }),
            Control::Eval(condition),
        ) && request is Continue,
        Frame::ReturnValue { keyword } => unwinds(store, rest, keyword, value, after, request),
    }
}

/// One step of the machine.
pub open spec fn steps<'a>(before: Interpreter<'a>, after: Interpreter<'a>, request: Request) -> bool {
    match before.control {
        Control::Eval(e) => evaluates(before.store, before.frames@, e, after, request),
        Control::Exec(s) => executes(before.store, before.frames@, s, after, request),
        Control::Deliver(value) => if before.frames@.len() == 0 {
            goes(before.store, after, Seq::empty(), Control::Halted) && request is Finished
        } else {
            resumes(
                before.store,
                before.frames@.drop_last(),
                before.frames@.last(),
                value,
                after,
                request,
            )
        },
        Control::Await(ask) => goes(before.store, after, before.frames@, before.control) && asks(
            request,
            ask,
        ),
        Control::Halted => goes(before.store, after, before.frames@, before.control)
            && request is Finished,
    }
}

/// The machine after the host has supplied the number `bits` that it waited
/// for.
pub open spec fn supplied<'a>(before: Interpreter<'a>, after: Interpreter<'a>, bits: u64) -> bool {
    if before.control is Await {
        goes(before.store, after, before.frames@, Control::Deliver(Value::Number(bits)))
    } else {
        goes(before.store, after, before.frames@, before.control)
    }
}

/// The state in which the resolver begins a program: at the top level, with
/// the depths that earlier programs left.
pub open spec fn resolving_from(depths: Map<usize, usize>) -> Resolving {
    Resolving {
        scopes: Seq::empty(),
        function: FunctionType::NotFun,
        class: ClassType::NotClass,
        depths,
        errors: Seq::empty(),
    }
}

} // verus!
