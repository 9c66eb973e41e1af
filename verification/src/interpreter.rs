//! The interpreter: an abstract machine that walks the syntax tree.
//!
//! The machine runs a program one step at a time. A step looks at what is to
//! be done next (the control) and at the work that waits for its result (the
//! frames), and does a bounded amount of work. Whatever it cannot do itself
//! it asks of its host: printing a line, reading the clock, arithmetic on
//! doubles and reading a numeral. A host runs the machine by calling `step`
//! until the program has finished or failed, and serves each request.
use crate::environment_tree::{undefined, EnvironmentTree, TreeView};
use crate::expr::Expr;
use crate::lox_callable::{arity, arity_message, arity_of, find_method, stringify, LoxClass};
use crate::lox_instance::LoxInstance;
pub use crate::machine::{Arguments, Ask, Control, Frame, Interpreter, Operation, Output, Request, Store};
use crate::number;
use crate::report::{Diagnostic, RuntimeError};
use crate::resolution::Resolution;
use crate::resolver::{resolve_stmts_from, Resolver};
use crate::semantics::{
    applies, awaits, back_to, bind_params, boundary, declares_class, enters, evaluates, executes,
    fails, gets, goes, instantiates, invokes, lemma_found_method_closed, lemma_method_closed,
    lemma_method_table_closure, makes_class, method_table, no_property_text, reads_variable,
    resolving_from, resumes, sets, steps, supplied, turns, unwinds,
};
use crate::soundness::{lemma_step_keeps_sound, sound};
use crate::stmt::{Class, Function, Stmt};
use crate::table::Table;
use crate::text::reads;
use crate::token::{Literal, Token, TokenType};
use crate::value::{LoxCallable, LoxFunction, Value};
use vstd::prelude::*;
use vstd::string::StringExecFns;

verus! {

impl<'a> Interpreter<'a> {
    /// A machine without a program. The global `clock` is defined.
    pub fn new() -> (machine: Self)
        ensures
            machine.wf(),
            machine.store.env@ == EnvironmentTree::<'a>::new_view().bind(
                0,
                "clock"@,
                Value::Callable(LoxCallable::Clock),
            ),
            machine.store.classes@.len() == 0,
            machine.store.instances@.len() == 0,
            machine.frames@.len() == 0,
            machine.control is Halted,
            sound(machine),
    {
        let mut env = EnvironmentTree::new();
        env.define_global(String::from_str("clock"), Value::Callable(LoxCallable::Clock));
        let machine = Interpreter {
            store: Store { env, classes: Vec::new(), instances: Vec::new() },
            frames: Vec::new(),
            control: Control::Halted,
        };
        assert(sound(machine)) by {
            assert forall|n: int, name: Seq<char>|
                0 <= n < machine.store.env@.scopes.len()
                    && #[trigger] machine.store.env@.scopes[n].bindings.contains_key(
                    name,
                ) implies name == "clock"@ by {
                assert(n == 0);
            }
        }
        machine
    }

    /// Gives the machine the program `statements` to run, from the global
    /// scope. Work that was under way is given up; what earlier programs
    /// defined stays.
    pub fn interpret(&mut self, statements: &'a Vec<Stmt>)
        requires
            old(self).wf(),
        ensures
            final(self).wf(),
            turns(
                old(self).store,
                *final(self),
                TreeView { current: 0, ..old(self).store.env@ },
                seq![Frame::Sequence { statements, next: 0 }],
                Control::Deliver(Value::Nil),
            ),
            sound(*old(self)) ==> sound(*final(self)),
    {
        self.frames.clear();
        self.store.env.set_current(0);
        self.frames.push(Frame::Sequence { statements, next: 0 });
        self.control = Control::Deliver(Value::Nil);
        assert(self.frames@ =~= seq![Frame::Sequence { statements, next: 0 }]);
    }

    /// Hands the machine the number that it asked for. Where it asked for
    /// none, nothing happens.
    pub fn supply_number(&mut self, bits: u64) -> (accepted: bool)
        ensures
            accepted == (old(self).control is Await),
            supplied(*old(self), *final(self), bits),
            old(self).wf() ==> final(self).wf(),
            sound(*old(self)) ==> sound(*final(self)),
    {
        match &self.control {
            Control::Await(_) => {
                self.control = Control::Deliver(Value::Number(bits));
                true
            },
            _ => false,
        }
    }

    /// Whether the machine has nothing to do: no program was given, or the
    /// program has finished or failed.
    pub fn is_halted(&self) -> (r: bool)
        ensures
            r == (self.control is Halted),
    {
        match &self.control {
            Control::Halted => true,
            _ => false,
        }
    }

    /// Does one step and says what the host is to do.
    pub fn step(&mut self) -> (request: Request)
        requires
            old(self).wf(),
        ensures
            final(self).wf(),
            steps(*old(self), *final(self), request),
            sound(*old(self)) ==> sound(*final(self)),
    {
        let mut control = Control::Halted;
        core::mem::swap(&mut self.control, &mut control);
        let request = match control {
            Control::Eval(e) => self.evaluate(e),
            Control::Exec(s) => self.execute(s),
            Control::Deliver(value) => match self.frames.pop() {
                Some(frame) => {
                    assert(self.frames@ =~= old(self).frames@.drop_last());
                    self.resume(frame, value)
                },
                None => {
                    assert(self.frames@ =~= Seq::<Frame<'a>>::empty());
                    Request::Finished
                },
            },
            Control::Await(ask) => {
                self.control = Control::Await(ask);
                match ask {
                    Ask::Numeral(text) => Request::Numeral(text.clone()),
                    Ask::Arithmetic { operation, left, right } => Request::Arithmetic {
                        operation,
                        left,
                        right,
                    },
                    Ask::Clock => Request::Clock,
                }
            },
            Control::Halted => Request::Finished,
        };
        proof {
            if sound(*old(self)) {
                assert(self.store.env@.scopes.len() == self.store.env.nodes.len());
                assert(self.store.classes@.len() == self.store.classes.len());
                assert(self.store.instances@.len() == self.store.instances.len());
                lemma_step_keeps_sound(*old(self), *self, request);
            }
        }
        request
    }
}

impl<'a> Interpreter<'a> {
    /// Resolves the program `statements` for this machine: the depths that
    /// the resolver finds are added to those the machine has. The complaints
    /// come back; a program that drew any is not to be run.
    pub fn resolve(&mut self, statements: &Vec<Stmt>) -> (errors: Vec<Diagnostic>)
        requires
            old(self).wf(),
        ensures
            final(self).wf(),
            errors@ == resolve_stmts_from(
                statements@,
                0,
                resolving_from(old(self).store.env@.depths),
            ).errors,
            turns(
                old(self).store,
                *final(self),
                TreeView {
                    depths: resolve_stmts_from(
                        statements@,
                        0,
                        resolving_from(old(self).store.env@.depths),
                    ).depths,
                    ..old(self).store.env@
                },
                old(self).frames@,
                old(self).control,
            ),
            sound(*old(self)) ==> sound(*final(self)),
    {
        let mut resolution = Resolution::new();
        core::mem::swap(&mut self.store.env.id_steps_map, &mut resolution);
        let mut resolver = Resolver::new(resolution);
        resolver.resolve(statements);
        self.store.env.id_steps_map = resolver.resolution;
        resolver.errors
    }
}

impl<'a> Interpreter<'a> {
    /// Fails with the given error.
    fn fail(&mut self, error: RuntimeError) -> (request: Request)
        requires
            old(self).wf(),
        ensures
            final(self).wf(),
            fails(old(self).store, *final(self), request, error.message@, error.line),
    {
        self.frames.clear();
        self.store.env.set_current(0);
        self.control = Control::Halted;
        Request::Failed(error)
    }

    /// Fails with the given message at the line of `token`.
    fn fail_at(&mut self, token: &Token, message: &str) -> (request: Request)
        requires
            old(self).wf(),
        ensures
            final(self).wf(),
            fails(old(self).store, *final(self), request, message@, token.line),
    {
        self.fail(RuntimeError { message: String::from_str(message), line: token.line })
    }

    /// Fails because `name` is no property of the object.
    fn fail_no_property(&mut self, name: &Token) -> (request: Request)
        requires
            old(self).wf(),
        ensures
            final(self).wf(),
            fails(
                old(self).store,
                *final(self),
                request,
                no_property_text(name.lexeme@),
                name.line,
            ),
    {
        let mut message = String::from_str("Undefined property '");
        message.append(name.lexeme.as_str());
        message.append("'.");
        self.fail(RuntimeError { message, line: name.line })
    }

    /// Goes on with the given control.
    fn go(&mut self, control: Control<'a>) -> (request: Request)
        ensures
            goes(old(self).store, *final(self), old(self).frames@, control),
            request is Continue,
    {
        self.control = control;
        Request::Continue
    }

    /// Goes on with the given control, with one more frame waiting.
    fn push_go(&mut self, frame: Frame<'a>, control: Control<'a>) -> (request: Request)
        ensures
            goes(old(self).store, *final(self), old(self).frames@.push(frame), control),
            request is Continue,
    {
        self.frames.push(frame);
        self.control = control;
        Request::Continue
    }

    /// Reads the variable `name` for the reference `id`.
    fn read_variable(&mut self, name: &'a Token, id: usize) -> (request: Request)
        requires
            old(self).wf(),
        ensures
            final(self).wf(),
            reads_variable(
                old(self).store,
                old(self).frames@,
                *name,
                id,
                *final(self),
                request,
            ),
    {
        if self.store.env.is_readable(&name.lexeme, id) {
            match self.store.env.get(name, id) {
                Ok(value) => self.go(Control::Deliver(value)),
                Err(error) => self.fail(error),
            }
        } else {
            self.fail(undefined(name))
        }
    }

    /// `function` bound to instance `instance`: a function like it whose
    /// closure is a new scope that holds `this`.
    fn bind(&mut self, function: LoxFunction<'a>, instance: usize) -> (r: LoxFunction<'a>)
        requires
            old(self).wf(),
            function.closure < old(self).store.env@.scopes.len(),
        ensures
            final(self).wf(),
            r == old(self).store.bound(function),
            turns(
                old(self).store,
                *final(self),
                old(self).store.bound_env(function, instance),
                old(self).frames@,
                old(self).control,
            ),
    {
        let node = self.store.env.new_environment_node(Some(function.closure));
        self.store.env.bind(node, String::from_str("this"), Value::Instance(instance));
        LoxFunction {
            declaration: function.declaration,
            closure: node,
            is_initializer: function.is_initializer,
        }
    }

    /// The method that `super.method` means for the reference `id`, and the
    /// instance it is to be bound to.
    fn find_super_method(&self, method: &String, id: usize) -> (r: Option<(LoxFunction<'a>, usize)>)
        requires
            self.wf(),
        ensures
            r == self.store.super_method(method@, id),
    {
        let steps = match self.store.env.get_step_for_id(id) {
            Some(steps) => steps,
            None => {
                return None;
            },
        };
        if steps < 1 {
            return None;
        }
        let super_name = String::from_str("super");
        let this_name = String::from_str("this");
        if !self.store.env.holds_at(&super_name, steps) || !self.store.env.holds_at(
            &this_name,
            steps - 1,
        ) {
            return None;
        }
        let superclass = self.store.env.get_at(&super_name, steps);
        let object = self.store.env.get_at(&this_name, steps - 1);
        match (superclass, object) {
            (Value::Callable(LoxCallable::UserClass(class)), Value::Instance(instance)) => {
                if instance >= self.store.instances.len() {
                    return None;
                }
                match find_method(&self.store.classes, class, method) {
                    Some(f) => Some((f, instance)),
                    None => None,
                }
            },
            _ => None,
        }
    }

    /// Begins to evaluate `e`.
    fn evaluate(&mut self, e: &'a Expr) -> (request: Request)
        requires
            old(self).wf(),
        ensures
            final(self).wf(),
            evaluates(old(self).store, old(self).frames@, e, *final(self), request),
    {
        match e {
            Expr::LiteralExpr { value } => match value {
                Literal::NumberLiteral(s) => {
                    self.control = Control::Await(Ask::Numeral(s));
                    Request::Numeral(s.clone())
                },
                Literal::StringLiteral(s) => self.go(Control::Deliver(Value::Str(s.clone()))),
                Literal::BoolLiteral(b) => self.go(Control::Deliver(Value::Bool(*b))),
                Literal::NoneLiteral => self.go(Control::Deliver(Value::Nil)),
            },
            Expr::GroupingExpr { expression } => self.go(Control::Eval(expression)),
            Expr::UnaryExpr { operator, right } => self.push_go(
                Frame::UnaryOp { operator },
                Control::Eval(right),
            ),
            Expr::BinaryExpr { left, operator, right } => self.push_go(
                Frame::BinaryRight { operator, right },
                Control::Eval(left),
            ),
            Expr::LogicalExpr { left, operator, right } => self.push_go(
                Frame::LogicalRight { operator, right },
                Control::Eval(left),
            ),
            Expr::AssignExpr { name, value, id } => self.push_go(
                Frame::AssignTo { name, id: *id },
                Control::Eval(value),
            ),
            Expr::CallExpr { callee, paren, arguments } => self.push_go(
                Frame::CallCallee { paren, arguments },
                Control::Eval(callee),
            ),
            Expr::GetExpr { object, name } => self.push_go(
                Frame::GetProperty { name },
                Control::Eval(object),
            ),
            Expr::SetExpr { object, name, value } => self.push_go(
                Frame::SetObject { name, value },
                Control::Eval(object),
            ),
            Expr::VariableExpr { name, id } => self.read_variable(name, *id),
            Expr::ThisExpr { keyword, id } => self.read_variable(keyword, *id),
            Expr::SuperExpr { keyword: _, method, id } => {
                match self.find_super_method(&method.lexeme, *id) {
                    Some((function, instance)) => {
                        proof {
                            lemma_method_closed(self.store, method.lexeme@, *id);
                        }
                        let bound = self.bind(function, instance);
                        self.control = Control::Deliver(
                            Value::Callable(LoxCallable::UserFunction(bound)),
                        );
                        Request::Continue
                    },
                    None => self.fail_no_property(method),
                }
            },
        }
    }
}

impl<'a> Interpreter<'a> {
    /// The methods that the declarations `methods` make in scope `closure`.
    fn make_methods(methods: &'a Vec<Function>, closure: usize) -> (table: Table<LoxFunction<'a>>)
        ensures
            table@ == method_table(methods, methods@.len() as int, closure),
    {
        let mut table: Table<LoxFunction<'a>> = Table::new();
        let mut i: usize = 0;
        while i < methods.len()
            invariant
                i <= methods@.len(),
                table@ == method_table(methods, i as int, closure),
            decreases methods@.len() - i,
        {
            let method = &methods[i];
            let function = LoxFunction {
                declaration: method,
                closure,
                is_initializer: reads(&method.name.lexeme, "init"),
            };
            table.insert(method.name.lexeme.clone(), function);
            i += 1;
        }
        table
    }

    /// Makes the class `declaration` with the given superclass.
    fn make_class(&mut self, declaration: &'a Class, superclass: Option<usize>) -> (request: Request)
        requires
            old(self).wf(),
            superclass matches Some(c) ==> c < old(self).store.classes@.len(),
        ensures
            final(self).wf(),
            makes_class(old(self).store, old(self).frames@, declaration, superclass, *final(self)),
            request is Continue,
    {
        self.store.env.define_current(declaration.name.lexeme.clone(), Value::Nil);
        let mut closure = self.store.env.get_current();
        if let Some(c) = superclass {
            let node = self.store.env.new_environment_node(Some(closure));
            self.store.env.bind(
                node,
                String::from_str("super"),
                Value::Callable(LoxCallable::UserClass(c)),
            );
            closure = node;
        }
        let methods = Self::make_methods(&declaration.methods, closure);
        let class_id = self.store.classes.len();
        proof {
            lemma_method_table_closure(
                &declaration.methods,
                declaration.methods@.len() as int,
                closure,
            );
        }
        self.store.classes.push(LoxClass { class: declaration, superclass, methods });
        assert(self.store.classes@.drop_last() =~= old(self).store.classes@);
        assert(forall|c: int|
            0 <= c < class_id ==> self.store.classes@[c] == old(self).store.classes@[c]);
        match self.store.env.assign_cur_or_par(
            &declaration.name,
            Value::Callable(LoxCallable::UserClass(class_id)),
        ) {
            Ok(_) => {},
            Err(_) => {
                assert(false);
            },
        }
        self.control = Control::Deliver(Value::Nil);
        Request::Continue
    }

    /// The class that `value` names, if it names one.
    fn class_of(&self, value: &Value<'a>) -> (r: Option<usize>)
        ensures
            r == self.store.class_of(*value),
    {
        match value {
            Value::Callable(LoxCallable::UserClass(c)) => {
                if *c < self.store.classes.len() {
                    Some(*c)
                } else {
                    None
                }
            },
            _ => None,
        }
    }

    /// Declares the class `declaration`.
    fn declare_class(&mut self, declaration: &'a Class) -> (request: Request)
        requires
            old(self).wf(),
        ensures
            final(self).wf(),
            declares_class(old(self).store, old(self).frames@, declaration, *final(self), request),
    {
        match &declaration.superclass {
            Some(parent) => {
                if !self.store.env.is_readable(&parent.name.lexeme, parent.id) {
                    return self.fail(undefined(&parent.name));
                }
                match self.store.env.get(&parent.name, parent.id) {
                    Err(error) => self.fail(error),
                    Ok(value) => match self.class_of(&value) {
                        Some(c) => self.make_class(declaration, Some(c)),
                        None => self.fail_at(&parent.name, "Superclass must be a class."),
                    },
                }
            },
            None => self.make_class(declaration, None),
        }
    }

    /// Begins to execute `s`.
    fn execute(&mut self, s: &'a Stmt) -> (request: Request)
        requires
            old(self).wf(),
        ensures
            final(self).wf(),
            executes(old(self).store, old(self).frames@, s, *final(self), request),
    {
        match s {
            Stmt::ExpressionStmt { expression } => self.go(Control::Eval(expression)),
            Stmt::PrintStmt { expression } => self.push_go(
                Frame::PrintValue,
                Control::Eval(expression),
            ),
            Stmt::VarStmt { name, initializer } => self.push_go(
                Frame::DefineVar { name },
                Control::Eval(initializer),
            ),
            Stmt::BlockStmt { statements } => {
                let previous = self.store.env.get_current();
                let node = self.store.env.new_environment_node(Some(previous));
                self.store.env.set_current(node);
                self.frames.push(Frame::Restore { scope: previous });
                self.frames.push(Frame::Sequence { statements, next: 0 });
                self.control = Control::Deliver(Value::Nil);
                Request::Continue
            },
            Stmt::IfStmt { condition, then_branch, else_branch } => {
                let other: Option<&'a Stmt> = match else_branch {
                    Some(b) => Some(b),
                    None => None,
                };
                self.push_go(
                    Frame::Branch { then_branch, else_branch: other },
                    Control::Eval(condition),
                )
            },
            Stmt::WhileStmt { condition, body } => self.push_go(
                Frame::LoopTest { condition, body },
                Control::Eval(condition),
            ),
            Stmt::FunctionStmt { declaration } => {
                let closure = self.store.env.get_current();
                self.store.env.define_current(
                    declaration.name.lexeme.clone(),
                    Value::Callable(
                        LoxCallable::UserFunction(
                            LoxFunction { declaration, closure, is_initializer: false },
                        ),
                    ),
                );
                self.control = Control::Deliver(Value::Nil);
                Request::Continue
            },
            Stmt::ReturnStmt { keyword, value } => self.push_go(
                Frame::ReturnValue { keyword },
                Control::Eval(value),
            ),
            Stmt::ClassStmt { declaration } => self.declare_class(declaration),
        }
    }
}

impl<'a> Interpreter<'a> {
    /// What printing `value` writes.
    fn stringify(&self, value: &Value<'a>) -> (out: Output)
        requires
            self.wf(),
        ensures
            self.store.shows(*value, out),
    {
        match value {
            Value::Nil => Output::Text(String::from_str("nil")),
            Value::Bool(b) => if *b {
                Output::Text(String::from_str("true"))
            } else {
                Output::Text(String::from_str("false"))
            },
            Value::Number(n) => Output::Number(*n),
            Value::Str(s) => Output::Text(s.clone()),
            Value::Callable(c) => Output::Text(stringify(&self.store.classes, c)),
            Value::Instance(i) => {
                if *i < self.store.instances.len() {
                    let class = self.store.instances[*i].class;
                    let mut out = String::from_str("<cls ");
                    out.append(self.store.classes[class].class.name.lexeme.as_str());
                    out.append("> instance");
                    Output::Text(out)
                } else {
                    Output::Text(String::from_str("<instance>"))
                }
            },
        }
    }

    /// What a call of `function` gives when its body gave `returned`.
    fn call_result(&self, function: &LoxFunction<'a>, returned: Value<'a>) -> (r: Value<'a>)
        requires
            self.wf(),
        ensures
            r == self.store.call_result(*function, returned),
    {
        if function.is_initializer {
            if function.closure < self.store.env.nodes.len() {
                match self.store.env.nodes[function.closure].environment.get(
                    &String::from_str("this"),
                ) {
                    Some(this) => this.clone(),
                    None => Value::Nil,
                }
            } else {
                Value::Nil
            }
        } else {
            returned
        }
    }

    /// Goes back to scope `scope`, if there is such a scope.
    fn leave(&mut self, scope: usize)
        requires
            old(self).wf(),
        ensures
            final(self).wf(),
            turns(
                old(self).store,
                *final(self),
                back_to(old(self).store.env@, scope),
                old(self).frames@,
                old(self).control,
            ),
    {
        if scope < self.store.env.nodes.len() {
            self.store.env.set_current(scope);
        }
    }

    /// Ends the innermost call with the result `value`.
    fn unwind(&mut self, keyword: &'a Token, value: Value<'a>) -> (request: Request)
        requires
            old(self).wf(),
        ensures
            final(self).wf(),
            unwinds(old(self).store, old(self).frames@, keyword, value, *final(self), request),
    {
        let ghost rest = self.frames@;
        loop
            invariant
                self.wf(),
                self.store == old(self).store,
                rest == old(self).frames@,
                self.frames@.len() <= rest.len(),
                self.frames@ == rest.take(self.frames@.len() as int),
                boundary(self.frames@) == boundary(rest),
            decreases self.frames@.len(),
        {
            match self.frames.pop() {
                None => {
                    return self.fail(RuntimeError { message: String::new(), line: keyword.line });
                },
                Some(Frame::CallBoundary { scope, function }) => {
                    assert(self.frames@ =~= rest.take(boundary(rest)));
                    let result = self.call_result(&function, value);
                    self.leave(scope);
                    self.control = Control::Deliver(result);
                    return Request::Continue;
                },
                Some(_) => {
                    assert(self.frames@ =~= rest.take(self.frames@.len() as int));
                },
            }
        }
    }

    /// Enters the body of `function` with the arguments `args`.
    fn call_function(&mut self, function: LoxFunction<'a>, args: Vec<Value<'a>>)
        requires
            old(self).wf(),
            function.closure < old(self).store.env@.scopes.len(),
            args@.len() == function.declaration.params@.len(),
        ensures
            final(self).wf(),
            enters(old(self).store.env@, old(self).frames@, function, args@, *final(self)),
            final(self).store.classes == old(self).store.classes,
            final(self).store.instances == old(self).store.instances,
    {
        let caller = self.store.env.get_current();
        let node = self.store.env.new_environment_node(Some(function.closure));
        let ghost fresh = self.store.env@;
        let params = &function.declaration.params;
        let mut i: usize = 0;
        while i < params.len()
            invariant
                self.wf(),
                i <= params@.len(),
                params@.len() == args@.len(),
                node < self.store.env@.scopes.len(),
                self.store.classes == old(self).store.classes,
                self.store.instances == old(self).store.instances,
                self.frames == old(self).frames,
                self.store.env@ == bind_params(fresh, node as int, params@, args@, i as int),
            decreases params@.len() - i,
        {
            self.store.env.bind(node, params[i].lexeme.clone(), args[i].clone());
            i += 1;
        }
        self.store.env.set_current(node);
        self.frames.push(Frame::CallBoundary { scope: caller, function });
        self.frames.push(Frame::Sequence { statements: &function.declaration.body, next: 0 });
        self.control = Control::Deliver(Value::Nil);
    }

    /// Makes an instance of class `class` and runs its initializer.
    fn instantiate(&mut self, class: usize, args: Vec<Value<'a>>)
        requires
            old(self).wf(),
            class < old(self).store.classes@.len(),
            args@.len() == arity_of(old(self).store.classes@, LoxCallable::UserClass(class)),
        ensures
            final(self).wf(),
            instantiates(old(self).store, old(self).frames@, class, args@, *final(self)),
    {
        let instance = self.store.instances.len();
        self.store.instances.push(LoxInstance::new(class));
        assert(self.store.instances@.drop_last() =~= old(self).store.instances@);
        let initializer = find_method(&self.store.classes, class, &String::from_str("init"));
        match initializer {
            Some(init) => {
                proof {
                    lemma_found_method_closed(self.store, class as int, "init"@);
                }
                let bound = self.bind(init, instance);
                self.call_function(bound, args);
            },
            None => {
                self.control = Control::Deliver(Value::Instance(instance));
            },
        }
    }

    /// The callable in `callee`, if it is one that the store knows.
    fn callable_of(&self, callee: &Value<'a>) -> (r: Option<LoxCallable<'a>>)
        requires
            self.wf(),
        ensures
            r == self.store.callable_of(*callee),
    {
        match callee {
            Value::Callable(c) => match c {
                LoxCallable::Clock => Some(*c),
                LoxCallable::UserFunction(f) => if f.closure < self.store.env.nodes.len() {
                    Some(*c)
                } else {
                    None
                },
                LoxCallable::UserClass(k) => if *k < self.store.classes.len() {
                    Some(*c)
                } else {
                    None
                },
            },
            _ => None,
        }
    }

    /// Calls `callee` with `args`.
    fn invoke(&mut self, callee: Value<'a>, args: Vec<Value<'a>>, paren: &'a Token) -> (request:
        Request)
        requires
            old(self).wf(),
        ensures
            final(self).wf(),
            invokes(old(self).store, old(self).frames@, callee, args@, paren, *final(self), request),
    {
        let callable = match self.callable_of(&callee) {
            Some(c) => c,
            None => {
                return self.fail_at(paren, "Can only call functions and classes.");
            },
        };
        let expected = arity(&self.store.classes, &callable);
        if args.len() != expected {
            let message = arity_message(expected, args.len());
            return self.fail(RuntimeError { message, line: paren.line });
        }
        match callable {
            LoxCallable::Clock => {
                self.control = Control::Await(Ask::Clock);
                Request::Clock
            },
            LoxCallable::UserFunction(function) => {
                self.call_function(function, args);
                Request::Continue
            },
            LoxCallable::UserClass(class) => {
                self.instantiate(class, args);
                Request::Continue
            },
        }
    }

    /// Waits for the host to do arithmetic.
    fn compute(&mut self, operation: Operation, left: u64, right: u64) -> (request: Request)
        ensures
            awaits(
                old(self).store,
                old(self).frames@,
                Ask::Arithmetic { operation, left, right },
                *final(self),
                request,
            ),
    {
        self.control = Control::Await(Ask::Arithmetic { operation, left, right });
        Request::Arithmetic { operation, left, right }
    }

    /// Applies a binary operator.
    fn apply(&mut self, operator: &'a Token, left: Value<'a>, right: Value<'a>) -> (request: Request)
        requires
            old(self).wf(),
        ensures
            final(self).wf(),
            applies(old(self).store, old(self).frames@, operator, left, right, *final(self), request),
    {
        match operator.token_type {
            TokenType::BangEqual => {
                return self.go(Control::Deliver(Value::wrap_bool(!left.is_equal(&right))));
            },
            TokenType::EqualEqual => {
                return self.go(Control::Deliver(Value::wrap_bool(left.is_equal(&right))));
            },
            _ => {},
        }
        if operator.token_type == TokenType::Plus {
            if left.is_string() && right.is_string() {
                let mut concat_string = String::from_str(left.unwrap_str_literal());
                concat_string.append(right.unwrap_str_literal());
                return self.go(Control::Deliver(Value::wrap_string_literal(concat_string)));
            } else if !right.is_float() || !left.is_float() {
                return self.fail_at(operator, "Operands must be two numbers or two strings.");
            }
        }
        match (left, right) {
            (Value::Number(a), Value::Number(b)) => match operator.token_type {
                TokenType::Plus => self.compute(Operation::Add, a, b),
                TokenType::Minus => self.compute(Operation::Subtract, a, b),
                TokenType::Slash => self.compute(Operation::Divide, a, b),
                TokenType::Star => self.compute(Operation::Multiply, a, b),
                TokenType::Greater => self.go(
                    Control::Deliver(Value::wrap_bool(number::number_less(b, a))),
                ),
                TokenType::GreaterEqual => self.go(
                    Control::Deliver(Value::wrap_bool(number::number_at_most(b, a))),
                ),
                TokenType::Less => self.go(Control::Deliver(Value::wrap_bool(number::number_less(a, b)))),
                TokenType::LessEqual => self.go(
                    Control::Deliver(Value::wrap_bool(number::number_at_most(a, b))),
                ),
                _ => self.fail_at(operator, "Operands must be numbers."),
            },
            _ => self.fail_at(operator, "Operands must be numbers."),
        }
    }

    /// The instance that `value` names, if it names one.
    fn instance_of(&self, value: &Value<'a>) -> (r: Option<usize>)
        ensures
            r == self.store.instance_of(*value),
    {
        match value {
            Value::Instance(i) => if *i < self.store.instances.len() {
                Some(*i)
            } else {
                None
            },
            _ => None,
        }
    }

    /// Reads the property `name` of `object`.
    fn get_property(&mut self, name: &'a Token, object: Value<'a>) -> (request: Request)
        requires
            old(self).wf(),
        ensures
            final(self).wf(),
            gets(old(self).store, old(self).frames@, name, object, *final(self), request),
    {
        let instance = match self.instance_of(&object) {
            Some(i) => i,
            None => {
                return self.fail_at(name, "Only instances have properties.");
            },
        };
        if let Some(field) = self.store.instances[instance].get(&name.lexeme) {
            return self.go(Control::Deliver(field));
        }
        let class = self.store.instances[instance].class;
        match find_method(&self.store.classes, class, &name.lexeme) {
            Some(method) => {
                proof {
                    lemma_found_method_closed(self.store, class as int, name.lexeme@);
                }
                let bound = self.bind(method, instance);
                self.control = Control::Deliver(Value::Callable(LoxCallable::UserFunction(bound)));
                Request::Continue
            },
            None => self.fail_no_property(name),
        }
    }

    /// Sets the field `name` of instance `instance`.
    fn set_field(&mut self, name: &'a Token, instance: usize, value: Value<'a>)
        requires
            old(self).wf(),
        ensures
            final(self).wf(),
            sets(old(self).store, old(self).frames@, name, instance, value, *final(self)),
    {
        if instance < self.store.instances.len() {
            self.store.instances[instance].set(name.lexeme.clone(), value.clone());
        }
        self.control = Control::Deliver(value);
    }

    /// Hands `value` to `frame`.
    #[verifier::rlimit(60)]
    fn resume(&mut self, frame: Frame<'a>, value: Value<'a>) -> (request: Request)
        requires
            old(self).wf(),
        ensures
            final(self).wf(),
            resumes(old(self).store, old(self).frames@, frame, value, *final(self), request),
    {
        match frame {
            Frame::Sequence { statements, next } => {
                if next < statements.len() {
                    self.push_go(
                        Frame::Sequence { statements, next: next + 1 },
                        Control::Exec(&statements[next]),
                    )
                } else {
                    self.go(Control::Deliver(Value::Nil))
                }
            },
            Frame::Restore { scope } => {
                self.leave(scope);
                self.control = Control::Deliver(value);
                Request::Continue
            },
            Frame::CallBoundary { scope, function } => {
                let result = self.call_result(&function, Value::Nil);
                self.leave(scope);
                self.control = Control::Deliver(result);
                Request::Continue
            },
            Frame::UnaryOp { operator } => match operator.token_type {
                TokenType::Bang => self.go(Control::Deliver(value.negate_and_wrap())),
                TokenType::Minus => {
                    if !value.is_float() {
                        self.fail_at(operator, "Operand must be a number.")
                    } else {
                        self.go(
                            Control::Deliver(Value::wrap_float(number::negate(value.unwrap_float()))),
                        )
                    }
                },
                _ => self.fail_at(operator, "Operand must be a number."),
            },
            Frame::BinaryRight { operator, right } => self.push_go(
                Frame::BinaryApply { operator, left: value },
                Control::Eval(right),
            ),
            Frame::BinaryApply { operator, left } => self.apply(operator, left, value),
            Frame::LogicalRight { operator, right } => {
                let left = value;
                if operator.token_type == TokenType::Or {
                    if left.is_truthy() {
                        return self.go(Control::Deliver(left));
                    }
                } else {
                    if !left.is_truthy() {
                        return self.go(Control::Deliver(left));
                    }
                }
                self.go(Control::Eval(right))
            },
            Frame::AssignTo { name, id } => {
                if !self.store.env.is_assignable(id) {
                    return self.fail(undefined(name));
                }
                match self.store.env.assign(name, value.clone(), id) {
                    Ok(_) => {
                        self.control = Control::Deliver(value);
                        Request::Continue
                    },
                    Err(error) => self.fail(error),
                }
            },
            Frame::CallCallee { paren, arguments } => {
                if arguments.len() == 0 {
                    self.invoke(value, Vec::new(), paren)
                } else {
                    self.push_go(
                        Frame::CallArgument {
                            paren,
                            callee: value,
                            arguments,
                            done: Arguments::Empty,
                            next: 0,
                        },
                        Control::Eval(&arguments[0]),
                    )
                }
            },
            Frame::CallArgument { paren, callee, arguments, done, next } => {
                let all = Arguments::More { value, rest: Box::new(done) };
                if next < arguments.len() && next + 1 < arguments.len() {
                    self.push_go(
                        Frame::CallArgument { paren, callee, arguments, done: all, next: next + 1 },
                        Control::Eval(&arguments[next + 1]),
                    )
                } else {
                    self.invoke(callee, all.into_vec(), paren)
                }
            },
            Frame::GetProperty { name } => self.get_property(name, value),
            Frame::SetObject { name, value: e } => match self.instance_of(&value) {
                Some(instance) => self.push_go(
                    Frame::SetValue { name, instance },
                    Control::Eval(e),
                ),
                None => self.fail_at(name, "Only instances have fields."),
            },
            Frame::SetValue { name, instance } => {
                self.set_field(name, instance, value);
                Request::Continue
            },
            Frame::PrintValue => {
                let out = self.stringify(&value);
                self.control = Control::Deliver(Value::Nil);
                Request::Print(out)
            },
            Frame::DefineVar { name } => {
                self.store.env.define_current(name.lexeme.clone(), value);
                self.control = Control::Deliver(Value::Nil);
                Request::Continue
            },
            Frame::Branch { then_branch, else_branch } => {
                if value.is_truthy() {
                    self.go(Control::Exec(then_branch))
                } else if let Some(else_stmt) = else_branch {
                    self.go(Control::Exec(else_stmt))
                } else {
                    self.go(Control::Deliver(Value::Nil))
                }
            },
            Frame::LoopTest { condition, body } => {
                if value.is_truthy() {
                    self.push_go(Frame::LoopBody { condition, body }, Control::Exec(body))
                } else {
                    self.go(Control::Deliver(Value::Nil))
                }
            },
            Frame::LoopBody { condition, body } => self.push_go(
                Frame::LoopTest { condition, body },
                Control::Eval(condition),
            ),
            Frame::ReturnValue { keyword } => self.unwind(keyword, value),
        }
    }
}

} // verus!
