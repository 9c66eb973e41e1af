//! No step of the machine makes a reference to a scope, a class or an
//! instance that the machine does not keep.
use crate::environment_tree::{lemma_ancestor_agrees, TreeView};
use crate::expr::Expr;
use crate::lox_callable::{arity_of, method_of};
use crate::lox_instance::LoxInstance;
use crate::machine::{Arguments, Control, Frame, Interpreter, Request, Store};
use crate::semantics::{
    applies, back_to, bind_params, boundary, called_env, declares_class, enters, evaluates,
    executes, fails, gets, goes, instantiates, invokes, lemma_found_method_closed, makes_class,
    resumes, result_of, sets, steps, super_class, super_receiver, super_target, this_in, turns,
    unwinds,
};
use crate::stmt::{Class, Stmt};
use crate::token::Token;
use crate::value::{LoxCallable, LoxFunction, Value};
use vstd::prelude::*;

verus! {

/// How many scopes, classes and instances a store keeps.
pub struct Sizes {
    pub scopes: nat,
    pub classes: nat,
    pub instances: nat,
}

impl Sizes {
    /// `other` keeps at least as much.
    pub open spec fn within(self, other: Sizes) -> bool {
        self.scopes <= other.scopes && self.classes <= other.classes && self.instances
            <= other.instances
    }
}

/// The sizes of a store.
pub open spec fn sizes<'a>(store: Store<'a>) -> Sizes {
    Sizes {
        scopes: store.env@.scopes.len(),
        classes: store.classes@.len(),
        instances: store.instances@.len(),
    }
}

/// What the value refers to is there: the instance, the class, or the scope
/// that a function closes over.
pub open spec fn valid<'a>(value: Value<'a>, z: Sizes) -> bool {
    match value {
        Value::Instance(i) => i < z.instances,
        Value::Callable(LoxCallable::UserClass(c)) => c < z.classes,
        Value::Callable(LoxCallable::UserFunction(f)) => f.closure < z.scopes,
        _ => true,
    }
}

/// All the values of the arguments are valid.
pub open spec fn all_valid<'a>(arguments: Arguments<'a>, z: Sizes) -> bool
    decreases arguments,
{
    match arguments {
        Arguments::Empty => true,
        Arguments::More { value, rest } => valid(value, z) && all_valid(*rest, z),
    }
}

/// What the frame refers to is there.
pub open spec fn frame_valid<'a>(frame: Frame<'a>, z: Sizes) -> bool {
    match frame {
        Frame::Restore { scope } => scope < z.scopes,
        Frame::CallBoundary { scope, function } => scope < z.scopes && function.closure < z.scopes,
        Frame::BinaryApply { operator, left } => valid(left, z),
        Frame::CallArgument { paren, callee, arguments, done, next } => valid(callee, z)
            && all_valid(done, z),
        Frame::SetValue { name, instance } => instance < z.instances,
        _ => true,
    }
}

/// What the control refers to is there.
pub open spec fn control_valid<'a>(control: Control<'a>, z: Sizes) -> bool {
    match control {
        Control::Deliver(value) => valid(value, z),
        _ => true,
    }
}

/// Every value that a scope binds is valid.
pub open spec fn scopes_sound<'a>(env: TreeView<'a>, z: Sizes) -> bool {
    forall|n: int, name: Seq<char>|
        0 <= n < env.scopes.len() && #[trigger] env.scopes[n].bindings.contains_key(name) ==> valid(
            env.scopes[n].bindings[name],
            z,
        )
}

/// Every value that a field of an instance holds is valid.
pub open spec fn fields_sound<'a>(instances: Seq<LoxInstance<'a>>, z: Sizes) -> bool {
    forall|i: int, name: Seq<char>|
        0 <= i < instances.len() && #[trigger] instances[i].fields@.contains_key(name) ==> valid(
            instances[i].fields@[name],
            z,
        )
}

/// Every value that a scope or a field holds is valid.
pub open spec fn store_sound<'a>(store: Store<'a>) -> bool {
    &&& scopes_sound(store.env@, sizes(store))
    &&& fields_sound(store.instances@, sizes(store))
}

/// What the frames refer to is there.
pub open spec fn frames_sound<'a>(frames: Seq<Frame<'a>>, z: Sizes) -> bool {
    forall|j: int| 0 <= j < frames.len() ==> frame_valid(#[trigger] frames[j], z)
}

/// Nothing in the machine refers to a scope, a class or an instance that the
/// machine does not keep.
pub open spec fn sound<'a>(machine: Interpreter<'a>) -> bool {
    &&& store_sound(machine.store)
    &&& frames_sound(machine.frames@, sizes(machine.store))
    &&& control_valid(machine.control, sizes(machine.store))
}

/// What is valid stays valid when the store grows.
pub proof fn lemma_valid_grows<'a>(value: Value<'a>, z: Sizes, larger: Sizes)
    requires
        valid(value, z),
        z.within(larger),
    ensures
        valid(value, larger),
{
}

pub proof fn lemma_all_valid_grows<'a>(arguments: Arguments<'a>, z: Sizes, larger: Sizes)
    requires
        all_valid(arguments, z),
        z.within(larger),
    ensures
        all_valid(arguments, larger),
    decreases arguments,
{
    match arguments {
        Arguments::Empty => {},
        Arguments::More { value, rest } => {
            lemma_all_valid_grows(*rest, z, larger);
        },
    }
}

pub proof fn lemma_frame_valid_grows<'a>(frame: Frame<'a>, z: Sizes, larger: Sizes)
    requires
        frame_valid(frame, z),
        z.within(larger),
    ensures
        frame_valid(frame, larger),
{
    match frame {
        Frame::CallArgument { paren, callee, arguments, done, next } => {
            lemma_all_valid_grows(done, z, larger);
        },
        _ => {},
    }
}

/// The values of valid arguments are valid, each of them.
pub proof fn lemma_in_order_valid<'a>(arguments: Arguments<'a>, z: Sizes)
    requires
        all_valid(arguments, z),
    ensures
        forall|i: int|
            0 <= i < arguments.in_order().len() ==> valid(#[trigger] arguments.in_order()[i], z),
    decreases arguments,
{
    match arguments {
        Arguments::Empty => {
            assert(arguments.in_order() =~= Seq::<Value<'a>>::empty());
        },
        Arguments::More { value, rest } => {
            lemma_in_order_valid(*rest, z);
            assert(arguments.in_order() =~= rest.in_order().push(value));
        },
    }
}

pub proof fn lemma_frames_grow<'a>(frames: Seq<Frame<'a>>, z: Sizes, larger: Sizes)
    requires
        frames_sound(frames, z),
        z.within(larger),
    ensures
        frames_sound(frames, larger),
{
    assert forall|j: int| 0 <= j < frames.len() implies frame_valid(#[trigger] frames[j], larger) by {
        lemma_frame_valid_grows(frames[j], z, larger);
    }
}

pub proof fn lemma_scopes_grow<'a>(env: TreeView<'a>, z: Sizes, larger: Sizes)
    requires
        scopes_sound(env, z),
        z.within(larger),
    ensures
        scopes_sound(env, larger),
{
    assert forall|n: int, name: Seq<char>|
        0 <= n < env.scopes.len() && #[trigger] env.scopes[n].bindings.contains_key(
            name,
        ) implies valid(env.scopes[n].bindings[name], larger) by {
        lemma_valid_grows(env.scopes[n].bindings[name], z, larger);
    }
}

/// Binding a valid value keeps the scopes sound.
pub proof fn lemma_bind_sound<'a>(
    env: TreeView<'a>,
    z: Sizes,
    n: int,
    name: Seq<char>,
    value: Value<'a>,
)
    requires
        scopes_sound(env, z),
        valid(value, z),
        0 <= n < env.scopes.len(),
    ensures
        scopes_sound(env.bind(n, name, value), z),
        env.bind(n, name, value).scopes.len() == env.scopes.len(),
{
    let after = env.bind(n, name, value);
    assert forall|m: int, key: Seq<char>|
        0 <= m < after.scopes.len() && #[trigger] after.scopes[m].bindings.contains_key(
            key,
        ) implies valid(after.scopes[m].bindings[key], z) by {
        if m == n && key == name {
        } else {
            assert(env.scopes[m].bindings.contains_key(key));
        }
    }
}

/// A new, empty scope keeps the scopes sound.
pub proof fn lemma_child_sound<'a>(env: TreeView<'a>, z: Sizes, parent: Option<usize>)
    requires
        scopes_sound(env, z),
    ensures
        scopes_sound(env.new_child(parent), z),
{
    let after = env.new_child(parent);
    assert forall|m: int, key: Seq<char>|
        0 <= m < after.scopes.len() && #[trigger] after.scopes[m].bindings.contains_key(
            key,
        ) implies valid(after.scopes[m].bindings[key], z) by {
        if m < env.scopes.len() {
            assert(env.scopes[m].bindings.contains_key(key));
        }
    }
}

/// Binding parameters to valid arguments keeps the scopes sound.
pub proof fn lemma_bind_params_sound<'a>(
    env: TreeView<'a>,
    z: Sizes,
    n: int,
    params: Seq<Token>,
    args: Seq<Value<'a>>,
    k: int,
)
    requires
        scopes_sound(env, z),
        forall|i: int| 0 <= i < args.len() ==> valid(#[trigger] args[i], z),
        0 <= n < env.scopes.len(),
    ensures
        scopes_sound(bind_params(env, n, params, args, k), z),
        bind_params(env, n, params, args, k).scopes.len() == env.scopes.len(),
        bind_params(env, n, params, args, k).current == env.current,
    decreases k,
{
    if !(k <= 0 || k > params.len() || k > args.len()) {
        lemma_bind_params_sound(env, z, n, params, args, k - 1);
        lemma_bind_sound(
            bind_params(env, n, params, args, k - 1),
            z,
            n,
            params[k - 1].lexeme@,
            args[k - 1],
        );
    }
}

/// What a scope of a sound store binds is valid.
pub proof fn lemma_binding_valid<'a>(env: TreeView<'a>, z: Sizes, name: Seq<char>, steps: nat)
    requires
        env.wf(),
        scopes_sound(env, z),
        env.binding_at(name, steps) is Some,
    ensures
        valid(env.binding_at(name, steps).unwrap(), z),
{
    lemma_ancestor_agrees(env, env, env.current as int, steps);
    let n = env.ancestor(env.current as int, steps).unwrap();
    assert(env.scopes[n].bindings.contains_key(name));
}

/// What a reference reads in a sound store is valid.
pub proof fn lemma_read_valid<'a>(env: TreeView<'a>, z: Sizes, name: Seq<char>, id: usize)
    requires
        env.wf(),
        scopes_sound(env, z),
        env.read(name, id) is Some,
    ensures
        valid(env.read(name, id).unwrap(), z),
{
    if env.depths.contains_key(id) {
        lemma_binding_valid(env, z, name, env.depths[id] as nat);
    } else {
        assert(env.scopes[0].bindings.contains_key(name));
    }
}

/// Assigning a valid value keeps the scopes sound.
pub proof fn lemma_assign_sound<'a>(
    env: TreeView<'a>,
    z: Sizes,
    name: Seq<char>,
    value: Value<'a>,
    id: usize,
)
    requires
        env.wf(),
        scopes_sound(env, z),
        valid(value, z),
        env.assign(name, value, id) is Some,
    ensures
        scopes_sound(env.assign(name, value, id).unwrap(), z),
        env.assign(name, value, id).unwrap().scopes.len() == env.scopes.len(),
{
    if env.depths.contains_key(id) {
        let n = env.ancestor(env.current as int, env.depths[id] as nat).unwrap();
        lemma_ancestor_agrees(env, env, env.current as int, env.depths[id] as nat);
        lemma_bind_sound(env, z, n, name, value);
    } else {
        lemma_bind_sound(env, z, 0, name, value);
    }
}

pub proof fn lemma_fields_grow<'a>(instances: Seq<LoxInstance<'a>>, z: Sizes, larger: Sizes)
    requires
        fields_sound(instances, z),
        z.within(larger),
    ensures
        fields_sound(instances, larger),
{
    assert forall|i: int, name: Seq<char>|
        0 <= i < instances.len() && #[trigger] instances[i].fields@.contains_key(
            name,
        ) implies valid(instances[i].fields@[name], larger) by {
        lemma_valid_grows(instances[i].fields@[name], z, larger);
    }
}

/// The machine goes on with other scopes, which are sound, and with sound
/// frames and control.
proof fn lemma_turns_sound<'a>(
    store: Store<'a>,
    after: Interpreter<'a>,
    env: TreeView<'a>,
    frames: Seq<Frame<'a>>,
    control: Control<'a>,
)
    requires
        store_sound(store),
        turns(store, after, env, frames, control),
        store.env@.scopes.len() <= env.scopes.len(),
        scopes_sound(env, sizes(after.store)),
        frames_sound(frames, sizes(after.store)),
        control_valid(control, sizes(after.store)),
    ensures
        sound(after),
{
    lemma_fields_grow(store.instances@, sizes(store), sizes(after.store));
}

/// A machine that has failed is sound.
proof fn lemma_fails_sound<'a>(
    store: Store<'a>,
    after: Interpreter<'a>,
    request: Request,
    message: Seq<char>,
    line: usize,
)
    requires
        store_sound(store),
        fails(store, after, request, message, line),
    ensures
        sound(after),
{
    assert(scopes_sound(after.store.env@, sizes(after.store))) by {
        assert forall|n: int, name: Seq<char>|
            0 <= n < after.store.env@.scopes.len()
                && #[trigger] after.store.env@.scopes[n].bindings.contains_key(
                name,
            ) implies valid(after.store.env@.scopes[n].bindings[name], sizes(after.store)) by {
            assert(store.env@.scopes[n].bindings.contains_key(name));
        }
    }
}

/// The scopes after `function` has been bound to a valid instance are sound
/// for a store that has one more scope.
proof fn lemma_bound_sound<'a>(store: Store<'a>, function: LoxFunction<'a>, instance: usize, z: Sizes)
    requires
        store_sound(store),
        sizes(store).within(z),
        z.scopes >= store.env@.scopes.len() + 1,
        instance < z.instances,
    ensures
        scopes_sound(store.bound_env(function, instance), z),
        store.bound_env(function, instance).scopes.len() == store.env@.scopes.len() + 1,
        store.bound_env(function, instance).current == store.env@.current,
{
    lemma_scopes_grow(store.env@, sizes(store), z);
    lemma_child_sound(store.env@, z, Some(function.closure));
    lemma_bind_sound(
        store.env@.new_child(Some(function.closure)),
        z,
        store.env@.scopes.len() as int,
        "this"@,
        Value::Instance(instance),
    );
}

proof fn lemma_evaluate_sound<'a>(
    store: Store<'a>,
    rest: Seq<Frame<'a>>,
    e: &'a Expr,
    after: Interpreter<'a>,
    request: Request,
)
    requires
        store.wf(),
        store_sound(store),
        frames_sound(rest, sizes(store)),
        after.store.env@.scopes.len() <= usize::MAX,
        evaluates(store, rest, e, after, request),
    ensures
        sound(after),
{
    let z = sizes(store);
    match *e {
        Expr::VariableExpr { name, id } => {
            lemma_reads_sound(store, rest, name, id, after, request);
        },
        Expr::ThisExpr { keyword, id } => {
            lemma_reads_sound(store, rest, keyword, id, after, request);
        },
        Expr::SuperExpr { keyword, method, id } => {
            match store.super_method(method.lexeme@, id) {
                Some((f, i)) => {
                    let larger = sizes(after.store);
                    lemma_bound_sound(store, f, i, larger);
                    lemma_frames_grow(rest, z, larger);
                    lemma_turns_sound(
                        store,
                        after,
                        store.bound_env(f, i),
                        rest,
                        Control::Deliver(Value::Callable(LoxCallable::UserFunction(store.bound(f)))),
                    );
                },
                None => {
                    lemma_fails_sound(
                        store,
                        after,
                        request,
                        crate::semantics::no_property_text(method.lexeme@),
                        method.line,
                    );
                },
            }
        },
        _ => {},
    }
}

proof fn lemma_reads_sound<'a>(
    store: Store<'a>,
    rest: Seq<Frame<'a>>,
    name: Token,
    id: usize,
    after: Interpreter<'a>,
    request: Request,
)
    requires
        store.wf(),
        store_sound(store),
        frames_sound(rest, sizes(store)),
        crate::semantics::reads_variable(store, rest, name, id, after, request),
    ensures
        sound(after),
{
    match store.env@.read(name.lexeme@, id) {
        Some(v) => {
            lemma_read_valid(store.env@, sizes(store), name.lexeme@, id);
        },
        None => {
            lemma_fails_sound(
                store,
                after,
                request,
                crate::semantics::undefined_text(name.lexeme@),
                name.line,
            );
        },
    }
}

/// The scopes in which a call with valid arguments runs are sound.
proof fn lemma_called_env_sound<'a>(
    env: TreeView<'a>,
    function: LoxFunction<'a>,
    args: Seq<Value<'a>>,
    z: Sizes,
)
    requires
        scopes_sound(env, z),
        forall|i: int| 0 <= i < args.len() ==> valid(#[trigger] args[i], z),
    ensures
        scopes_sound(called_env(env, function, args), z),
        called_env(env, function, args).scopes.len() == env.scopes.len() + 1,
{
    lemma_child_sound(env, z, Some(function.closure));
    lemma_bind_params_sound(
        env.new_child(Some(function.closure)),
        z,
        env.scopes.len() as int,
        function.declaration.params@,
        args,
        function.declaration.params@.len() as int,
    );
}

proof fn lemma_args_grow<'a>(args: Seq<Value<'a>>, z: Sizes, larger: Sizes)
    requires
        forall|i: int| 0 <= i < args.len() ==> valid(#[trigger] args[i], z),
        z.within(larger),
    ensures
        forall|i: int| 0 <= i < args.len() ==> valid(#[trigger] args[i], larger),
{
    assert forall|i: int| 0 <= i < args.len() implies valid(#[trigger] args[i], larger) by {
        lemma_valid_grows(args[i], z, larger);
    }
}

/// What `this` is in a scope of a sound store is valid.
proof fn lemma_result_valid<'a>(
    store: Store<'a>,
    function: LoxFunction<'a>,
    returned: Value<'a>,
)
    requires
        store_sound(store),
        valid(returned, sizes(store)),
    ensures
        valid(store.call_result(function, returned), sizes(store)),
{
    if function.is_initializer && function.closure < store.env@.scopes.len()
        && store.env@.scopes[function.closure as int].bindings.contains_key("this"@) {
        assert(valid(store.env@.scopes[function.closure as int].bindings["this"@], sizes(store)));
    }
}

proof fn lemma_execute_sound<'a>(
    store: Store<'a>,
    rest: Seq<Frame<'a>>,
    s: &'a Stmt,
    after: Interpreter<'a>,
    request: Request,
)
    requires
        store.wf(),
        store_sound(store),
        frames_sound(rest, sizes(store)),
        after.store.env@.scopes.len() <= usize::MAX,
        after.store.classes@.len() <= usize::MAX,
        executes(store, rest, s, after, request),
    ensures
        sound(after),
{
    let z = sizes(store);
    let larger = sizes(after.store);
    match *s {
        Stmt::BlockStmt { statements } => {
            lemma_scopes_grow(store.env@, z, larger);
            lemma_child_sound(store.env@, larger, Some(store.env@.current));
            lemma_frames_grow(rest, z, larger);
            lemma_fields_grow(store.instances@, z, larger);
        },
        Stmt::FunctionStmt { declaration } => {
            lemma_bind_sound(
                store.env@,
                z,
                store.env@.current as int,
                declaration.name.lexeme@,
                crate::semantics::function_value(&declaration, store.env@.current),
            );
        },
        Stmt::ClassStmt { declaration } => {
            lemma_class_sound(store, rest, &declaration, after, request);
        },
        _ => {},
    }
}

proof fn lemma_class_sound<'a>(
    store: Store<'a>,
    rest: Seq<Frame<'a>>,
    declaration: &'a Class,
    after: Interpreter<'a>,
    request: Request,
)
    requires
        store.wf(),
        store_sound(store),
        frames_sound(rest, sizes(store)),
        after.store.env@.scopes.len() <= usize::MAX,
        after.store.classes@.len() <= usize::MAX,
        declares_class(store, rest, declaration, after, request),
    ensures
        sound(after),
{
    match declaration.superclass {
        Some(parent) => {
            match store.env@.read(parent.name.lexeme@, parent.id) {
                None => {
                    lemma_fails_sound(
                        store,
                        after,
                        request,
                        crate::semantics::undefined_text(parent.name.lexeme@),
                        parent.name.line,
                    );
                },
                Some(v) => {
                    match store.class_of(v) {
                        Some(c) => {
                            lemma_made_class_sound(store, rest, declaration, Some(c), after);
                        },
                        None => {
                            lemma_fails_sound(
                                store,
                                after,
                                request,
                                "Superclass must be a class."@,
                                parent.name.line,
                            );
                        },
                    }
                },
            }
        },
        None => {
            lemma_made_class_sound(store, rest, declaration, None, after);
        },
    }
}

proof fn lemma_made_class_sound<'a>(
    store: Store<'a>,
    rest: Seq<Frame<'a>>,
    declaration: &'a Class,
    superclass: Option<usize>,
    after: Interpreter<'a>,
)
    requires
        store.wf(),
        store_sound(store),
        frames_sound(rest, sizes(store)),
        after.store.env@.scopes.len() <= usize::MAX,
        after.store.classes@.len() <= usize::MAX,
        superclass matches Some(c) ==> c < store.classes@.len(),
        makes_class(store, rest, declaration, superclass, after),
    ensures
        sound(after),
{
    let z = sizes(store);
    let larger = sizes(after.store);
    let env = store.env@;
    let name = declaration.name.lexeme@;
    lemma_scopes_grow(env, z, larger);
    lemma_bind_sound(env, larger, env.current as int, name, Value::Nil);
    let named = env.define_current(name, Value::Nil);
    let derived = match superclass {
        Some(c) => {
            lemma_child_sound(named, larger, Some(named.current));
            lemma_bind_sound(
                named.new_child(Some(named.current)),
                larger,
                named.scopes.len() as int,
                "super"@,
                Value::Callable(LoxCallable::UserClass(c)),
            );
            named.new_child(Some(named.current)).bind(
                named.scopes.len() as int,
                "super"@,
                Value::Callable(LoxCallable::UserClass(c)),
            )
        },
        None => named,
    };
    lemma_bind_sound(
        derived,
        larger,
        derived.current as int,
        name,
        Value::Callable(LoxCallable::UserClass(store.classes@.len() as usize)),
    );
    lemma_frames_grow(rest, z, larger);
    lemma_fields_grow(store.instances@, z, larger);
}

/// Entering the body of a function whose closure is there, with valid
/// arguments, leaves a sound machine.
proof fn lemma_enters_sound<'a>(
    env: TreeView<'a>,
    rest: Seq<Frame<'a>>,
    function: LoxFunction<'a>,
    args: Seq<Value<'a>>,
    z: Sizes,
    after: Interpreter<'a>,
)
    requires
        scopes_sound(env, z),
        frames_sound(rest, z),
        fields_sound(after.store.instances@, z),
        forall|i: int| 0 <= i < args.len() ==> valid(#[trigger] args[i], z),
        env.current < env.scopes.len(),
        function.closure < env.scopes.len(),
        after.store.env@.scopes.len() <= usize::MAX,
        enters(env, rest, function, args, after),
        z.scopes <= env.scopes.len() + 1,
        z.classes <= after.store.classes@.len(),
        z.instances <= after.store.instances@.len(),
    ensures
        sound(after),
{
    lemma_called_env_sound(env, function, args, z);
    let larger = sizes(after.store);
    lemma_scopes_grow(env, z, larger);
    lemma_args_grow(args, z, larger);
    lemma_called_env_sound(env, function, args, larger);
    lemma_frames_grow(rest, z, larger);
    lemma_fields_grow(after.store.instances@, z, larger);
}

proof fn lemma_invoke_sound<'a>(
    store: Store<'a>,
    rest: Seq<Frame<'a>>,
    callee: Value<'a>,
    args: Seq<Value<'a>>,
    paren: &'a Token,
    after: Interpreter<'a>,
    request: Request,
)
    requires
        store.wf(),
        store_sound(store),
        frames_sound(rest, sizes(store)),
        forall|i: int| 0 <= i < args.len() ==> valid(#[trigger] args[i], sizes(store)),
        after.store.env@.scopes.len() <= usize::MAX,
        after.store.instances@.len() <= usize::MAX,
        invokes(store, rest, callee, args, paren, after, request),
    ensures
        sound(after),
{
    let z = sizes(store);
    match store.callable_of(callee) {
        None => {
            lemma_fails_sound(
                store,
                after,
                request,
                "Can only call functions and classes."@,
                paren.line,
            );
        },
        Some(c) => {
            if arity_of(store.classes@, c) != args.len() {
                lemma_fails_sound(
                    store,
                    after,
                    request,
                    crate::lox_callable::arity_text(arity_of(store.classes@, c), args.len()),
                    paren.line,
                );
            } else {
                match c {
                    LoxCallable::Clock => {},
                    LoxCallable::UserFunction(f) => {
                        lemma_enters_sound(store.env@, rest, f, args, z, after);
                    },
                    LoxCallable::UserClass(k) => {
                        let made = Sizes { instances: z.instances + 1, ..z };
                        lemma_frames_grow(rest, z, made);
                        lemma_args_grow(args, z, made);
                        assert(fields_sound(after.store.instances@, made)) by {
                            assert forall|i: int, name: Seq<char>|
                                0 <= i < after.store.instances@.len()
                                    && #[trigger] after.store.instances@[i].fields@.contains_key(
                                    name,
                                ) implies valid(after.store.instances@[i].fields@[name], made) by {
                                if i < store.instances@.len() {
                                    assert(after.store.instances@[i]
                                        == after.store.instances@.drop_last()[i]);
                                    assert(store.instances@[i].fields@.contains_key(name));
                                    lemma_valid_grows(store.instances@[i].fields@[name], z, made);
                                }
                            }
                        }
                        match method_of(store.classes@, k as int, "init"@) {
                            Some(init) => {
                                lemma_found_method_closed(store, k as int, "init"@);
                                let bound = Sizes { scopes: z.scopes + 1, ..made };
                                lemma_bound_sound(
                                    store,
                                    init,
                                    store.instances@.len() as usize,
                                    bound,
                                );
                                lemma_frames_grow(rest, made, bound);
                                lemma_args_grow(args, made, bound);
                                lemma_fields_grow(after.store.instances@, made, bound);
                                lemma_enters_sound(
                                    store.bound_env(init, store.instances@.len() as usize),
                                    rest,
                                    store.bound(init),
                                    args,
                                    bound,
                                    after,
                                );
                            },
                            None => {
                                lemma_scopes_grow(store.env@, z, made);
                            },
                        }
                    },
                }
            }
        },
    }
}

proof fn lemma_get_sound<'a>(
    store: Store<'a>,
    rest: Seq<Frame<'a>>,
    name: &'a Token,
    object: Value<'a>,
    after: Interpreter<'a>,
    request: Request,
)
    requires
        store.wf(),
        store_sound(store),
        frames_sound(rest, sizes(store)),
        after.store.env@.scopes.len() <= usize::MAX,
        gets(store, rest, name, object, after, request),
    ensures
        sound(after),
{
    let z = sizes(store);
    match store.instance_of(object) {
        None => {
            lemma_fails_sound(
                store,
                after,
                request,
                "Only instances have properties."@,
                name.line,
            );
        },
        Some(i) => {
            if store.instances@[i as int].fields@.contains_key(name.lexeme@) {
            } else {
                match method_of(
                    store.classes@,
                    store.instances@[i as int].class as int,
                    name.lexeme@,
                ) {
                    Some(f) => {
                        let larger = sizes(after.store);
                        lemma_bound_sound(store, f, i, larger);
                        lemma_frames_grow(rest, z, larger);
                        lemma_turns_sound(
                            store,
                            after,
                            store.bound_env(f, i),
                            rest,
                            Control::Deliver(
                                Value::Callable(LoxCallable::UserFunction(store.bound(f))),
                            ),
                        );
                    },
                    None => {
                        lemma_fails_sound(
                            store,
                            after,
                            request,
                            crate::semantics::no_property_text(name.lexeme@),
                            name.line,
                        );
                    },
                }
            }
        },
    }
}

proof fn lemma_set_sound<'a>(
    store: Store<'a>,
    rest: Seq<Frame<'a>>,
    name: &'a Token,
    instance: usize,
    value: Value<'a>,
    after: Interpreter<'a>,
)
    requires
        store_sound(store),
        frames_sound(rest, sizes(store)),
        valid(value, sizes(store)),
        sets(store, rest, name, instance, value, after),
    ensures
        sound(after),
{
    if instance < store.instances@.len() {
        assert(fields_sound(after.store.instances@, sizes(after.store))) by {
            assert forall|i: int, key: Seq<char>|
                0 <= i < after.store.instances@.len()
                    && #[trigger] after.store.instances@[i].fields@.contains_key(
                    key,
                ) implies valid(after.store.instances@[i].fields@[key], sizes(after.store)) by {
                if i == instance {
                    if key != name.lexeme@ {
                        assert(store.instances@[i].fields@.contains_key(key));
                    }
                } else {
                    assert(after.store.instances@[i] == store.instances@[i]);
                    assert(store.instances@[i].fields@.contains_key(key));
                }
            }
        }
    }
}

proof fn lemma_unwind_sound<'a>(
    store: Store<'a>,
    rest: Seq<Frame<'a>>,
    keyword: &'a Token,
    value: Value<'a>,
    after: Interpreter<'a>,
    request: Request,
)
    requires
        store_sound(store),
        frames_sound(rest, sizes(store)),
        valid(value, sizes(store)),
        unwinds(store, rest, keyword, value, after, request),
    ensures
        sound(after),
{
    let at = boundary(rest);
    if at < 0 {
        lemma_fails_sound(store, after, request, Seq::<char>::empty(), keyword.line);
    } else {
        crate::laws::lemma_boundary_is_a_call(rest);
        match rest[at] {
            Frame::CallBoundary { scope, function } => {
                lemma_result_valid(store, function, value);
                assert(frames_sound(rest.take(at), sizes(store)));
                lemma_turns_sound(
                    store,
                    after,
                    back_to(store.env@, scope),
                    rest.take(at),
                    Control::Deliver(store.call_result(function, value)),
                );
            },
            _ => {},
        }
    }
}

proof fn lemma_resume_sound<'a>(
    store: Store<'a>,
    rest: Seq<Frame<'a>>,
    frame: Frame<'a>,
    value: Value<'a>,
    after: Interpreter<'a>,
    request: Request,
)
    requires
        store.wf(),
        store_sound(store),
        frames_sound(rest, sizes(store)),
        frame_valid(frame, sizes(store)),
        valid(value, sizes(store)),
        after.store.env@.scopes.len() <= usize::MAX,
        after.store.instances@.len() <= usize::MAX,
        resumes(store, rest, frame, value, after, request),
    ensures
        sound(after),
{
    let z = sizes(store);
    match frame {
        Frame::Restore { scope } => {
            lemma_turns_sound(
                store,
                after,
                back_to(store.env@, scope),
                rest,
                Control::Deliver(value),
            );
        },
        Frame::CallBoundary { scope, function } => {
            lemma_result_valid(store, function, Value::Nil);
            lemma_turns_sound(
                store,
                after,
                back_to(store.env@, scope),
                rest,
                Control::Deliver(store.call_result(function, Value::Nil)),
            );
        },
        Frame::UnaryOp { operator } => {
            if !(after.control is Deliver) {
                lemma_fails_sound(
                    store,
                    after,
                    request,
                    "Operand must be a number."@,
                    operator.line,
                );
            }
        },
        Frame::BinaryApply { operator, left } => {
            if request is Failed {
                if operator.token_type == crate::token::TokenType::Plus {
                    lemma_fails_sound(
                        store,
                        after,
                        request,
                        "Operands must be two numbers or two strings."@,
                        operator.line,
                    );
                } else {
                    lemma_fails_sound(
                        store,
                        after,
                        request,
                        "Operands must be numbers."@,
                        operator.line,
                    );
                }
            }
        },
        Frame::AssignTo { name, id } => {
            match store.env@.assign(name.lexeme@, value, id) {
                Some(env) => {
                    lemma_assign_sound(store.env@, z, name.lexeme@, value, id);
                    lemma_turns_sound(store, after, env, rest, Control::Deliver(value));
                },
                None => {
                    lemma_fails_sound(
                        store,
                        after,
                        request,
                        crate::semantics::undefined_text(name.lexeme@),
                        name.line,
                    );
                },
            }
        },
        Frame::CallCallee { paren, arguments } => {
            if arguments@.len() == 0 {
                lemma_invoke_sound(store, rest, value, Seq::empty(), paren, after, request);
            }
        },
        Frame::CallArgument { paren, callee, arguments, done, next } => {
            let all = Arguments::More { value, rest: Box::new(done) };
            if !(next + 1 < arguments@.len()) {
                lemma_in_order_valid(all, z);
                lemma_invoke_sound(store, rest, callee, all.in_order(), paren, after, request);
            }
        },
        Frame::GetProperty { name } => {
            lemma_get_sound(store, rest, name, value, after, request);
        },
        Frame::SetObject { name, value: e } => {
            if store.instance_of(value) is None {
                lemma_fails_sound(
                    store,
                    after,
                    request,
                    "Only instances have fields."@,
                    name.line,
                );
            }
        },
        Frame::SetValue { name, instance } => {
            lemma_set_sound(store, rest, name, instance, value, after);
        },
        Frame::DefineVar { name } => {
            lemma_bind_sound(store.env@, z, store.env@.current as int, name.lexeme@, value);
            lemma_turns_sound(
                store,
                after,
                store.env@.define_current(name.lexeme@, value),
                rest,
                Control::Deliver(Value::Nil),
            );
        },
        Frame::ReturnValue { keyword } => {
            lemma_unwind_sound(store, rest, keyword, value, after, request);
        },
        _ => {},
    }
}

/// Soundness. A step of a sound machine leaves a sound machine: whatever a
/// program does, no value, frame or scope ever refers to a scope, a class or
/// an instance that the machine does not keep.
pub proof fn lemma_step_keeps_sound<'a>(
    before: Interpreter<'a>,
    after: Interpreter<'a>,
    request: Request,
)
    requires
        before.wf(),
        sound(before),
        after.store.env@.scopes.len() <= usize::MAX,
        after.store.classes@.len() <= usize::MAX,
        after.store.instances@.len() <= usize::MAX,
        steps(before, after, request),
    ensures
        sound(after),
{
    match before.control {
        Control::Eval(e) => {
            lemma_evaluate_sound(before.store, before.frames@, e, after, request);
        },
        Control::Exec(s) => {
            lemma_execute_sound(before.store, before.frames@, s, after, request);
        },
        Control::Deliver(value) => {
            if before.frames@.len() > 0 {
                assert(frames_sound(before.frames@.drop_last(), sizes(before.store)));
                lemma_resume_sound(
                    before.store,
                    before.frames@.drop_last(),
                    before.frames@.last(),
                    value,
                    after,
                    request,
                );
            }
        },
        _ => {},
    }
}

/// In a sound store a valid value that looks like an instance, a class or a
/// function is one: the store keeps what it names.
pub proof fn lemma_valid_names_what_is_kept<'a>(store: Store<'a>, value: Value<'a>)
    requires
        valid(value, sizes(store)),
    ensures
        value is Instance ==> store.instance_of(value) is Some,
        value is Callable ==> store.callable_of(value) is Some,
{
}

} // verus!
