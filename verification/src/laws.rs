//! What holds of every step of the machine.
use crate::environment_tree::{lemma_ancestor_agrees, TreeView};
use crate::expr::Expr;
use crate::lox_callable::LoxClass;
use crate::machine::{Control, Frame, Interpreter, Output, Request, Store};
use crate::semantics::{
    applies, boundary, declares_class, evaluates, executes, gets, instantiates, invokes,
    makes_class, resumes, result_of, sets, steps, super_target, this_in, unwinds,
};
use crate::token::TokenType;
use crate::value::{LoxFunction, Value};
use vstd::prelude::*;

verus! {

/// Evaluation order. The operands of a binary operator are evaluated from
/// left to right: the step that begins `left operator right` turns to `left`
/// and changes nothing else; `right` waits in a frame until the value of
/// `left` is there.
pub proof fn lemma_left_operand_first<'a>(
    before: Interpreter<'a>,
    after: Interpreter<'a>,
    request: Request,
)
    requires
        steps(before, after, request),
        before.control matches Control::Eval(e) && e is BinaryExpr,
    ensures
        before.control matches Control::Eval(Expr::BinaryExpr { left, operator, right })
            && after.control == Control::Eval(&**left) && after.frames@ == before.frames@.push(
            Frame::BinaryRight { operator: &*operator, right: &**right },
        ) && after.store == before.store,
{
}

/// Evaluation order. In `object.name = value` the object is evaluated before
/// the value: the step that begins the assignment turns to `object`; `value`
/// waits in a frame until the object is there.
pub proof fn lemma_object_before_value<'a>(
    before: Interpreter<'a>,
    after: Interpreter<'a>,
    request: Request,
)
    requires
        steps(before, after, request),
        before.control matches Control::Eval(e) && e is SetExpr,
    ensures
        before.control matches Control::Eval(Expr::SetExpr { object, name, value })
            && after.control == Control::Eval(&**object) && after.frames@ == before.frames@.push(
            Frame::SetObject { name: &*name, value: &**value },
        ) && after.store == before.store,
{
}

/// Evaluation order. Where the left operand of `or` is truthy, or that of
/// `and` is falsy, it is the value of the whole: the right operand is given
/// up with its frame and is never evaluated.
pub proof fn lemma_short_circuit<'a>(
    before: Interpreter<'a>,
    after: Interpreter<'a>,
    request: Request,
)
    requires
        steps(before, after, request),
        before.frames@.len() > 0,
        before.control matches Control::Deliver(v) && (before.frames@.last() matches Frame::LogicalRight {
            operator,
            right,
        } && (operator.token_type == TokenType::Or) == v.truthy()),
    ensures
        after.control == before.control,
        after.frames@ == before.frames@.drop_last(),
        after.store == before.store,
{
}

/// Initializer return. A call of a bound initializer gives the instance it
/// was bound to, whatever its body returns: `return;` in `init` gives the
/// instance too.
pub proof fn lemma_initializer_returns_instance<'a>(
    store: Store<'a>,
    init: LoxFunction<'a>,
    instance: usize,
    returned: Value<'a>,
)
    requires
        store.wf(),
        init.is_initializer,
        init.closure < store.env@.scopes.len() < usize::MAX,
    ensures
        result_of(store.bound_env(init, instance), store.bound(init), returned) == Value::<
            'a,
        >::Instance(instance),
{
}

/// Initializer return. A `return` in the body of an initializer ends the
/// call with the instance that the initializer was bound to, whatever value
/// the `return` carries.
pub proof fn lemma_return_in_initializer<'a>(
    before: Interpreter<'a>,
    after: Interpreter<'a>,
    request: Request,
)
    requires
        steps(before, after, request),
        before.frames@.len() > 0,
        before.control is Deliver,
        before.frames@.last() is ReturnValue,
        boundary(before.frames@.drop_last()) >= 0,
        before.frames@[boundary(before.frames@.drop_last())] matches Frame::CallBoundary {
            scope,
            function,
        } && function.is_initializer,
    ensures
        before.frames@[boundary(before.frames@.drop_last())] matches Frame::CallBoundary {
            scope,
            function,
        } && after.control == Control::Deliver(this_in(before.store.env@, function.closure)),
        request is Continue,
{
    lemma_boundary_is_a_call(before.frames@.drop_last());
}

/// Where a call is under way, the innermost boundary is a call boundary
/// among the frames.
pub proof fn lemma_boundary_is_a_call<'a>(frames: Seq<Frame<'a>>)
    ensures
        boundary(frames) < frames.len(),
        boundary(frames) >= 0 ==> frames[boundary(frames)] is CallBoundary,
        boundary(frames) >= -1,
    decreases frames.len(),
{
    if frames.len() > 0 && !(frames.last() is CallBoundary) {
        lemma_boundary_is_a_call(frames.drop_last());
    }
}

/// Inheritance chain. The method that `super.method` means is looked up from
/// the class that the name `super` is bound to where the resolver found it:
/// the superclass of the class in whose body the call is written. It does
/// not depend on the object: bind `this` to any other value, and `super`
/// means the same method.
pub proof fn lemma_super_ignores_receiver<'a>(
    env: TreeView<'a>,
    classes: Seq<LoxClass<'a>>,
    method: Seq<char>,
    id: usize,
    scope: int,
    other: Value<'a>,
)
    requires
        env.wf(),
        0 <= scope < env.scopes.len(),
    ensures
        super_target(env.bind(scope, "this"@, other), classes, method, id) == super_target(
            env,
            classes,
            method,
            id,
        ),
{
    let changed = env.bind(scope, "this"@, other);
    if env.depths.contains_key(id) && env.depths[id] >= 1 {
        lemma_ancestor_agrees(
            env,
            changed,
            env.current as int,
            env.depths[id] as nat,
        );
        reveal_strlit("this");
        reveal_strlit("super");
        assert("this"@ != "super"@) by {
            assert("this"@.len() == 4);
            assert("super"@.len() == 5);
        }
    }
}

/// Two values read the same: they are the same value, or strings of the
/// same text.
pub open spec fn alike<'a>(a: Value<'a>, b: Value<'a>) -> bool {
    match (a, b) {
        (Value::Str(x), Value::Str(y)) => x@ == y@,
        _ => a == b,
    }
}

/// Two controls read the same.
pub open spec fn control_alike<'a>(a: Control<'a>, b: Control<'a>) -> bool {
    match (a, b) {
        (Control::Deliver(x), Control::Deliver(y)) => alike(x, y),
        _ => a == b,
    }
}

/// Two requests read the same: they ask the same of the host, with the same
/// text.
pub open spec fn request_alike(a: Request, b: Request) -> bool {
    match (a, b) {
        (Request::Failed(x), Request::Failed(y)) => x.message@ == y.message@ && x.line == y.line,
        (Request::Print(Output::Text(x)), Request::Print(Output::Text(y))) => x@ == y@,
        (Request::Numeral(x), Request::Numeral(y)) => x@ == y@,
        _ => a == b,
    }
}

/// Two stores hold the same: the same scopes, classes and instances.
pub open spec fn store_alike<'a>(a: Store<'a>, b: Store<'a>) -> bool {
    &&& a.env@ == b.env@
    &&& a.classes@.len() == b.classes@.len()
    &&& forall|i: int|
        0 <= i < a.classes@.len() ==> (#[trigger] a.classes@[i]).class == b.classes@[i].class
            && a.classes@[i].superclass == b.classes@[i].superclass && a.classes@[i].methods@
            == b.classes@[i].methods@
    &&& a.instances@.len() == b.instances@.len()
    &&& forall|i: int|
        0 <= i < a.instances@.len() ==> (#[trigger] a.instances@[i]).class == b.instances@[i].class
            && a.instances@[i].fields@ == b.instances@[i].fields@
}

/// Two machines read the same.
pub open spec fn machine_alike<'a>(a: Interpreter<'a>, b: Interpreter<'a>) -> bool {
    &&& store_alike(a.store, b.store)
    &&& a.frames@ == b.frames@
    &&& control_alike(a.control, b.control)
}

proof fn lemma_class_is_determined<'a>(
    store: Store<'a>,
    rest: Seq<Frame<'a>>,
    declaration: &'a crate::stmt::Class,
    superclass: Option<usize>,
    a: Interpreter<'a>,
    b: Interpreter<'a>,
)
    requires
        makes_class(store, rest, declaration, superclass, a),
        makes_class(store, rest, declaration, superclass, b),
    ensures
        machine_alike(a, b),
{
    assert forall|i: int| 0 <= i < a.store.classes@.len() implies (
    #[trigger] a.store.classes@[i]).class == b.store.classes@[i].class
        && a.store.classes@[i].superclass == b.store.classes@[i].superclass
        && a.store.classes@[i].methods@ == b.store.classes@[i].methods@ by {
        if i < store.classes@.len() {
            assert(a.store.classes@[i] == a.store.classes@.drop_last()[i]);
            assert(b.store.classes@[i] == b.store.classes@.drop_last()[i]);
        }
    }
}

proof fn lemma_instance_is_determined<'a>(
    store: Store<'a>,
    rest: Seq<Frame<'a>>,
    k: usize,
    args: Seq<Value<'a>>,
    a: Interpreter<'a>,
    b: Interpreter<'a>,
)
    requires
        instantiates(store, rest, k, args, a),
        instantiates(store, rest, k, args, b),
    ensures
        machine_alike(a, b),
{
    assert forall|i: int| 0 <= i < a.store.instances@.len() implies (
    #[trigger] a.store.instances@[i]).class == b.store.instances@[i].class
        && a.store.instances@[i].fields@ == b.store.instances@[i].fields@ by {
        if i < store.instances@.len() {
            assert(a.store.instances@[i] == a.store.instances@.drop_last()[i]);
            assert(b.store.instances@[i] == b.store.instances@.drop_last()[i]);
        }
    }
}

proof fn lemma_call_is_determined<'a>(
    store: Store<'a>,
    rest: Seq<Frame<'a>>,
    callee: Value<'a>,
    args: Seq<Value<'a>>,
    paren: &'a crate::token::Token,
    a: Interpreter<'a>,
    ra: Request,
    b: Interpreter<'a>,
    rb: Request,
)
    requires
        invokes(store, rest, callee, args, paren, a, ra),
        invokes(store, rest, callee, args, paren, b, rb),
    ensures
        machine_alike(a, b),
        request_alike(ra, rb),
{
    match store.callable_of(callee) {
        Some(crate::value::LoxCallable::UserClass(k)) => {
            if crate::lox_callable::arity_of(store.classes@, crate::value::LoxCallable::UserClass(k))
                == args.len() {
                lemma_instance_is_determined(store, rest, k, args, a, b);
            }
        },
        _ => {},
    }
}

proof fn lemma_field_is_determined<'a>(
    store: Store<'a>,
    rest: Seq<Frame<'a>>,
    name: &'a crate::token::Token,
    instance: usize,
    value: Value<'a>,
    a: Interpreter<'a>,
    b: Interpreter<'a>,
)
    requires
        sets(store, rest, name, instance, value, a),
        sets(store, rest, name, instance, value, b),
    ensures
        machine_alike(a, b),
{
    if instance < store.instances@.len() {
        assert forall|i: int| 0 <= i < a.store.instances@.len() implies (
        #[trigger] a.store.instances@[i]).class == b.store.instances@[i].class
            && a.store.instances@[i].fields@ == b.store.instances@[i].fields@ by {
            if i != instance {
                assert(a.store.instances@[i] == store.instances@[i]);
                assert(b.store.instances@[i] == store.instances@[i]);
            }
        }
    }
}

proof fn lemma_resume_is_determined<'a>(
    store: Store<'a>,
    rest: Seq<Frame<'a>>,
    frame: Frame<'a>,
    value: Value<'a>,
    a: Interpreter<'a>,
    ra: Request,
    b: Interpreter<'a>,
    rb: Request,
)
    requires
        resumes(store, rest, frame, value, a, ra),
        resumes(store, rest, frame, value, b, rb),
    ensures
        machine_alike(a, b),
        request_alike(ra, rb),
{
    match frame {
        Frame::CallCallee { paren, arguments } => {
            if arguments@.len() == 0 {
                lemma_call_is_determined(store, rest, value, Seq::empty(), paren, a, ra, b, rb);
            }
        },
        Frame::CallArgument { paren, callee, arguments, done, next } => {
            let all = crate::machine::Arguments::More { value, rest: Box::new(done) };
            if !(next + 1 < arguments@.len()) {
                lemma_call_is_determined(store, rest, callee, all.in_order(), paren, a, ra, b, rb);
            }
        },
        Frame::SetValue { name, instance } => {
            lemma_field_is_determined(store, rest, name, instance, value, a, b);
        },
        _ => {},
    }
}

/// Determinism. A step is determined by the machine it starts from: two
/// steps from one machine lead to machines that read the same and hand the
/// same request to the host. With the same answers of the host, a program
/// therefore runs the same way every time.
pub proof fn lemma_step_is_determined<'a>(
    before: Interpreter<'a>,
    first: Interpreter<'a>,
    first_request: Request,
    second: Interpreter<'a>,
    second_request: Request,
)
    requires
        steps(before, first, first_request),
        steps(before, second, second_request),
    ensures
        machine_alike(first, second),
        request_alike(first_request, second_request),
{
    match before.control {
        Control::Exec(s) => {
            match *s {
                crate::stmt::Stmt::ClassStmt { declaration } => {
                    match declaration.superclass {
                        Some(parent) => {
                            match before.store.env@.read(parent.name.lexeme@, parent.id) {
                                Some(v) => {
                                    match before.store.class_of(v) {
                                        Some(c) => {
                                            lemma_class_is_determined(
                                                before.store,
                                                before.frames@,
                                                &declaration,
                                                Some(c),
                                                first,
                                                second,
                                            );
                                        },
                                        None => {},
                                    }
                                },
                                None => {},
                            }
                        },
                        None => {
                            lemma_class_is_determined(
                                before.store,
                                before.frames@,
                                &declaration,
                                None,
                                first,
                                second,
                            );
                        },
                    }
                },
                _ => {},
            }
        },
        Control::Deliver(value) => {
            if before.frames@.len() > 0 {
                lemma_resume_is_determined(
                    before.store,
                    before.frames@.drop_last(),
                    before.frames@.last(),
                    value,
                    first,
                    first_request,
                    second,
                    second_request,
                );
            }
        },
        _ => {},
    }
}

} // verus!
