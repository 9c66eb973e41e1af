//! Classes and what can be called.
use crate::stmt::Class;
use crate::table::Table;
use crate::text::push_decimal;
use crate::value::{LoxCallable, LoxFunction};
use vstd::prelude::*;
use vstd::string::StringExecFns;

verus! {

/// A class at run time: its declaration, its superclass by its place among
/// the classes, and its own methods by name.
pub struct LoxClass<'a> {
    pub class: &'a Class,
    pub superclass: Option<usize>,
    pub methods: Table<LoxFunction<'a>>,
}

/// Every class was made after its superclass: no class is its own ancestor.
pub open spec fn classes_wf<'a>(classes: Seq<LoxClass<'a>>) -> bool {
    forall|i: int|
        0 <= i < classes.len() ==> ((#[trigger] classes[i]).superclass matches Some(p) ==> p < i)
}

/// The method `name` of class `c`: its own, or else the nearest one that an
/// ancestor has.
pub open spec fn method_of<'a>(classes: Seq<LoxClass<'a>>, c: int, name: Seq<char>) -> Option<
    LoxFunction<'a>,
>
    decreases c,
{
    if !(0 <= c < classes.len()) {
        None
    } else if classes[c].methods@.contains_key(name) {
        Some(classes[c].methods@[name])
    } else {
        match classes[c].superclass {
            Some(p) => if p < c {
                method_of(classes, p as int, name)
            } else {
                None
            },
            None => None,
        }
    }
}

/// How many arguments a call of class `c` takes: as many as its initializer,
/// none where it has no initializer.
pub open spec fn class_arity<'a>(classes: Seq<LoxClass<'a>>, c: int) -> nat {
    match method_of(classes, c, "init"@) {
        Some(init) => init.declaration.params@.len(),
        None => 0,
    }
}

/// How a class is written out: `<cls Name>`, followed by ` extends ` and its
/// superclass where it has one.
pub open spec fn class_text<'a>(classes: Seq<LoxClass<'a>>, c: int) -> Seq<char>
    decreases c,
{
    if !(0 <= c < classes.len()) {
        "<cls>"@
    } else {
        let own = "<cls "@ + classes[c].class.name.lexeme@ + ">"@;
        match classes[c].superclass {
            Some(p) => if p < c {
                own + " extends "@ + class_text(classes, p as int)
            } else {
                own
            },
            None => own,
        }
    }
}

/// The method `name` of class `class_id`, searching the superclasses.
pub fn find_method<'a>(classes: &Vec<LoxClass<'a>>, class_id: usize, name: &String) -> (r: Option<
    LoxFunction<'a>,
>)
    ensures
        r == method_of(classes@, class_id as int, name@),
{
    if class_id >= classes.len() {
        return None;
    }
    let mut c = class_id;
    loop
        invariant
            c < classes@.len(),
            method_of(classes@, c as int, name@) == method_of(classes@, class_id as int, name@),
        decreases c,
    {
        if let Some(method) = classes[c].methods.get(name) {
            return Some(*method);
        }
        match classes[c].superclass {
            Some(p) => {
                if p < c {
                    c = p;
                } else {
                    return None;
                }
            },
            None => {
                return None;
            },
        }
    }
}

/// Writes out class `class_id`.
pub fn class_stringify<'a>(classes: &Vec<LoxClass<'a>>, class_id: usize) -> (out: String)
    ensures
        out@ == class_text(classes@, class_id as int),
{
    if class_id >= classes.len() {
        return String::from_str("<cls>");
    }
    let mut out = String::new();
    let mut c = class_id;
    loop
        invariant
            c < classes@.len(),
            out@ + class_text(classes@, c as int) == class_text(classes@, class_id as int),
        decreases c,
    {
        let ghost before = out@;
        out.append("<cls ");
        out.append(classes[c].class.name.lexeme.as_str());
        out.append(">");
        let ghost own = "<cls "@ + classes@[c as int].class.name.lexeme@ + ">"@;
        assert(out@ =~= before + own);
        match classes[c].superclass {
            Some(p) => {
                if p < c {
                    out.append(" extends ");
                    assert(out@ + class_text(classes@, p as int) =~= before + (own + " extends "@
                        + class_text(classes@, p as int)));
                    c = p;
                } else {
                    proof {
                        assert(out@ =~= before + class_text(classes@, c as int));
                    }
                    return out;
                }
            },
            None => {
                proof {
                    assert(out@ =~= before + class_text(classes@, c as int));
                }
                return out;
            },
        }
    }
}

/// How many arguments a call of `callable` takes.
pub open spec fn arity_of<'a>(classes: Seq<LoxClass<'a>>, callable: LoxCallable<'a>) -> nat {
    match callable {
        LoxCallable::Clock => 0,
        LoxCallable::UserFunction(fun) => fun.declaration.params@.len(),
        LoxCallable::UserClass(c) => class_arity(classes, c as int),
    }
}

/// How many arguments a call of `callable` takes.
pub fn arity<'a>(classes: &Vec<LoxClass<'a>>, callable: &LoxCallable<'a>) -> (r: usize)
    ensures
        r == arity_of(classes@, *callable),
{
    match callable {
        LoxCallable::Clock => 0,
        LoxCallable::UserFunction(fun) => fun.declaration.params.len(),
        LoxCallable::UserClass(class) => {
            let initializer = find_method(classes, *class, &String::from_str("init"));
            if let Some(lox_function) = initializer {
                lox_function.declaration.params.len()
            } else {
                0
            }
        },
    }
}

/// How a callable is written out: `<native fn>`, `<fn name>`, or the class.
pub open spec fn callable_text<'a>(classes: Seq<LoxClass<'a>>, callable: LoxCallable<'a>) -> Seq<
    char,
> {
    match callable {
        LoxCallable::Clock => "<native fn>"@,
        LoxCallable::UserFunction(fun) => "<fn "@ + fun.declaration.name.lexeme@ + ">"@,
        LoxCallable::UserClass(c) => class_text(classes, c as int),
    }
}

/// Writes out `callable`.
pub fn stringify<'a>(classes: &Vec<LoxClass<'a>>, callable: &LoxCallable<'a>) -> (out: String)
    ensures
        out@ == callable_text(classes@, *callable),
{
    match callable {
        LoxCallable::Clock => String::from_str("<native fn>"),
        LoxCallable::UserFunction(fun) => {
            let mut out = String::from_str("<fn ");
            out.append(fun.declaration.name.lexeme.as_str());
            out.append(">");
            out
        },
        LoxCallable::UserClass(class) => class_stringify(classes, *class),
    }
}

/// The message for a call with the wrong number of arguments.
pub open spec fn arity_text(expected: nat, got: nat) -> Seq<char> {
    "Expected "@ + crate::text::decimal_text(expected) + " arguments but got "@
        + crate::text::decimal_text(got) + "."@
}

/// The message for a call with `got` arguments where `expected` are due.
pub fn arity_message(expected: usize, got: usize) -> (out: String)
    ensures
        out@ == arity_text(expected as nat, got as nat),
{
    let mut out = String::from_str("Expected ");
    push_decimal(&mut out, expected);
    out.append(" arguments but got ");
    push_decimal(&mut out, got);
    out.append(".");
    out
}

} // verus!
