//! The values that a Lox program computes with.
use crate::number;
use crate::stmt::Function;
use vstd::prelude::*;

verus! {

/// A user function: its declaration, the scope it was declared in, and
/// whether it is the initializer of a class.
#[derive(Clone, Copy, Debug)]
pub struct LoxFunction<'a> {
    pub declaration: &'a Function,
    /// The environment node that the function closes over.
    pub closure: usize,
    pub is_initializer: bool,
}

/// What can be called.
#[derive(Clone, Copy, Debug)]
pub enum LoxCallable<'a> {
    UserFunction(LoxFunction<'a>),
    /// A class, by its place among the classes of the interpreter.
    UserClass(usize),
    /// The built-in `clock`.
    Clock,
}

/// A runtime value. Instances and classes are shared: a value names them by
/// their place in the interpreter's store.
#[derive(Debug)]
pub enum Value<'a> {
    Nil,
    Bool(bool),
    /// A double, as its bits.
    Number(u64),
    Str(String),
    Callable(LoxCallable<'a>),
    Instance(usize),
}

impl<'a> Clone for Value<'a> {
    fn clone(&self) -> (r: Self)
        ensures
            r == *self,
    {
        match self {
            Value::Nil => Value::Nil,
            Value::Bool(b) => Value::Bool(*b),
            Value::Number(n) => Value::Number(*n),
            Value::Str(s) => Value::Str(s.clone()),
            Value::Callable(c) => Value::Callable(*c),
            Value::Instance(i) => Value::Instance(*i),
        }
    }
}

impl<'a> Value<'a> {
    /// Truthiness: `nil` and `false` are falsy, everything else is truthy.
    pub open spec fn truthy(self) -> bool {
        match self {
            Value::Nil => false,
            Value::Bool(b) => b,
            _ => true,
        }
    }

    /// Lox equality: `nil` equals `nil`; numbers are equal as doubles are;
    /// booleans and strings are equal when they are the same; values of
    /// different kinds, callables and instances are never equal.
    pub open spec fn equals(self, other: Self) -> bool {
        match (self, other) {
            (Value::Nil, Value::Nil) => true,
            (Value::Number(a), Value::Number(b)) => number::equal(a, b),
            (Value::Bool(a), Value::Bool(b)) => a == b,
            (Value::Str(a), Value::Str(b)) => a@ == b@,
            _ => false,
        }
    }

    pub fn is_truthy(&self) -> (r: bool)
        ensures
            r == self.truthy(),
    {
        match self {
            Value::Nil => false,
            Value::Bool(bool_val) => *bool_val,
            _ => true,
        }
    }

    pub fn is_equal(&self, other: &Self) -> (r: bool)
        ensures
            r == self.equals(*other),
    {
        match (self, other) {
            (Value::Nil, Value::Nil) => true,
            (Value::Number(fself), Value::Number(fother)) => number::numbers_equal(*fself, *fother),
            (Value::Bool(bself), Value::Bool(bother)) => *bself == *bother,
            (Value::Str(sself), Value::Str(sother)) => *sself == *sother,
            _ => false,
        }
    }

    /// `!self`, as a value.
    pub fn negate_and_wrap(&self) -> (r: Self)
        ensures
            r == Value::<'a>::Bool(!self.truthy()),
    {
        Value::Bool(!self.is_truthy())
    }

    pub fn unwrap_float(&self) -> (r: u64)
        requires
            self is Number,
        ensures
            *self == Value::<'a>::Number(r),
    {
        match self {
            Value::Number(number) => *number,
            _ => 0,
        }
    }

    pub fn unwrap_str_literal(&self) -> (r: &str)
        requires
            self is Str,
        ensures
            self matches Value::Str(s) && r@ == s@,
    {
        match self {
            Value::Str(str_literal) => str_literal.as_str(),
            _ => "",
        }
    }

    pub fn wrap_float(value: u64) -> (r: Self)
        ensures
            r == Value::<'a>::Number(value),
    {
        Value::Number(value)
    }

    pub fn wrap_string_literal(value: String) -> (r: Self)
        ensures
            r == Value::<'a>::Str(value),
    {
        Value::Str(value)
    }

    pub fn wrap_bool(value: bool) -> (r: Self)
        ensures
            r == Value::<'a>::Bool(value),
    {
        Value::Bool(value)
    }

    pub fn is_float(&self) -> (r: bool)
        ensures
            r == (self is Number),
    {
        match self {
            Value::Number(_) => true,
            _ => false,
        }
    }

    pub fn is_string(&self) -> (r: bool)
        ensures
            r == (self is Str),
    {
        match self {
            Value::Str(_) => true,
            _ => false,
        }
    }
}

} // verus!
