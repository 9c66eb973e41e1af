//! The state of the machine that runs a program: what it does next, the
//! work that waits, and what it keeps.
use crate::environment_tree::EnvironmentTree;
use crate::expr::Expr;
use crate::lox_callable::LoxClass;
use crate::lox_instance::LoxInstance;
use crate::report::RuntimeError;
use crate::stmt::Stmt;
use crate::token::Token;
use crate::value::{LoxFunction, Value};
use vstd::prelude::*;

verus! {

/// The arithmetic that the host does on doubles.
#[derive(Clone, Copy, PartialEq, Eq, Structural, Debug)]
pub enum Operation {
    Add,
    Subtract,
    Multiply,
    Divide,
}

/// What a `print` statement writes: text, or a number for the host to
/// format.
#[derive(Debug)]
pub enum Output {
    Text(String),
    Number(u64),
}

/// What a step hands to the host.
#[derive(Debug)]
pub enum Request {
    /// Nothing: the machine has more to do.
    Continue,
    /// The program has finished.
    Finished,
    /// The program has failed; it runs no further.
    Failed(RuntimeError),
    /// Write this, and a line break behind it, to standard output.
    Print(Output),
    /// Supply the double that this numeral writes.
    Numeral(String),
    /// Supply the result of this operation on doubles.
    Arithmetic { operation: Operation, left: u64, right: u64 },
    /// Supply the time in seconds since the Unix epoch.
    Clock,
}

/// A number that the machine waits for.
#[derive(Clone, Copy, Debug)]
pub enum Ask<'a> {
    Numeral(&'a String),
    Arithmetic { operation: Operation, left: u64, right: u64 },
    Clock,
}

/// The values of the arguments of a call that have been evaluated, the last
/// one first.
#[derive(Debug)]
pub enum Arguments<'a> {
    Empty,
    More { value: Value<'a>, rest: Box<Arguments<'a>> },
}

impl<'a> Arguments<'a> {
    /// The values in the order of the arguments.
    pub open spec fn in_order(self) -> Seq<Value<'a>>
        decreases self,
    {
        match self {
            Arguments::Empty => Seq::empty(),
            Arguments::More { value, rest } => rest.in_order().push(value),
        }
    }

    fn fill(self, out: &mut Vec<Value<'a>>)
        ensures
            final(out)@ == old(out)@ + self.in_order(),
        decreases self,
    {
        match self {
            Arguments::Empty => {
                assert(out@ =~= old(out)@ + self.in_order());
            },
            Arguments::More { value, rest } => {
                rest.fill(out);
                out.push(value);
                assert(out@ =~= old(out)@ + self.in_order());
            },
        }
    }

    /// The values in the order of the arguments.
    pub fn into_vec(self) -> (out: Vec<Value<'a>>)
        ensures
            out@ == self.in_order(),
    {
        let mut out: Vec<Value<'a>> = Vec::new();
        self.fill(&mut out);
        assert(out@ =~= self.in_order());
        out
    }
}

/// What the machine does next.
#[derive(Debug)]
pub enum Control<'a> {
    /// Evaluate an expression.
    Eval(&'a Expr),
    /// Execute a statement.
    Exec(&'a Stmt),
    /// Hand a value to the frame on top: the value of an expression, or
    /// `nil` when a statement is done.
    Deliver(Value<'a>),
    /// Wait for a number from the host.
    Await(Ask<'a>),
    /// Nothing: no program is running.
    Halted,
}

/// Work that waits for a value.
#[derive(Debug)]
#[allow(inconsistent_fields)]
pub enum Frame<'a> {
    /// Run the statements from `next` on.
    Sequence { statements: &'a Vec<Stmt>, next: usize },
    /// Leave a block: go back to scope `scope`.
    Restore { scope: usize },
    /// The end of a call of `function`: go back to the caller's scope
    /// `scope` and hand on the result.
    CallBoundary { scope: usize, function: LoxFunction<'a> },
    /// Apply a unary operator.
    UnaryOp { operator: &'a Token },
    /// The left operand is there: evaluate the right one.
    BinaryRight { operator: &'a Token, right: &'a Expr },
    /// Both operands are there: apply the operator.
    BinaryApply { operator: &'a Token, left: Value<'a> },
    /// The left operand of `and` or `or` is there.
    LogicalRight { operator: &'a Token, right: &'a Expr },
    /// Assign to a variable.
    AssignTo { name: &'a Token, id: usize },
    /// The callee is there: evaluate the arguments.
    CallCallee { paren: &'a Token, arguments: &'a Vec<Expr> },
    /// Argument `next` is there.
    CallArgument {
        paren: &'a Token,
        callee: Value<'a>,
        arguments: &'a Vec<Expr>,
        done: Arguments<'a>,
        next: usize,
    },
    /// Read a property of the object.
    GetProperty { name: &'a Token },
    /// The object of a property assignment is there: evaluate the value.
    SetObject { name: &'a Token, value: &'a Expr },
    /// Set a field of instance `instance`.
    SetValue { name: &'a Token, instance: usize },
    /// Print.
    PrintValue,
    /// Define a variable in the current scope.
    DefineVar { name: &'a Token },
    /// The condition of an `if` is there.
    Branch { then_branch: &'a Stmt, else_branch: Option<&'a Stmt> },
    /// The condition of a `while` is there.
    LoopTest { condition: &'a Expr, body: &'a Stmt },
    /// The body of a `while` is done.
    LoopBody { condition: &'a Expr, body: &'a Stmt },
    /// The value of a `return` is there.
    ReturnValue { keyword: &'a Token },
}

/// What the machine keeps: the scopes, the classes and the instances.
pub struct Store<'a> {
    pub env: EnvironmentTree<'a>,
    pub classes: Vec<LoxClass<'a>>,
    pub instances: Vec<LoxInstance<'a>>,
}

/// The machine.
pub struct Interpreter<'a> {
    pub store: Store<'a>,
    pub frames: Vec<Frame<'a>>,
    pub control: Control<'a>,
}

} // verus!
