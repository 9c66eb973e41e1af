//! The environment tree: the scopes of a running program.
//!
//! Every scope is a node that maps names to values and knows its parent. The
//! root holds the globals. Closures keep scopes alive after the code that
//! made them has returned, so the nodes live in one store and are named by
//! their place in it.
use crate::report::RuntimeError;
use crate::resolution::Resolution;
use crate::table::Table;
use crate::token::Token;
use crate::value::Value;
use vstd::prelude::*;
use vstd::string::StringExecFns;

verus! {

/// One scope.
pub struct EnvironmentNode<'a> {
    pub environment: Table<Value<'a>>,
    pub parent: Option<usize>,
}

/// What a scope holds.
pub struct ScopeView<'a> {
    pub bindings: Map<Seq<char>, Value<'a>>,
    pub parent: Option<usize>,
}

impl<'a> View for EnvironmentNode<'a> {
    type V = ScopeView<'a>;

    open spec fn view(&self) -> ScopeView<'a> {
        ScopeView { bindings: self.environment@, parent: self.parent }
    }
}

/// The scopes of a program, the scope that the running code is in, and the
/// depths that the resolver found.
pub struct EnvironmentTree<'a> {
    pub nodes: Vec<EnvironmentNode<'a>>,
    pub current: usize,
    pub id_steps_map: Resolution,
}

/// What an environment tree holds.
pub struct TreeView<'a> {
    pub scopes: Seq<ScopeView<'a>>,
    pub current: usize,
    pub depths: Map<usize, usize>,
}

impl<'a> TreeView<'a> {
    /// There is a root, the current scope exists, and every scope was made
    /// after its parent: no scope is its own ancestor.
    pub open spec fn wf(self) -> bool {
        &&& self.scopes.len() > 0
        &&& self.current < self.scopes.len()
        &&& forall|i: int|
            0 <= i < self.scopes.len() ==> ((#[trigger] self.scopes[i]).parent matches Some(p)
                ==> p < i)
    }

    /// The scope `steps` parents up from `from`, if the chain is that long.
    pub open spec fn ancestor(self, from: int, steps: nat) -> Option<int>
        decreases steps,
    {
        if !(0 <= from < self.scopes.len()) {
            None
        } else if steps == 0 {
            Some(from)
        } else {
            match self.scopes[from].parent {
                Some(p) => self.ancestor(p as int, (steps - 1) as nat),
                None => None,
            }
        }
    }

    /// The value of `name` in the scope `steps` parents up from the current
    /// one, if that scope exists and binds the name.
    pub open spec fn binding_at(self, name: Seq<char>, steps: nat) -> Option<Value<'a>> {
        match self.ancestor(self.current as int, steps) {
            Some(n) => if self.scopes[n].bindings.contains_key(name) {
                Some(self.scopes[n].bindings[name])
            } else {
                None
            },
            None => None,
        }
    }

    /// The value of the global `name`, if there is one.
    pub open spec fn global(self, name: Seq<char>) -> Option<Value<'a>> {
        if self.scopes[0].bindings.contains_key(name) {
            Some(self.scopes[0].bindings[name])
        } else {
            None
        }
    }

    /// What the reference `id` to `name` reads: the binding at its resolved
    /// depth, or the global where the resolver recorded none.
    pub open spec fn read(self, name: Seq<char>, id: usize) -> Option<Value<'a>> {
        if self.depths.contains_key(id) {
            self.binding_at(name, self.depths[id] as nat)
        } else {
            self.global(name)
        }
    }

    /// The tree with `name` bound to `value` in scope `n`.
    pub open spec fn bind(self, n: int, name: Seq<char>, value: Value<'a>) -> TreeView<'a> {
        TreeView {
            scopes: self.scopes.update(
                n,
                ScopeView {
                    bindings: self.scopes[n].bindings.insert(name, value),
                    parent: self.scopes[n].parent,
                },
            ),
            ..self
        }
    }

    /// The tree with `name` bound to `value` in the current scope.
    pub open spec fn define_current(self, name: Seq<char>, value: Value<'a>) -> TreeView<'a> {
        self.bind(self.current as int, name, value)
    }

    /// The tree after the reference `id` to `name` has been assigned
    /// `value`; nothing where the name is global and not defined. A resolved
    /// reference writes into the scope at its depth.
    pub open spec fn assign(self, name: Seq<char>, value: Value<'a>, id: usize) -> Option<
        TreeView<'a>,
    > {
        if self.depths.contains_key(id) {
            match self.ancestor(self.current as int, self.depths[id] as nat) {
                Some(n) => Some(self.bind(n, name, value)),
                None => None,
            }
        } else if self.scopes[0].bindings.contains_key(name) {
            Some(self.bind(0, name, value))
        } else {
            None
        }
    }

    /// The tree with one more scope, empty, under `parent`.
    pub open spec fn new_child(self, parent: Option<usize>) -> TreeView<'a> {
        TreeView { scopes: self.scopes.push(ScopeView { bindings: Map::empty(), parent }), ..self }
    }
}

/// `e` says that the variable named by `token` is not defined.
pub open spec fn undefined_variable(e: RuntimeError, token: Token) -> bool {
    e.message@ == "Undefined variable '"@ + token.lexeme@ + "'."@ && e.line == token.line
}

/// The error for an undefined variable named by `token`.
pub fn undefined(token: &Token) -> (e: RuntimeError)
    ensures
        undefined_variable(e, *token),
{
    let mut message = String::from_str("Undefined variable '");
    message.append(token.lexeme.as_str());
    message.append("'.");
    RuntimeError { message, line: token.line }
}

pub open spec fn scopes_view<'a>(nodes: Seq<EnvironmentNode<'a>>) -> Seq<ScopeView<'a>> {
    Seq::new(nodes.len(), |i: int| nodes[i]@)
}

impl<'a> View for EnvironmentTree<'a> {
    type V = TreeView<'a>;

    open spec fn view(&self) -> TreeView<'a> {
        TreeView {
            scopes: scopes_view(self.nodes@),
            current: self.current,
            depths: self.id_steps_map@,
        }
    }
}

impl<'a> EnvironmentTree<'a> {
    pub open spec fn wf(&self) -> bool {
        self@.wf()
    }

    /// What a new tree holds: an empty root, which is the current scope.
    pub open spec fn new_view() -> TreeView<'a> {
        TreeView {
            scopes: seq![ScopeView { bindings: Map::empty(), parent: None }],
            current: 0,
            depths: Map::empty(),
        }
    }

    /// A tree with an empty root, which is the current scope.
    pub fn new() -> (tree: Self)
        ensures
            tree.wf(),
            tree@ == Self::new_view(),
    {
        let mut nodes: Vec<EnvironmentNode<'a>> = Vec::new();
        nodes.push(EnvironmentNode { environment: Table::new(), parent: None });
        let tree = EnvironmentTree { nodes, current: 0, id_steps_map: Resolution::new() };
        assert(tree@.scopes =~= seq![ScopeView { bindings: Map::empty(), parent: None }]);
        tree
    }

    /// The scope `steps` parents up from the current one.
    fn walk(&self, steps: usize) -> (r: Option<usize>)
        requires
            self.wf(),
        ensures
            match r {
                Some(n) => self@.ancestor(self.current as int, steps as nat) == Some(n as int) && n
                    < self.nodes@.len(),
                None => self@.ancestor(self.current as int, steps as nat) is None,
            },
    {
        let mut node = self.current;
        let mut left = steps;
        while left > 0
            invariant
                self.wf(),
                node < self.nodes@.len(),
                self@.ancestor(node as int, left as nat) == self@.ancestor(
                    self.current as int,
                    steps as nat,
                ),
            decreases left,
        {
            match self.nodes[node].parent {
                Some(p) => {
                    assert(self@.scopes[node as int].parent == Some(p));
                    node = p;
                    left -= 1;
                },
                None => {
                    return None;
                },
            }
        }
        Some(node)
    }

    /// Binds `name` to `value` in scope `n`.
    pub fn bind(&mut self, n: usize, name: String, value: Value<'a>)
        requires
            old(self).wf(),
            n < old(self).nodes@.len(),
        ensures
            final(self).wf(),
            final(self)@ == old(self)@.bind(n as int, name@, value),
            final(self)@.scopes.len() == old(self)@.scopes.len(),
    {
        self.nodes[n].environment.insert(name, value);
        assert(self@.scopes =~= old(self)@.bind(n as int, name@, value).scopes);
    }

    /// Whether the scope `steps` parents up from the current one exists.
    pub fn reaches(&self, steps: usize) -> (r: bool)
        requires
            self.wf(),
        ensures
            r == self@.ancestor(self.current as int, steps as nat).is_some(),
    {
        self.walk(steps).is_some()
    }

    /// Whether the scope `steps` parents up from the current one binds `key`.
    pub fn holds_at(&self, key: &String, steps: usize) -> (r: bool)
        requires
            self.wf(),
        ensures
            r == self@.binding_at(key@, steps as nat).is_some(),
    {
        match self.walk(steps) {
            Some(n) => self.nodes[n].environment.contains_key(key),
            None => false,
        }
    }

    /// Whether the reference `expr_id` to `key` can be read without an
    /// error: it is global, or its resolved scope binds it.
    pub fn is_readable(&self, key: &String, expr_id: usize) -> (r: bool)
        requires
            self.wf(),
        ensures
            r == (self@.depths.contains_key(expr_id) ==> self@.binding_at(
                key@,
                self@.depths[expr_id] as nat,
            ).is_some()),
    {
        match self.id_steps_map.get_step_for_id(expr_id) {
            Some(steps) => self.holds_at(key, steps),
            None => true,
        }
    }

    /// Whether the reference `expr_id` can be assigned to without a missing
    /// scope: it is global, or its resolved scope exists.
    pub fn is_assignable(&self, expr_id: usize) -> (r: bool)
        requires
            self.wf(),
        ensures
            r == (self@.depths.contains_key(expr_id) ==> self@.ancestor(
                self.current as int,
                self@.depths[expr_id] as nat,
            ).is_some()),
    {
        match self.id_steps_map.get_step_for_id(expr_id) {
            Some(steps) => self.reaches(steps),
            None => true,
        }
    }

    /// Binds `name` in the current scope. A name that was bound there
    /// already is bound anew.
    pub fn define_current(&mut self, name: String, value: Value<'a>)
        requires
            old(self).wf(),
        ensures
            final(self).wf(),
            final(self)@ == old(self)@.define_current(name@, value),
            final(self)@.scopes.len() == old(self)@.scopes.len(),
    {
        self.bind(self.current, name, value);
    }

    /// Binds `name` in the root scope.
    pub fn define_global(&mut self, name: String, value: Value<'a>)
        requires
            old(self).wf(),
        ensures
            final(self).wf(),
            final(self)@ == old(self)@.bind(0, name@, value),
    {
        self.bind(0, name, value);
    }

    /// Reads the variable that `token` names for the reference `expr_id`:
    /// the binding at the resolved depth, or the global where no depth is
    /// recorded. An undefined global is an error.
    pub fn get(&self, token: &Token, expr_id: usize) -> (r: Result<Value<'a>, RuntimeError>)
        requires
            self.wf(),
            self@.depths.contains_key(expr_id) ==> self@.binding_at(
                token.lexeme@,
                self@.depths[expr_id] as nat,
            ).is_some(),
        ensures
            match r {
                Ok(v) => self@.read(token.lexeme@, expr_id) == Some(v),
                Err(e) => self@.read(token.lexeme@, expr_id) is None && undefined_variable(
                    e,
                    *token,
                ),
            },
    {
        if let Some(steps) = self.id_steps_map.get_step_for_id(expr_id) {
            return Ok(self.get_at(&token.lexeme, steps));
        }
        if let Some(value) = self.nodes[0].environment.get(&token.lexeme) {
            return Ok(value.clone());
        }
        Err(undefined(token))
    }

    /// The value of `key` in the scope `steps` parents up from the current
    /// one.
    pub fn get_at(&self, key: &String, steps: usize) -> (r: Value<'a>)
        requires
            self.wf(),
            self@.binding_at(key@, steps as nat).is_some(),
        ensures
            self@.binding_at(key@, steps as nat) == Some(r),
    {
        let node = self.walk(steps).unwrap();
        self.nodes[node].environment.get(key).unwrap().clone()
    }

    /// Assigns `value` to the variable that `token` names for the reference
    /// `expr_id`: in the scope at the resolved depth, or in the root where
    /// no depth is recorded. Assigning to an undefined global is an error.
    pub fn assign(&mut self, token: &Token, value: Value<'a>, expr_id: usize) -> (r: Result<
        (),
        RuntimeError,
    >)
        requires
            old(self).wf(),
            old(self)@.depths.contains_key(expr_id) ==> old(self)@.ancestor(
                old(self).current as int,
                old(self)@.depths[expr_id] as nat,
            ).is_some(),
        ensures
            final(self).wf(),
            final(self)@.scopes.len() == old(self)@.scopes.len(),
            match r {
                Ok(_) => old(self)@.assign(token.lexeme@, value, expr_id) == Some(final(self)@),
                Err(e) => old(self)@.assign(token.lexeme@, value, expr_id) is None && final(self)@
                    == old(self)@ && undefined_variable(e, *token),
            },
    {
        if let Some(steps) = self.id_steps_map.get_step_for_id(expr_id) {
            let node = self.walk(steps).unwrap();
            self.bind(node, token.lexeme.clone(), value);
            return Ok(());
        }
        if !self.nodes[0].environment.contains_key(&token.lexeme) {
            Err(undefined(token))
        } else {
            self.bind(0, token.lexeme.clone(), value);
            Ok(())
        }
    }

    pub fn get_current(&self) -> (r: usize)
        ensures
            r == self.current,
    {
        self.current
    }

    pub fn set_current(&mut self, current: usize)
        requires
            old(self).wf(),
            current < old(self).nodes@.len(),
        ensures
            final(self).wf(),
            final(self)@ == (TreeView { current, ..old(self)@ }),
    {
        self.current = current;
    }

    pub fn set_step_for_id(&mut self, id: usize, steps: usize)
        requires
            old(self).wf(),
        ensures
            final(self).wf(),
            final(self)@ == (TreeView { depths: old(self)@.depths.insert(id, steps), ..old(self)@ }),
    {
        self.id_steps_map.set_step_for_id(id, steps);
    }

    pub fn get_step_for_id(&self, id: usize) -> (r: Option<usize>)
        ensures
            r == if self@.depths.contains_key(id) {
                Some(self@.depths[id])
            } else {
                None
            },
    {
        self.id_steps_map.get_step_for_id(id)
    }

    /// Makes a new, empty scope under `parent` and gives its place.
    pub fn new_environment_node(&mut self, parent: Option<usize>) -> (node: usize)
        requires
            old(self).wf(),
            parent matches Some(p) ==> p < old(self).nodes@.len(),
        ensures
            final(self).wf(),
            node == old(self).nodes@.len(),
            final(self)@ == old(self)@.new_child(parent),
    {
        let node = self.nodes.len();
        self.nodes.push(EnvironmentNode { environment: Table::new(), parent });
        assert(self@.scopes =~= old(self)@.new_child(parent).scopes);
        node
    }

    /// Assigns `value` to the variable that `token` names if the current
    /// scope binds it, or else if its parent does; an error if neither does.
    pub fn assign_cur_or_par(&mut self, token: &Token, value: Value<'a>) -> (r: Result<
        (),
        RuntimeError,
    >)
        requires
            old(self).wf(),
        ensures
            final(self).wf(),
            final(self)@.scopes.len() == old(self)@.scopes.len(),
            match r {
                Ok(_) => final(self)@ == old(self)@.bind(
                    old(self)@.holder(token.lexeme@).unwrap(),
                    token.lexeme@,
                    value,
                ) && old(self)@.holder(token.lexeme@) is Some,
                Err(e) => old(self)@.holder(token.lexeme@) is None && final(self)@ == old(self)@
                    && undefined_variable(e, *token),
            },
    {
        if self.nodes[self.current].environment.contains_key(&token.lexeme) {
            self.bind(self.current, token.lexeme.clone(), value);
            return Ok(());
        }
        if let Some(par) = self.nodes[self.current].parent {
            assert(self@.scopes[self.current as int].parent == Some(par));
            if self.nodes[par].environment.contains_key(&token.lexeme) {
                self.bind(par, token.lexeme.clone(), value);
                return Ok(());
            }
        }
        Err(undefined(token))
    }
}

impl<'a> TreeView<'a> {
    /// The scope that holds `name` for a class declaration: the current one
    /// if it binds the name, or else its parent if that does.
    pub open spec fn holder(self, name: Seq<char>) -> Option<int> {
        if self.scopes[self.current as int].bindings.contains_key(name) {
            Some(self.current as int)
        } else {
            match self.scopes[self.current as int].parent {
                Some(p) => if self.scopes[p as int].bindings.contains_key(name) {
                    Some(p as int)
                } else {
                    None
                },
                None => None,
            }
        }
    }
}

/// Two trees whose scopes below `a.scopes.len()` have the same parents have
/// the same ancestors from any scope of the first; and an ancestor never
/// comes after its descendant.
pub proof fn lemma_ancestor_agrees<'a>(a: TreeView<'a>, b: TreeView<'a>, from: int, steps: nat)
    requires
        a.wf(),
        0 <= from < a.scopes.len() <= b.scopes.len(),
        forall|i: int| 0 <= i < a.scopes.len() ==> a.scopes[i].parent == b.scopes[i].parent,
    ensures
        a.ancestor(from, steps) == b.ancestor(from, steps),
        a.ancestor(from, steps) matches Some(n) ==> 0 <= n <= from,
    decreases steps,
{
    if steps > 0 {
        match a.scopes[from].parent {
            Some(p) => {
                lemma_ancestor_agrees(a, b, p as int, (steps - 1) as nat);
            },
            None => {},
        }
    }
}

/// Scope correctness, in general. Whatever is done in scopes that were made
/// later, whether they are left again or not: as long as the scopes that
/// were there stay as they were, every name reads in the scope that was
/// current, and in its ancestors, what it read before.
pub proof fn lemma_newer_scopes_leave_older<'a>(
    t: TreeView<'a>,
    later: TreeView<'a>,
    name: Seq<char>,
    steps: nat,
)
    requires
        t.wf(),
        t.scopes.len() <= later.scopes.len(),
        forall|i: int| 0 <= i < t.scopes.len() ==> later.scopes[i] == t.scopes[i],
    ensures
        (TreeView { current: t.current, ..later }).binding_at(name, steps) == t.binding_at(
            name,
            steps,
        ),
{
    lemma_ancestor_agrees(t, TreeView { current: t.current, ..later }, t.current as int, steps);
}

/// Scope correctness. Open a scope inside the current one, define `name`
/// there, and leave it: every name, `name` too, then reads in the outer
/// scope and in its ancestors what it read before.
pub proof fn lemma_inner_definition_leaves_outer<'a>(
    t: TreeView<'a>,
    name: Seq<char>,
    value: Value<'a>,
    other: Seq<char>,
    steps: nat,
)
    requires
        t.wf(),
        t.scopes.len() < usize::MAX,
    ensures
        ({
            let inner = TreeView { current: t.scopes.len() as usize, ..t.new_child(Some(t.current)) };
            let left = TreeView { current: t.current, ..inner.define_current(name, value) };
            left.wf() && left.binding_at(other, steps) == t.binding_at(other, steps)
        }),
{
    let inner = TreeView { current: t.scopes.len() as usize, ..t.new_child(Some(t.current)) };
    let left = TreeView { current: t.current, ..inner.define_current(name, value) };
    lemma_ancestor_agrees(t, left, t.current as int, steps);
}

/// Closure capture, first half. A call runs in a new scope under the scope
/// `closure` that the function was declared in. What a name reads one scope
/// further out from the call is what it reads in the closure as it is when
/// the call is made.
pub proof fn lemma_call_scope_sees_closure<'a>(
    t: TreeView<'a>,
    closure: usize,
    name: Seq<char>,
    steps: nat,
)
    requires
        t.wf(),
        closure < t.scopes.len() < usize::MAX,
    ensures
        ({
            let call = TreeView { current: t.scopes.len() as usize, ..t.new_child(Some(closure)) };
            let seen = TreeView { current: closure, ..t };
            call.wf() && call.binding_at(name, steps + 1) == seen.binding_at(name, steps)
        }),
{
    let call = TreeView { current: t.scopes.len() as usize, ..t.new_child(Some(closure)) };
    let seen = TreeView { current: closure, ..t };
    lemma_ancestor_agrees(seen, call, closure as int, steps);
}

/// Closure capture, second half. A value written to `name` in the scope
/// `steps` parents up is the value that `name` reads there afterwards: a
/// closure sees every later assignment to a variable it captured.
pub proof fn lemma_assignment_is_seen<'a>(
    t: TreeView<'a>,
    name: Seq<char>,
    value: Value<'a>,
    steps: nat,
)
    requires
        t.wf(),
        t.ancestor(t.current as int, steps) is Some,
    ensures
        t.bind(t.ancestor(t.current as int, steps).unwrap(), name, value).binding_at(name, steps)
            == Some(value),
{
    let n = t.ancestor(t.current as int, steps).unwrap();
    lemma_ancestor_agrees(t, t, t.current as int, steps);
    let after = t.bind(n, name, value);
    lemma_ancestor_agrees(t, after, t.current as int, steps);
}

} // verus!
