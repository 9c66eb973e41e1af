//! The resolution map: for each variable reference that is bound in a local
//! scope, how many scopes lie between its use and its binding.
use std::collections::HashMap;
use vstd::prelude::*;

verus! {

broadcast use vstd::std_specs::hash::group_hash_axioms;

/// A map from the id of a syntax-tree node to the depth of its binding. A
/// node without an entry refers to a global.
pub struct Resolution {
    pub steps: HashMap<usize, usize>,
}

impl View for Resolution {
    type V = Map<usize, usize>;

    open spec fn view(&self) -> Map<usize, usize> {
        self.steps@
    }
}

impl Resolution {
    /// The empty map: every reference is global.
    pub fn new() -> (r: Self)
        ensures
            r@ == Map::<usize, usize>::empty(),
    {
        Resolution { steps: HashMap::new() }
    }

    /// Records that the binding of node `id` lives `depth` scopes out.
    pub fn set_step_for_id(&mut self, id: usize, depth: usize)
        ensures
            final(self)@ == old(self)@.insert(id, depth),
    {
        self.steps.insert(id, depth);
    }

    /// The depth recorded for node `id`, if there is one.
    pub fn get_step_for_id(&self, id: usize) -> (r: Option<usize>)
        ensures
            r == if self@.contains_key(id) {
                Some(self@[id])
            } else {
                None
            },
    {
        match self.steps.get(&id) {
            Some(depth) => Some(*depth),
            None => None,
        }
    }
}

} // verus!
