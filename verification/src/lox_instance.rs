//! Instances of classes.
use crate::table::Table;
use crate::value::Value;
use vstd::prelude::*;

verus! {

/// An instance: the class it was made from, by its place among the classes,
/// and its fields by name.
pub struct LoxInstance<'a> {
    pub class: usize,
    pub fields: Table<Value<'a>>,
}

impl<'a> LoxInstance<'a> {
    /// A new instance of class `class`, without fields.
    pub fn new(class: usize) -> (r: Self)
        ensures
            r.class == class,
            r.fields@ == Map::<Seq<char>, Value<'a>>::empty(),
    {
        LoxInstance { class, fields: Table::new() }
    }

    /// The field `name`, if the instance has it.
    pub fn get(&self, name: &String) -> (r: Option<Value<'a>>)
        ensures
            r == if self.fields@.contains_key(name@) {
                Some(self.fields@[name@])
            } else {
                None
            },
    {
        match self.fields.get(name) {
            Some(value) => Some(value.clone()),
            None => None,
        }
    }

    /// Sets the field `name`, making it where the instance had none.
    pub fn set(&mut self, name: String, value: Value<'a>)
        ensures
            final(self).class == old(self).class,
            final(self).fields@ == old(self).fields@.insert(name@, value),
    {
        self.fields.insert(name, value);
    }
}

} // verus!
