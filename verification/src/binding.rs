//! A table of names and the stack slots that they stand for.

use vstd::prelude::*;
use vstd::string::StringExecFns;
use crate::table::{find, Bindings};

verus! {

/// A name bound to a stack slot.
struct Binding {
    name: String,
    stack_index: usize,
}

impl Binding {
    fn new(name: &str, stack_index: usize) -> (binding: Self)
        ensures
            binding.name@ == name@,
            binding.stack_index == stack_index,
    {
        let name = String::from_str(name);
        Self { name, stack_index }
    }
}

/// A stack of bindings. A later binding of a name shadows the earlier ones.
pub struct BindingTable {
    bindings: Vec<Binding>,
}

impl View for BindingTable {
    type V = Bindings<usize>;

    closed spec fn view(&self) -> Bindings<usize> {
        Seq::new(
            self.bindings@.len(),
            |i: int| (self.bindings@[i].name@, self.bindings@[i].stack_index),
        )
    }
}

impl BindingTable {
    pub fn new() -> (table: Self)
        ensures
            table@ == Seq::<(Seq<char>, usize)>::empty(),
    {
        let bindings = Vec::new();
        let table = Self { bindings };
        assert(table@ =~= Seq::<(Seq<char>, usize)>::empty());
        table
    }

    /// Binds `name` to `stack_index`, shadowing earlier bindings of the name.
    pub fn push(&mut self, name: &str, stack_index: usize)
        ensures
            final(self)@ == old(self)@.push((name@, stack_index)),
    {
        let binding = Binding::new(name, stack_index);
        self.bindings.push(binding);
        assert(self@ =~= old(self)@.push((name@, stack_index)));
    }

    /// Removes the binding that was pushed last.
    pub fn pop(&mut self)
        requires
            old(self)@.len() > 0,
        ensures
            final(self)@ == old(self)@.drop_last(),
    {
        self.bindings.pop();
        assert(self@ =~= old(self)@.drop_last());
    }

    /// The slot that `lookup_name` is bound to by its innermost binding.
    pub fn lookup(&self, lookup_name: &str) -> (found: Option<usize>)
        ensures
            match find(self@, lookup_name@) {
                Some(i) => found == Some(self@[i as int].1),
                None => found is None,
            },
    {
        // Equality of owned strings is the one that is specified.
        let wanted = String::from_str(lookup_name);
        let mut i = self.bindings.len();
        assert(self@.take(i as int) =~= self@);
        while i > 0
            invariant
                i <= self.bindings@.len(),
                wanted@ == lookup_name@,
                find(self@, lookup_name@) == find(self@.take(i as int), lookup_name@),
            decreases i,
        {
            i -= 1;
            proof {
                let prefix = self@.take(i as int + 1);
                assert(prefix.last() == self@[i as int]);
                assert(prefix.drop_last() =~= self@.take(i as int));
            }
            if self.bindings[i].name == wanted {
                return Some(self.bindings[i].stack_index);
            }
        }
        assert(self@.take(0).len() == 0);
        None
    }
}

} // verus!
