//! A table of names and associated values.
//!
//! A table is a stack of bindings. A later binding of a name shadows the
//! earlier ones, so a lookup finds the binding that was pushed last.

use vstd::prelude::*;
use vstd::string::StringExecFns;

verus! {

/// A table as a sequence of `(name, value)` pairs, oldest first.
pub type Bindings<T> = Seq<(Seq<char>, T)>;

/// The position of the innermost binding of `name`, if there is one.
pub open spec fn find<T>(bindings: Bindings<T>, name: Seq<char>) -> Option<nat>
    decreases bindings.len(),
{
    if bindings.len() == 0 {
        None
    } else if bindings.last().0 == name {
        Some((bindings.len() - 1) as nat)
    } else {
        find(bindings.drop_last(), name)
    }
}

/// The value of the innermost binding of `name`, if there is one.
pub open spec fn find_value<T>(bindings: Bindings<T>, name: Seq<char>) -> Option<T> {
    match find(bindings, name) {
        Some(i) => Some(bindings[i as int].1),
        None => None,
    }
}

/// `find` gives the greatest position that binds the name, and gives none
/// exactly when no position does.
pub proof fn lemma_find_innermost<T>(bindings: Bindings<T>, name: Seq<char>)
    ensures
        match find(bindings, name) {
            Some(i) => {
                &&& i < bindings.len()
                &&& bindings[i as int].0 == name
                &&& forall|j: int| i < j < bindings.len() ==> (#[trigger] bindings[j]).0 != name
            },
            None => forall|j: int| 0 <= j < bindings.len() ==> (#[trigger] bindings[j]).0 != name,
        },
    decreases bindings.len(),
{
    if bindings.len() > 0 && bindings.last().0 != name {
        let rest = bindings.drop_last();
        lemma_find_innermost(rest, name);
        assert forall|j: int| 0 <= j < rest.len() implies rest[j] == bindings[j] by {}
        match find(rest, name) {
            Some(i) => {
                assert forall|j: int| i < j < bindings.len() implies (#[trigger] bindings[j]).0
                    != name by {
                    if j < rest.len() {
                        assert(rest[j].0 != name);
                    }
                }
            },
            None => {
                assert forall|j: int| 0 <= j < bindings.len() implies (#[trigger] bindings[j]).0
                    != name by {
                    if j < rest.len() {
                        assert(rest[j].0 != name);
                    }
                }
            },
        }
    }
}

/// A name bound to a value.
pub struct Item<T> {
    pub name: String,
    pub value: T,
}

impl<T> Item<T> {
    fn new(name: String, value: T) -> (item: Self)
        ensures
            item.name == name,
            item.value == value,
    {
        Self { name, value }
    }
}

/// A stack of bindings.
pub struct Table<T> {
    pub items: Vec<Item<T>>,
}

impl<T> View for Table<T> {
    type V = Bindings<T>;

    open spec fn view(&self) -> Bindings<T> {
        Seq::new(self.items@.len(), |i: int| (self.items@[i].name@, self.items@[i].value))
    }
}

impl<T> Table<T> {
    pub fn new() -> (table: Self)
        ensures
            table@ == Seq::<(Seq<char>, T)>::empty(),
    {
        let symbols = Vec::new();
        Self { items: symbols }
    }

    pub fn len(&self) -> (n: usize)
        ensures
            n == self@.len(),
    {
        self.items.len()
    }

    /// Binds `name` to `value`, shadowing earlier bindings of the name.
    pub fn push(&mut self, name: String, value: T)
        ensures
            final(self)@ == old(self)@.push((name@, value)),
    {
        let symbol = Item::new(name, value);
        self.items.push(symbol);
        assert(self@ =~= old(self)@.push((name@, value)));
    }

    /// Removes the binding that was pushed last.
    pub fn pop(&mut self)
        requires
            old(self)@.len() > 0,
        ensures
            final(self)@ == old(self)@.drop_last(),
    {
        self.items.pop();
        assert(self@ =~= old(self)@.drop_last());
    }

    /// The value that `name` is bound to by its innermost binding.
    pub fn lookup(&self, name: &str) -> (found: Option<&T>)
        ensures
            match find(self@, name@) {
                Some(i) => found == Some(&self@[i as int].1),
                None => found is None,
            },
    {
        proof {
            lemma_find_innermost(self@, name@);
        }
        match self.lookup_offset(name) {
            Some(offset) => {
                assert(self@.len() == self.items.len());
                assert(find(self@, name@) == Some(offset as nat));
                assert(self@[offset as int].1 == self.items@[offset as int].value);
                Some(&self.items[offset].value)
            },
            None => None,
        }
    }

    /// The position of the innermost binding of `name`.
    pub fn lookup_offset(&self, name: &str) -> (found: Option<usize>)
        ensures
            match find(self@, name@) {
                Some(i) => found == Some(i as usize),
                None => found is None,
            },
    {
        // Equality of owned strings is the one that is specified.
        let wanted = String::from_str(name);
        let mut i = self.items.len();
        assert(self@.take(i as int) =~= self@);
        while i > 0
            invariant
                i <= self.items@.len(),
                wanted@ == name@,
                find(self@, name@) == find(self@.take(i as int), name@),
            decreases i,
        {
            i -= 1;
            proof {
                let prefix = self@.take(i as int + 1);
                assert(prefix.last() == self@[i as int]);
                assert(prefix.drop_last() =~= self@.take(i as int));
            }
            if self.items[i].name == wanted {
                return Some(i);
            }
        }
        assert(self@.take(0).len() == 0);
        None
    }
}

} // verus!
