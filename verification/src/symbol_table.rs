//! A table of symbols and associated values.
//!
//! Unlike `table::Table` this table keeps copies of what it is given.

use vstd::prelude::*;
use vstd::string::StringExecFns;
use crate::table::{find, Bindings};

verus! {

/// A name bound to a value.
struct Symbol<T: Clone> {
    name: String,
    value: T,
}

impl<T: Clone> Symbol<T> {
    fn new(name: &str, value: &T) -> (symbol: Self)
        ensures
            symbol.name@ == name@,
            cloned(*value, symbol.value),
    {
        let name = String::from_str(name);
        let value = value.clone();
        Self { name, value }
    }
}

/// A stack of symbols. A later symbol of a name shadows the earlier ones.
pub struct SymbolTable<T: Clone> {
    symbols: Vec<Symbol<T>>,
}

impl<T: Clone> View for SymbolTable<T> {
    type V = Bindings<T>;

    closed spec fn view(&self) -> Bindings<T> {
        Seq::new(self.symbols@.len(), |i: int| (self.symbols@[i].name@, self.symbols@[i].value))
    }
}

impl<T: Clone> SymbolTable<T> {
    pub fn new() -> (table: Self)
        ensures
            table@ == Seq::<(Seq<char>, T)>::empty(),
    {
        let symbols = Vec::new();
        let table = Self { symbols };
        assert(table@ =~= Seq::<(Seq<char>, T)>::empty());
        table
    }

    /// Binds `name` to a copy of `value`.
    pub fn push(&mut self, name: &str, value: &T)
        ensures
            final(self)@.len() == old(self)@.len() + 1,
            final(self)@.drop_last() == old(self)@,
            final(self)@.last().0 == name@,
            cloned(*value, final(self)@.last().1),
    {
        let symbol = Symbol::new(name, value);
        self.symbols.push(symbol);
        assert(self@.drop_last() =~= old(self)@);
    }

    /// Removes the symbol that was pushed last.
    pub fn pop(&mut self)
        requires
            old(self)@.len() > 0,
        ensures
            final(self)@ == old(self)@.drop_last(),
    {
        self.symbols.pop();
        assert(self@ =~= old(self)@.drop_last());
    }

    /// The value of the innermost symbol of the name `lookup_name`.
    pub fn lookup(&self, lookup_name: &str) -> (found: Option<&T>)
        ensures
            match find(self@, lookup_name@) {
                Some(i) => found == Some(&self@[i as int].1),
                None => found is None,
            },
    {
        // Equality of owned strings is the one that is specified.
        let wanted = String::from_str(lookup_name);
        let mut i = self.symbols.len();
        assert(self@.take(i as int) =~= self@);
        while i > 0
            invariant
                i <= self.symbols@.len(),
                wanted@ == lookup_name@,
                find(self@, lookup_name@) == find(self@.take(i as int), lookup_name@),
            decreases i,
        {
            i -= 1;
            proof {
                let prefix = self@.take(i as int + 1);
                assert(prefix.last() == self@[i as int]);
                assert(prefix.drop_last() =~= self@.take(i as int));
            }
            if self.symbols[i].name == wanted {
                return Some(&self.symbols[i].value);
            }
        }
        assert(self@.take(0).len() == 0);
        None
    }
}

} // verus!
