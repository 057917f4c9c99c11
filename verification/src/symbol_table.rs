//! The variable store: one flat mapping from identifier to value.

use vstd::hash_map::StringHashMap;
use vstd::prelude::*;

use crate::{Value, ValueView};

verus! {

/// The variables of one program run.
pub struct SymbolTable {
    symbols: StringHashMap<Value>,
}

impl View for SymbolTable {
    type V = Map<Seq<char>, ValueView>;

    closed spec fn view(&self) -> Map<Seq<char>, ValueView> {
        self.symbols@.map_values(|v: Value| v@)
    }
}

impl SymbolTable {
    /// A table without variables.
    pub fn new() -> (table: Self)
        ensures
            table@ == Map::<Seq<char>, ValueView>::empty(),
    {
        let table = Self { symbols: StringHashMap::new() };
        table
    }

    /// Binds `ident` to `value`, whatever it was bound to before.
    pub fn assign_variable(&mut self, ident: String, value: Value)
        ensures
            final(self)@ == old(self)@.insert(ident@, value@),
    {
        self.symbols.insert(ident, value);
    }

    /// The value that `ident` is bound to.
    pub fn get_variable(&mut self, ident: String) -> (value: Value)
        requires
            old(self)@.contains_key(ident@),
        ensures
            value@ == old(self)@[ident@],
            final(self)@ == old(self)@,
    {
        match self.symbols.get(ident.as_str()) {
            Some(value) => value.clone(),
            None => vstd::pervasive::unreached(),
        }
    }

    /// The value that `ident` is bound to, if it is bound.
    pub fn lookup(&self, ident: &str) -> (value: Option<Value>)
        ensures
            match value {
                Some(v) => self@.contains_key(ident@) && v@ == self@[ident@],
                None => !self@.contains_key(ident@),
            },
    {
        match self.symbols.get(ident) {
            Some(value) => Some(value.clone()),
            None => None,
        }
    }
}

} // verus!
