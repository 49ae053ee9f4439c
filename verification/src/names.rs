//! Maps and sets keyed by value names.
use crate::ir::{Name, NameId};
use crate::sets::StringSet;
use std::collections::{HashMap, HashSet};
use vstd::hash_map::StringHashMap;
use vstd::prelude::*;

verus! {

broadcast use vstd::std_specs::hash::group_hash_axioms;

/// A map from names.
#[verifier::reject_recursive_types(V)]
pub struct NameMap<V> {
    named: StringHashMap<V>,
    numbered: HashMap<usize, V>,
}

impl<V: View> NameMap<V> {
    closed spec fn has(&self, id: NameId) -> bool {
        match id {
            NameId::Named(text) => self.named@.contains_key(text),
            NameId::Numbered(n) => n <= usize::MAX && self.numbered@.contains_key(n as usize),
        }
    }

    closed spec fn at(&self, id: NameId) -> V {
        match id {
            NameId::Named(text) => self.named@[text],
            NameId::Numbered(n) => self.numbered@[n as usize],
        }
    }
}

impl<V: View> View for NameMap<V> {
    type V = Map<NameId, V::V>;

    closed spec fn view(&self) -> Map<NameId, V::V> {
        Map::new(|id: NameId| self.has(id), |id: NameId| self.at(id)@)
    }
}

impl<V: View> NameMap<V> {
    /// The empty map.
    pub fn new() -> (r: NameMap<V>)
        ensures
            r@ == Map::<NameId, V::V>::empty(),
    {
        let r: NameMap<V> = NameMap { named: StringHashMap::new(), numbered: HashMap::new() };
        assert(r@ =~= Map::<NameId, V::V>::empty());
        r
    }

    /// Binds `name` to `value`.
    pub fn insert(&mut self, name: &Name, value: V)
        ensures
            final(self)@ == old(self)@.insert(name@, value@),
    {
        match name {
            Name::Name(text) => {
                self.named.insert(text.clone(), value);
            },
            Name::Number(number) => {
                self.numbered.insert(*number, value);
            },
        }
        assert(self@ =~= old(self)@.insert(name@, value@));
    }

    /// The value that `name` is bound to.
    pub fn get(&self, name: &Name) -> (r: Option<&V>)
        ensures
            match r {
                Some(value) => self@.contains_key(name@) && value@ == self@[name@],
                None => !self@.contains_key(name@),
            },
    {
        match name {
            Name::Name(text) => self.named.get(text.as_str()),
            Name::Number(number) => self.numbered.get(number),
        }
    }
}

/// A set of names.
pub struct NameSet {
    named: StringSet,
    numbered: HashSet<usize>,
}

impl View for NameSet {
    type V = Set<NameId>;

    closed spec fn view(&self) -> Set<NameId> {
        Set::new(
            |id: NameId|
                match id {
                    NameId::Named(text) => self.named@.contains(text),
                    NameId::Numbered(n) => n <= usize::MAX && self.numbered@.contains(n as usize),
                },
        )
    }
}

impl NameSet {
    /// The empty set.
    pub fn new() -> (r: NameSet)
        ensures
            r@ == Set::<NameId>::empty(),
    {
        let r: NameSet = NameSet { named: StringSet::new(), numbered: HashSet::new() };
        assert(r@ =~= Set::<NameId>::empty());
        r
    }

    /// Adds `name`.
    pub fn insert(&mut self, name: &Name)
        ensures
            final(self)@ == old(self)@.insert(name@),
    {
        match name {
            Name::Name(text) => {
                self.named.insert(text.clone());
            },
            Name::Number(number) => {
                self.numbered.insert(*number);
            },
        }
        assert(self@ =~= old(self)@.insert(name@));
    }

    /// Tells whether `name` is in the set.
    pub fn contains(&self, name: &Name) -> (r: bool)
        ensures
            r == self@.contains(name@),
    {
        match name {
            Name::Name(text) => self.named.contains(text.as_str()),
            Name::Number(number) => self.numbered.contains(number),
        }
    }
}

} // verus!
