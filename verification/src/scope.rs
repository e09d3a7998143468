//! Scopes: the bindings of labels to values.
use crate::types::{DataModel, DataValue};
use vstd::hash_map::StringHashMap;
use vstd::prelude::*;

verus! {

/// A map from names to the values bound to them.
pub struct Scope {
    entries: StringHashMap<DataValue>,
    /// The bound names, in the order in which they were first bound.
    names: Vec<String>,
}

impl View for Scope {
    type V = Map<Seq<char>, DataModel>;

    closed spec fn view(&self) -> Map<Seq<char>, DataModel> {
        self.entries@.map_values(|value: DataValue| value@)
    }
}

impl Scope {
    /// Whether the scope keeps its list of names in step with its
    /// bindings: every bound name is listed, and only those. Every scope that
    /// `new` made and `insert` filled does.
    pub closed spec fn lists_its_names(&self) -> bool {
        forall|name: Seq<char>|
            self.entries@.contains_key(name) <==> exists|i: int|
                0 <= i < self.names@.len() && #[trigger] self.names@[i]@ == name
    }

    /// A scope without bindings.
    pub fn new() -> (scope: Self)
        ensures
            scope@ == Map::<Seq<char>, DataModel>::empty(),
            scope.lists_its_names(),
    {
        let scope = Scope { entries: StringHashMap::new(), names: Vec::new() };
        assert(scope@ =~= Map::<Seq<char>, DataModel>::empty());
        scope
    }

    /// Binds `name` to `value`, in place of what was bound to it before.
    pub fn insert(&mut self, name: String, value: DataValue)
        ensures
            final(self)@ == old(self)@.insert(name@, value@),
            old(self).lists_its_names() ==> final(self).lists_its_names(),
    {
        let ghost before = self.names@;
        if !self.entries.contains_key(name.as_str()) {
            self.names.push(name.clone());
        }
        self.entries.insert(name, value);
        proof {
            assert(self@ =~= old(self)@.insert(name@, value@));
            if old(self).lists_its_names() {
                assert forall|other: Seq<char>|
                    self.entries@.contains_key(other) <==> exists|i: int|
                        0 <= i < self.names@.len() && #[trigger] self.names@[i]@
                            == other by {
                    if other == name@ {
                        if old(self).entries@.contains_key(name@) {
                            let i = choose|i: int|
                                0 <= i < before.len() && #[trigger] before[i]@ == name@;
                            assert(self.names@[i]@ == other);
                        } else {
                            assert(self.names@[before.len() as int]@ == other);
                        }
                    } else {
                        if old(self).entries@.contains_key(other) {
                            let i = choose|i: int|
                                0 <= i < before.len() && #[trigger] before[i]@ == other;
                            assert(self.names@[i]@ == other);
                        }
                        if exists|i: int|
                            0 <= i < self.names@.len() && #[trigger] self.names@[i]@ == other {
                            let i = choose|i: int|
                                0 <= i < self.names@.len() && #[trigger] self.names@[i]@
                                    == other;
                            assert(i < before.len());
                            assert(before[i]@ == other);
                        }
                    }
                }
            }
        }
    }

    /// The value bound to `name`, if there is one.
    pub fn get(&self, name: &str) -> (found: Option<&DataValue>)
        ensures
            match found {
                Some(value) => self@.contains_key(name@) && self@[name@] == value@,
                None => !self@.contains_key(name@),
            },
    {
        self.entries.get(name)
    }

    /// Whether `name` is bound.
    pub fn contains_key(&self, name: &str) -> (found: bool)
        ensures
            found == self@.contains_key(name@),
    {
        self.entries.contains_key(name)
    }

    /// The bound names, in the order in which they were first bound.
    pub fn names(&self) -> (names: Vec<String>)
        ensures
            self.lists_its_names() ==> forall|name: Seq<char>|
                self@.contains_key(name) <==> exists|i: int|
                    0 <= i < names@.len() && #[trigger] names@[i]@ == name,
    {
        let mut names: Vec<String> = Vec::new();
        let mut i: usize = 0;
        while i < self.names.len()
            invariant
                i <= self.names@.len(),
                names@.len() == i,
                forall|j: int| 0 <= j < i ==> #[trigger] names@[j]@ == self.names@[j]@,
            decreases self.names.len() - i,
        {
            names.push(self.names[i].clone());
            i += 1;
        }
        proof {
            if self.lists_its_names() {
                assert forall|name: Seq<char>|
                    self@.contains_key(name) <==> exists|i: int|
                        0 <= i < names@.len() && #[trigger] names@[i]@ == name by {
                    if self.entries@.contains_key(name) {
                        let i = choose|i: int|
                            0 <= i < self.names@.len() && #[trigger] self.names@[i]@ == name;
                        assert(names@[i]@ == name);
                    }
                    if exists|i: int| 0 <= i < names@.len() && #[trigger] names@[i]@ == name {
                        let i = choose|i: int|
                            0 <= i < names@.len() && #[trigger] names@[i]@ == name;
                        assert(self.names@[i]@ == name);
                    }
                }
            }
        }
        names
    }
}

} // verus!
