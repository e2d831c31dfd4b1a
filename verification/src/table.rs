//! A map from names to values: a hash map keyed by strings, seen as the
//! map from each name to the model of its value.

use vstd::prelude::*;
use vstd::hash_map::StringHashMap;

verus! {

/// The model of a value.
pub open spec fn model_of<V: View>(v: V) -> V::V {
    v@
}

/// A map from names to values.
#[verifier::reject_recursive_types(V)]
pub struct Table<V> {
    entries: StringHashMap<V>,
}

impl<V: View> View for Table<V> {
    type V = Map<Seq<char>, V::V>;

    closed spec fn view(&self) -> Map<Seq<char>, V::V> {
        self.entries@.map_values(|v: V| model_of(v))
    }
}

impl<V: View> Table<V> {
    /// The empty map.
    pub fn new() -> (r: Table<V>)
        ensures
            r@ == Map::<Seq<char>, V::V>::empty(),
    {
        let r = Table { entries: StringHashMap::new() };
        assert(r@ =~= Map::<Seq<char>, V::V>::empty());
        r
    }

    /// Whether `name` is bound.
    pub fn contains_key(&self, name: &String) -> (r: bool)
        ensures
            r == self@.contains_key(name@),
    {
        self.entries.contains_key(name.as_str())
    }

    /// The value that `name` is bound to, if it is bound.
    pub fn get(&self, name: &String) -> (r: Option<&V>)
        ensures
            match r {
                Some(v) => self@.contains_key(name@) && self@[name@] == v@,
                None => !self@.contains_key(name@),
            },
    {
        self.entries.get(name.as_str())
    }

    /// Binds `name` to `value`, in place of what it was bound to.
    pub fn insert(&mut self, name: String, value: V)
        ensures
            final(self)@ == old(self)@.insert(name@, value@),
    {
        self.entries.insert(name, value);
        assert(self@ =~= old(self)@.insert(name@, value@));
    }
}

} // verus!
