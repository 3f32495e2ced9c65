//! [`StrMap`]: a map keyed by strings, used for maps from level iids to level metadata.
use vstd::prelude::*;

use crate::refs::points_to_option;

verus! {

/// The map that a list of entries describes: each entry binds its key to its value, later
/// entries replacing earlier ones.
pub open spec fn entries_map<V>(entries: Seq<(String, V)>) -> Map<Seq<char>, V>
    decreases entries.len(),
{
    if entries.len() == 0 {
        Map::empty()
    } else {
        entries_map(entries.drop_last()).insert(entries.last().0@, entries.last().1)
    }
}

/// A map from strings to values.
///
/// Inserting a key that is present replaces its value.
#[derive(Clone, Debug, PartialEq)]
pub struct StrMap<V> {
    entries: Vec<(String, V)>,
}

impl<V> View for StrMap<V> {
    type V = Map<Seq<char>, V>;

    closed spec fn view(&self) -> Map<Seq<char>, V> {
        entries_map(self.entries@)
    }
}

impl<V> StrMap<V> {
    /// An empty map.
    pub fn new() -> (map: StrMap<V>)
        ensures
            map@ == Map::<Seq<char>, V>::empty(),
    {
        StrMap { entries: Vec::new() }
    }

    /// Bind `key` to `value`, replacing the value `key` had.
    pub fn insert(&mut self, key: String, value: V)
        ensures
            final(self)@ == old(self)@.insert(key@, value),
    {
        let ghost old_entries = self.entries@;
        self.entries.push((key, value));
        assert(self.entries@.drop_last() =~= old_entries);
    }

    /// The value bound to `key`, if any.
    pub fn get(&self, key: &String) -> (value: Option<&V>)
        ensures
            points_to_option(value, self@.get(key@)),
    {
        let mut i: usize = self.entries.len();
        assert(self.entries@.take(i as int) =~= self.entries@);
        while i > 0
            invariant
                i <= self.entries@.len(),
                entries_map(self.entries@).contains_key(key@) == entries_map(
                    self.entries@.take(i as int),
                ).contains_key(key@),
                entries_map(self.entries@).contains_key(key@) ==> entries_map(self.entries@)[key@]
                    == entries_map(self.entries@.take(i as int))[key@],
            decreases i,
        {
            let ghost prefix = self.entries@.take(i as int);
            assert(prefix.drop_last() =~= self.entries@.take(i - 1));
            if self.entries[i - 1].0 == *key {
                return Some(&self.entries[i - 1].1);
            }
            i = i - 1;
        }
        assert(self.entries@.take(0) =~= Seq::<(String, V)>::empty());
        None
    }

    /// Whether `key` is bound.
    pub fn contains_key(&self, key: &String) -> (present: bool)
        ensures
            present == self@.contains_key(key@),
    {
        self.get(key).is_some()
    }
}

} // verus!
