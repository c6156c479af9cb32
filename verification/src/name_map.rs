//! A map keyed by names, matched exactly and case-sensitively.

use vstd::prelude::*;
use crate::text::same_text;

verus! {

/// The map that a list of (name, value) entries stands for: a later entry
/// replaces an earlier one of the same name.
pub open spec fn entries_map<T>(entries: Seq<(String, T)>) -> Map<Seq<char>, T>
    decreases entries.len(),
{
    if entries.len() == 0 {
        Map::empty()
    } else {
        entries_map(entries.drop_last()).insert(entries.last().0@, entries.last().1)
    }
}

/// The last entry of a name decides what the name maps to.
pub proof fn lemma_entries_map_last_match<T>(entries: Seq<(String, T)>, name: Seq<char>, i: int)
    requires
        0 <= i < entries.len(),
        entries[i].0@ == name,
        forall|j: int| i < j < entries.len() ==> entries[j].0@ != name,
    ensures
        entries_map(entries).contains_key(name),
        entries_map(entries)[name] == entries[i].1,
    decreases entries.len(),
{
    if i < entries.len() - 1 {
        lemma_entries_map_last_match(entries.drop_last(), name, i);
    }
}

/// A name that no entry has is not in the map.
pub proof fn lemma_entries_map_no_match<T>(entries: Seq<(String, T)>, name: Seq<char>)
    requires
        forall|j: int| 0 <= j < entries.len() ==> entries[j].0@ != name,
    ensures
        !entries_map(entries).contains_key(name),
    decreases entries.len(),
{
    if entries.len() > 0 {
        lemma_entries_map_no_match(entries.drop_last(), name);
    }
}

/// A finite map from names to values of type `T`.
pub struct NameMap<T> {
    entries: Vec<(String, T)>,
}

impl<T> View for NameMap<T> {
    type V = Map<Seq<char>, T>;

    closed spec fn view(&self) -> Map<Seq<char>, T> {
        entries_map(self.entries@)
    }
}

impl<T> NameMap<T> {
    /// The empty map.
    pub fn new() -> (r: Self)
        ensures
            r@ == Map::<Seq<char>, T>::empty(),
    {
        NameMap { entries: Vec::new() }
    }

    /// Maps `name` to `value`, replacing what `name` mapped to before.
    pub fn insert(&mut self, name: String, value: T)
        ensures
            final(self)@ == old(self)@.insert(name@, value),
    {
        self.entries.push((name, value));
        assert(self.entries@.drop_last() == old(self).entries@);
    }

    /// The value that `name` maps to, if any.
    pub fn get(&self, name: &str) -> (r: Option<&T>)
        ensures
            r is Some <==> self@.contains_key(name@),
            r matches Some(value) ==> *value == self@[name@],
    {
        let mut i: usize = self.entries.len();
        while i > 0
            invariant
                i <= self.entries@.len(),
                forall|j: int| i <= j < self.entries@.len() ==> self.entries@[j].0@ != name@,
            decreases i,
        {
            i -= 1;
            if same_text(self.entries[i].0.as_str(), name) {
                proof {
                    lemma_entries_map_last_match(self.entries@, name@, i as int);
                }
                return Some(&self.entries[i].1);
            }
        }
        proof {
            lemma_entries_map_no_match(self.entries@, name@);
        }
        None
    }

    /// Whether `name` maps to anything.
    pub fn contains_key(&self, name: &str) -> (r: bool)
        ensures
            r == self@.contains_key(name@),
    {
        self.get(name).is_some()
    }
}

} // verus!
