//! A name-keyed mapping with overwrite-on-duplicate insertion, kept as a
//! vector of entries with pairwise distinct keys.

use vstd::prelude::*;

verus! {

/// Looks up the first entry at or after `from` whose key reads `key`.
pub open spec fn spec_lookup_from<V>(
    entries: Seq<(String, V)>,
    key: Seq<char>,
    from: int,
) -> Option<V>
    decreases entries.len() - from,
{
    if from < 0 || from >= entries.len() {
        None
    } else if entries[from].0@ == key {
        Some(entries[from].1)
    } else {
        spec_lookup_from(entries, key, from + 1)
    }
}

/// The value stored under `key`, if any.
pub open spec fn spec_lookup<V>(entries: Seq<(String, V)>, key: Seq<char>) -> Option<V> {
    spec_lookup_from(entries, key, 0)
}

/// The entries after writing `value` under `key`: the first entry whose key
/// reads the same is replaced, and a fresh entry is appended when none does.
pub open spec fn spec_insert_from<V>(
    entries: Seq<(String, V)>,
    key: String,
    value: V,
    from: int,
) -> Seq<(String, V)>
    decreases entries.len() - from,
{
    if from < 0 || from >= entries.len() {
        entries.push((key, value))
    } else if entries[from].0@ == key@ {
        entries.update(from, (key, value))
    } else {
        spec_insert_from(entries, key, value, from + 1)
    }
}

/// The entries after an overwrite-on-duplicate write of `value` under `key`.
pub open spec fn spec_insert<V>(entries: Seq<(String, V)>, key: String, value: V) -> Seq<
    (String, V),
> {
    spec_insert_from(entries, key, value, 0)
}

/// A write never touches the entries before the position it starts scanning
/// from, and never shortens the entry list.
pub proof fn lemma_spec_insert_from_prefix<V>(
    entries: Seq<(String, V)>,
    key: String,
    value: V,
    from: int,
)
    requires
        0 <= from <= entries.len(),
    ensures
        ({
            let r = spec_insert_from(entries, key, value, from);
            &&& entries.len() <= r.len()
            &&& forall|j: int| 0 <= j < from ==> r[j] == entries[j]
        }),
    decreases entries.len() - from,
{
    if from < entries.len() && entries[from].0@ != key@ {
        lemma_spec_insert_from_prefix(entries, key, value, from + 1);
    }
}

/// A name-keyed mapping. Writes overwrite the entry with the same key, so the
/// keys stay pairwise distinct and the entry count is the number of keys.
#[derive(Debug, PartialEq, Eq)]
pub struct StrMap<V> {
    pub entries: Vec<(String, V)>,
}

impl<V> StrMap<V> {
    /// The empty mapping.
    pub fn new() -> (r: Self)
        ensures
            r.entries@ == Seq::<(String, V)>::empty(),
    {
        StrMap { entries: Vec::new() }
    }

    /// How many names are bound.
    pub fn len(&self) -> (r: usize)
        ensures
            r == self.entries@.len(),
    {
        self.entries.len()
    }

    /// Writes `value` under `key`, overwriting any entry with the same key.
    pub fn insert(&mut self, key: String, value: V)
        ensures
            final(self).entries@ == spec_insert(old(self).entries@, key, value),
    {
        let ghost orig = self.entries@;
        let mut i: usize = 0;
        while i < self.entries.len()
            invariant
                0 <= i <= self.entries@.len(),
                self.entries@ == orig,
                orig == old(self).entries@,
                spec_insert(orig, key, value) == spec_insert_from(orig, key, value, i as int),
            decreases self.entries@.len() - i,
        {
            if crate::adapter::str_eq(self.entries[i].0.as_str(), key.as_str()) {
                proof {
                    assert(orig[i as int].0@ == key@);
                    assert(spec_insert_from(orig, key, value, i as int) == orig.update(
                        i as int,
                        (key, value),
                    ));
                }
                self.entries.set(i, (key, value));
                return ;
            }
            i = i + 1;
        }
        self.entries.push((key, value));
    }

    /// The value bound to `key`, if any.
    pub fn get(&self, key: &str) -> (r: Option<&V>)
        ensures
            match r {
                Some(v) => spec_lookup(self.entries@, key@) == Some(*v),
                None => spec_lookup(self.entries@, key@) is None,
            },
    {
        let mut i: usize = 0;
        while i < self.entries.len()
            invariant
                0 <= i <= self.entries@.len(),
                spec_lookup(self.entries@, key@) == spec_lookup_from(
                    self.entries@,
                    key@,
                    i as int,
                ),
            decreases self.entries@.len() - i,
        {
            if crate::adapter::str_eq(self.entries[i].0.as_str(), key) {
                return Some(&self.entries[i].1);
            }
            i = i + 1;
        }
        None
    }

    /// Is some value bound to `key`?
    pub fn contains_key(&self, key: &str) -> (r: bool)
        ensures
            r == (spec_lookup(self.entries@, key@) is Some),
    {
        self.get(key).is_some()
    }
}

} // verus!
