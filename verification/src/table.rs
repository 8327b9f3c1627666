use vstd::prelude::*;
use crate::text::{first_index, lemma_first_index, lemma_first_index_bounds, same_text};

verus! {

/// A value and the text it is stored under.
pub struct Entry<T> {
    pub key: String,
    pub value: T,
}

/// Values stored under texts, one for each key, in the order in which the
/// keys were first added.
pub struct Table<T> {
    entries: Vec<Entry<T>>,
}

/// The keys of a list of entries.
pub open spec fn entry_keys<T>(v: Seq<Entry<T>>) -> Seq<Seq<char>> {
    Seq::new(v.len(), |i: int| v[i].key@)
}

/// The values of a list of entries.
pub open spec fn entry_values<T>(v: Seq<Entry<T>>) -> Seq<T> {
    Seq::new(v.len(), |i: int| v[i].value)
}

/// Whether no key stands twice.
pub open spec fn distinct(keys: Seq<Seq<char>>) -> bool {
    forall|i: int, j: int| 0 <= i < j < keys.len() ==> keys[i] != keys[j]
}

/// The value under a key, if there is one.
pub open spec fn value_under<T>(keys: Seq<Seq<char>>, values: Seq<T>, key: Seq<char>) -> Option<T> {
    if 0 <= first_index(keys, key) < values.len() {
        Some(values[first_index(keys, key)])
    } else {
        None
    }
}

impl<T> Table<T> {
    #[verifier::type_invariant]
    spec fn keyed(&self) -> bool {
        distinct(entry_keys(self.entries@))
    }

    /// The keys, in the order in which they were first added.
    pub closed spec fn keys(&self) -> Seq<Seq<char>> {
        entry_keys(self.entries@)
    }

    /// The values, each at the place of its key.
    pub closed spec fn values(&self) -> Seq<T> {
        entry_values(self.entries@)
    }

    /// The value under a key, if there is one.
    pub open spec fn lookup(&self, key: Seq<char>) -> Option<T> {
        value_under(self.keys(), self.values(), key)
    }

    /// A table has as many values as keys.
    pub proof fn lemma_paired(&self)
        ensures
            self.keys().len() == self.values().len(),
    {
    }

    /// A table without entries.
    pub fn new() -> (table: Table<T>)
        ensures
            table.keys().len() == 0,
            table.values().len() == 0,
    {
        Table { entries: Vec::new() }
    }

    /// How many entries the table holds.
    pub fn len(&self) -> (n: usize)
        ensures
            n == self.keys().len(),
            n == self.values().len(),
            distinct(self.keys()),
    {
        proof {
            use_type_invariant(self);
        }
        self.entries.len()
    }

    /// Where a key stands: its place, or the number of entries where the
    /// table does not hold it.
    pub fn position(&self, key: &str) -> (at: usize)
        ensures
            at == first_index(self.keys(), key@),
            at <= self.keys().len(),
            at < self.keys().len() <==> self.keys().contains(key@),
            at < self.keys().len() ==> self.keys()[at as int] == key@,
    {
        proof {
            lemma_first_index_bounds(self.keys(), key@);
        }
        let mut i: usize = 0;
        while i < self.entries.len()
            invariant
                i <= self.entries.len(),
                forall|j: int| 0 <= j < i ==> self.keys()[j] != key@,
            decreases self.entries.len() - i,
        {
            if same_text(self.entries[i].key.as_str(), key) {
                proof {
                    assert(self.keys()[i as int] == key@);
                    lemma_first_index(self.keys(), key@, i as int);
                }
                return i;
            }
            i += 1;
        }
        proof {
            lemma_first_index(self.keys(), key@, i as int);
        }
        i
    }

    /// The key at a place.
    pub fn key_at(&self, at: usize) -> (key: &String)
        requires
            at < self.keys().len(),
        ensures
            key@ == self.keys()[at as int],
    {
        &self.entries[at].key
    }

    /// The value at a place.
    pub fn value_at(&self, at: usize) -> (value: &T)
        requires
            at < self.values().len(),
        ensures
            *value == self.values()[at as int],
    {
        &self.entries[at].value
    }

    /// The value under a key, if there is one.
    pub fn get(&self, key: &str) -> (found: Option<&T>)
        ensures
            match found {
                Some(value) => self.lookup(key@) == Some(*value),
                None => self.lookup(key@) is None,
            },
    {
        let at = self.position(key);
        if at < self.entries.len() {
            assert(self.values()[at as int] == self.entries@[at as int].value);
            Some(&self.entries[at].value)
        } else {
            None
        }
    }

    /// Stores a value under a key, in place of the value that the key had,
    /// if it had one; a new key comes last.
    pub fn insert(&mut self, key: String, value: T)
        ensures
            final(self).keys() == if old(self).keys().contains(key@) {
                old(self).keys()
            } else {
                old(self).keys().push(key@)
            },
            final(self).values() == if old(self).keys().contains(key@) {
                old(self).values().update(first_index(old(self).keys(), key@), value)
            } else {
                old(self).values().push(value)
            },
            final(self).lookup(key@) == Some(value),
            forall|other: Seq<char>|
                other != key@ ==> final(self).lookup(other) == old(self).lookup(other),
            distinct(final(self).keys()),
    {
        proof {
            use_type_invariant(&*self);
        }
        let at = self.position(key.as_str());
        let mut entries: Vec<Entry<T>> = Vec::new();
        std::mem::swap(&mut self.entries, &mut entries);
        let ghost old_keys = entry_keys(entries@);
        let ghost old_values = entry_values(entries@);
        if at < entries.len() {
            entries.set(at, Entry { key, value });
            assert(entry_keys(entries@) =~= old_keys);
            assert(entry_values(entries@) =~= old_values.update(at as int, value));
        } else {
            entries.push(Entry { key, value });
            assert(entry_keys(entries@) =~= old_keys.push(key@));
            assert(entry_values(entries@) =~= old_values.push(value));
            proof {
                lemma_first_index(entry_keys(entries@), key@, at as int);
            }
        }
        self.entries = entries;
        proof {
            let new_keys = self.keys();
            assert forall|other: Seq<char>| other != key@ implies self.lookup(other) == old(
                self,
            ).lookup(other) by {
                lemma_first_index_bounds(old_keys, other);
                let i = first_index(old_keys, other);
                if i < old_keys.len() {
                    assert forall|j: int| 0 <= j < i implies new_keys[j] != other by {
                        if old_keys[j] == other {
                            lemma_first_index_least(old_keys, other, j);
                        }
                    }
                    lemma_first_index(new_keys, other, i);
                } else {
                    assert forall|j: int| 0 <= j < new_keys.len() implies new_keys[j] != other by {
                        if j < old_keys.len() && old_keys[j] == other {
                            assert(old_keys.contains(other));
                        }
                    }
                    lemma_first_index(new_keys, other, new_keys.len() as int);
                }
            }
        }
    }
}

/// No earlier place than `first_index` holds the text.
pub proof fn lemma_first_index_least(list: Seq<Seq<char>>, text: Seq<char>, at: int)
    requires
        0 <= at < list.len(),
        list[at] == text,
    ensures
        first_index(list, text) <= at,
    decreases list.len(),
{
    if list[0] != text {
        lemma_first_index_least(list.skip(1), text, at - 1);
    }
}

} // verus!
