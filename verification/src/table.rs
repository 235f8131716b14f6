//! A small map from text keys to values that keeps its entries in the
//! order in which their keys first came.

use vstd::prelude::*;
use crate::state::{lemma_first_match_is, put};

verus! {

/// Selects the entry with the key `key`.
pub open spec fn keyed<V>(key: Seq<char>) -> spec_fn((Seq<char>, V)) -> bool {
    |entry: (Seq<char>, V)| entry.0 == key
}

/// `rows` with the value `value` under the key `key`: in the place of the
/// entry that has the key, or at the end where none has it.
pub open spec fn with_entry<V>(rows: Seq<(Seq<char>, V)>, key: Seq<char>, value: V) -> Seq<
    (Seq<char>, V),
> {
    put(rows, keyed(key), (key, value))
}

/// Whether some entry of `rows` has the key `key`.
pub open spec fn has_key<V>(rows: Seq<(Seq<char>, V)>, key: Seq<char>) -> bool {
    exists|i: int| 0 <= i < rows.len() && (#[trigger] rows[i]).0 == key
}

/// A key that no entry has gets its entry at the end.
pub proof fn lemma_with_new_entry<V>(rows: Seq<(Seq<char>, V)>, key: Seq<char>, value: V)
    requires
        forall|i: int| 0 <= i < rows.len() ==> (#[trigger] rows[i]).0 != key,
    ensures
        with_entry(rows, key, value) == rows.push((key, value)),
{
    lemma_first_match_is(rows, keyed::<V>(key), rows.len() as int);
}

/// Whether no two entries of `rows` share a key.
pub open spec fn distinct_keys<V>(rows: Seq<(Seq<char>, V)>) -> bool {
    forall|i: int, j: int|
        0 <= i < j < rows.len() ==> (#[trigger] rows[i]).0 != (#[trigger] rows[j]).0
}

/// A map from text keys to values. No key occurs twice; the entries stand
/// in the order in which their keys were first inserted.
#[derive(Debug)]
pub struct Table<V> {
    keys: Vec<String>,
    values: Vec<V>,
}

impl<V> Table<V> {
    #[verifier::type_invariant]
    closed spec fn well_formed(self) -> bool {
        &&& self.keys@.len() == self.values@.len()
        &&& forall|i: int, j: int|
            0 <= i < j < self.keys@.len() ==> (#[trigger] self.keys@[i])@ != (
            #[trigger] self.keys@[j])@
    }

    /// The entries, each a key with its value, in order.
    pub closed spec fn rows(self) -> Seq<(Seq<char>, V)> {
        Seq::new(self.keys@.len(), |i: int| (self.keys@[i]@, self.values@[i]))
    }

    /// The table without entries.
    pub fn new() -> (r: Self)
        ensures
            r.rows() == Seq::<(Seq<char>, V)>::empty(),
    {
        let r = Table { keys: Vec::new(), values: Vec::new() };
        assert(r.rows() =~= Seq::<(Seq<char>, V)>::empty());
        r
    }

    /// The number of entries.
    pub fn len(&self) -> (r: usize)
        ensures
            r == self.rows().len(),
            distinct_keys(self.rows()),
    {
        proof {
            use_type_invariant(self);
        }
        self.keys.len()
    }

    /// Whether the table has no entry.
    pub fn is_empty(&self) -> (r: bool)
        ensures
            r == (self.rows().len() == 0),
    {
        self.keys.len() == 0
    }

    /// The position of the entry with the key `key`.
    fn position(&self, key: &str) -> (r: Option<usize>)
        ensures
            match r {
                Some(i) => i < self.keys@.len() && self.keys@[i as int]@ == key@,
                None => forall|i: int| 0 <= i < self.keys@.len() ==> self.keys@[i]@ != key@,
            },
    {
        let mut i: usize = 0;
        while i < self.keys.len()
            invariant
                i <= self.keys@.len(),
                forall|j: int| 0 <= j < i ==> self.keys@[j]@ != key@,
            decreases self.keys@.len() - i,
        {
            if self.keys[i].as_str().eq(key) {
                return Some(i);
            }
            i += 1;
        }
        None
    }

    /// Whether an entry has the key `key`.
    pub fn contains_key(&self, key: &str) -> (r: bool)
        ensures
            r == has_key(self.rows(), key@),
    {
        let found = self.position(key);
        proof {
            if found is Some {
                assert(self.rows()[found->0 as int].0 == key@);
            }
        }
        found.is_some()
    }

    /// The value of the entry with the key `key`.
    pub fn get(&self, key: &str) -> (r: Option<&V>)
        ensures
            r is Some <==> has_key(self.rows(), key@),
            r is Some ==> self.rows().contains((key@, *r->0)),
    {
        proof {
            use_type_invariant(self);
        }
        match self.position(key) {
            Some(i) => {
                assert(self.rows()[i as int] == (key@, self.values@[i as int]));
                Some(&self.values[i])
            },
            None => None,
        }
    }

    /// The key of the entry at `index`, where there is one.
    pub fn key_at(&self, index: usize) -> (r: Option<&String>)
        ensures
            r is Some <==> index < self.rows().len(),
            r is Some ==> r->0@ == self.rows()[index as int].0,
    {
        if index < self.keys.len() {
            Some(&self.keys[index])
        } else {
            None
        }
    }

    /// The value of the entry at `index`, where there is one.
    pub fn value_at(&self, index: usize) -> (r: Option<&V>)
        ensures
            r is Some <==> index < self.rows().len(),
            r is Some ==> *r->0 == self.rows()[index as int].1,
    {
        proof {
            use_type_invariant(self);
        }
        if index < self.values.len() {
            Some(&self.values[index])
        } else {
            None
        }
    }

    /// Gives `key` the value `value`. Where the key had a value, that value
    /// is replaced in its place and returned; else the entry is added at
    /// the end.
    pub fn insert(&mut self, key: String, value: V) -> (r: Option<V>)
        ensures
            final(self).rows() == with_entry(old(self).rows(), key@, value),
            r is Some <==> has_key(old(self).rows(), key@),
            r is Some ==> r->0 == old(self).rows()[crate::state::first_match(
                old(self).rows(),
                keyed(key@),
            )].1,
            distinct_keys(final(self).rows()),
    {
        proof {
            use_type_invariant(&*self);
        }
        let found = self.position(key.as_str());
        proof {
            let rows = self.rows();
            let at = match found {
                Some(i) => i as int,
                None => rows.len() as int,
            };
            assert forall|j: int| 0 <= j < at implies !keyed::<V>(key@)(#[trigger] rows[j]) by {
                assert(rows[j].0 == self.keys@[j]@);
            }
            if found is Some {
                assert(rows[at].0 == self.keys@[at]@);
            }
            lemma_first_match_is(rows, keyed::<V>(key@), at);
        }
        match found {
            Some(i) => {
                assert(old(self).rows()[i as int].0 == key@);
                let mut taken = Table { keys: Vec::new(), values: Vec::new() };
                core::mem::swap(self, &mut taken);
                let mut keys = taken.keys;
                let mut values = taken.values;
                let ghost old_values = values@;
                let previous = values.remove(i);
                values.insert(i, value);
                assert(values@ =~= old_values.update(i as int, value));
                let table = Table { keys, values };
                assert(table.rows() =~= old(self).rows().update(i as int, (key@, value)));
                *self = table;
                proof {
                    use_type_invariant(&*self);
                }
                Some(previous)
            },
            None => {
                let mut taken = Table { keys: Vec::new(), values: Vec::new() };
                core::mem::swap(self, &mut taken);
                let mut keys = taken.keys;
                let mut values = taken.values;
                keys.push(key);
                values.push(value);
                let table = Table { keys, values };
                assert(table.rows() =~= old(self).rows().push((key@, value)));
                *self = table;
                proof {
                    use_type_invariant(&*self);
                }
                None
            },
        }
    }
}

} // verus!
