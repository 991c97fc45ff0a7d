//! Small keyed tables: a vector of entries with distinct keys, standing for
//! a map from key to entry. The engine keeps its threads, modules and saved
//! register contexts in them.

use vstd::prelude::*;

verus! {

/// An entry that carries its own key.
pub trait Keyed {
    /// The entry's key.
    spec fn key(&self) -> u64;

    /// Returns the entry's key.
    fn key_of(&self) -> (r: u64)
        ensures
            r == self.key(),
    ;
}

/// Position of the last entry with key `k`, or -1 when there is none.
pub open spec fn key_index<T: Keyed>(s: Seq<T>, k: u64) -> int
    decreases s.len(),
{
    if s.len() == 0 {
        -1
    } else if s.last().key() == k {
        s.len() - 1
    } else {
        key_index(s.drop_last(), k)
    }
}

/// No two entries share a key.
pub open spec fn keys_unique<T: Keyed>(s: Seq<T>) -> bool {
    forall|i: int, j: int| 0 <= i < j < s.len() ==> #[trigger] s[i].key() != #[trigger] s[j].key()
}

/// The entry stored under `k`.
pub open spec fn table_get<T: Keyed>(s: Seq<T>, k: u64) -> Option<T> {
    let i = key_index(s, k);
    if i >= 0 {
        Some(s[i])
    } else {
        None
    }
}

/// The entries after storing `t` under its key: it replaces the entry with
/// that key in place, or is appended when there is none.
pub open spec fn table_put<T: Keyed>(s: Seq<T>, t: T) -> Seq<T> {
    let i = key_index(s, t.key());
    if i >= 0 {
        s.update(i, t)
    } else {
        s.push(t)
    }
}

/// The entries after removing the one stored under `k`, if any.
pub open spec fn table_delete<T: Keyed>(s: Seq<T>, k: u64) -> Seq<T> {
    let i = key_index(s, k);
    if i >= 0 {
        s.remove(i)
    } else {
        s
    }
}

/// What `key_index` finds: a position holding the key, or -1 exactly when
/// no entry has it; with distinct keys it is the only such position.
pub proof fn lemma_key_index<T: Keyed>(s: Seq<T>, k: u64)
    ensures
        -1 <= key_index(s, k) < s.len(),
        key_index(s, k) >= 0 ==> s[key_index(s, k)].key() == k,
        key_index(s, k) == -1 <==> forall|j: int| 0 <= j < s.len() ==> #[trigger] s[j].key() != k,
        keys_unique(s) ==> forall|j: int| 0 <= j < s.len() && #[trigger] s[j].key() == k ==> j
            == key_index(s, k),
    decreases s.len(),
{
    if s.len() > 0 {
        let t = s.drop_last();
        lemma_key_index(t, k);
        if s.last().key() != k {
            assert forall|j: int| 0 <= j < t.len() implies #[trigger] t[j].key() == s[j].key() by {}
            if key_index(s, k) == -1 {
                assert forall|j: int| 0 <= j < s.len() implies #[trigger] s[j].key() != k by {
                    if j < t.len() {
                        assert(t[j].key() != k);
                    }
                }
            }
            if keys_unique(s) {
                assert(keys_unique(t)) by {
                    assert forall|a: int, b: int| 0 <= a < b < t.len() implies #[trigger] t[a].key()
                        != #[trigger] t[b].key() by {
                        assert(s[a].key() != s[b].key());
                    }
                }
                assert forall|j: int| 0 <= j < s.len() && #[trigger] s[j].key() == k implies j
                    == key_index(s, k) by {
                    assert(t[j].key() == k);
                }
            }
        } else {
            if keys_unique(s) {
                assert forall|j: int| 0 <= j < s.len() && #[trigger] s[j].key() == k implies j
                    == key_index(s, k) by {
                    if j < s.len() - 1 {
                        assert(s[j].key() != s[s.len() - 1].key());
                    }
                }
            }
        }
    }
}

/// Storing an entry keeps keys distinct.
pub proof fn lemma_put_unique<T: Keyed>(s: Seq<T>, t: T)
    requires
        keys_unique(s),
    ensures
        keys_unique(table_put(s, t)),
{
    lemma_key_index(s, t.key());
    let u = table_put(s, t);
    assert forall|a: int, b: int| 0 <= a < b < u.len() implies #[trigger] u[a].key() != #[trigger] u[b].key() by {
        let i = key_index(s, t.key());
        if i >= 0 {
            if a == i {
                assert(s[b].key() != s[i].key());
            } else if b == i {
                assert(s[a].key() != s[i].key());
            } else {
                assert(s[a].key() != s[b].key());
            }
        } else {
            if b == s.len() {
                assert(s[a].key() != t.key());
            } else {
                assert(s[a].key() != s[b].key());
            }
        }
    }
}

/// Removing an entry keeps keys distinct and leaves no entry under `k`.
pub proof fn lemma_delete_unique<T: Keyed>(s: Seq<T>, k: u64)
    requires
        keys_unique(s),
    ensures
        keys_unique(table_delete(s, k)),
        table_get(table_delete(s, k), k) is None,
{
    lemma_key_index(s, k);
    let u = table_delete(s, k);
    let i = key_index(s, k);
    assert forall|a: int, b: int| 0 <= a < b < u.len() implies #[trigger] u[a].key() != #[trigger] u[b].key() by {
        if i >= 0 {
            let a2 = if a < i { a } else { a + 1 };
            let b2 = if b < i { b } else { b + 1 };
            assert(s[a2].key() != s[b2].key());
        } else {
            assert(s[a].key() != s[b].key());
        }
    }
    lemma_key_index(u, k);
    assert forall|j: int| 0 <= j < u.len() implies #[trigger] u[j].key() != k by {
        if i >= 0 {
            let j2 = if j < i { j } else { j + 1 };
            assert(s[j2].key() == u[j].key());
        }
    }
}

/// A vector of entries with distinct keys.
#[derive(Debug, Clone)]
pub struct Table<T> {
    entries: Vec<T>,
}

impl<T: Keyed> View for Table<T> {
    type V = Seq<T>;

    /// The entries, in the order they were first stored.
    closed spec fn view(&self) -> Seq<T> {
        self.entries@
    }
}

impl<T: Keyed> Table<T> {
    /// Keys are distinct.
    pub open spec fn wf(&self) -> bool {
        keys_unique(self@)
    }

    /// An empty table.
    pub fn new() -> (r: Self)
        ensures
            r@ == Seq::<T>::empty(),
            r.wf(),
    {
        Table { entries: Vec::new() }
    }

    /// The entries, in the order they were first stored.
    pub fn entries(&self) -> (r: &[T])
        ensures
            r@ == self@,
    {
        self.entries.as_slice()
    }

    /// Position of the entry stored under `k`.
    pub fn find(&self, k: u64) -> (r: Option<usize>)
        ensures
            r matches Some(i) ==> i == key_index(self@, k),
            r is None <==> key_index(self@, k) == -1,
    {
        proof {
            lemma_key_index(self@, k);
        }
        let mut i: usize = self.entries.len();
        assert(self.entries@.take(i as int) =~= self.entries@);
        while i > 0
            invariant
                i <= self.entries@.len(),
                key_index(self.entries@, k) == key_index(self.entries@.take(i as int), k),
            decreases i,
        {
            let j = i - 1;
            let ghost pre = self.entries@.take(i as int);
            assert(pre.drop_last() =~= self.entries@.take(j as int));
            if self.entries[j].key_of() == k {
                return Some(j);
            }
            i = j;
        }
        proof {
            assert(self.entries@.take(0) =~= Seq::<T>::empty());
        }
        None
    }

    /// The entry stored under `k`.
    pub fn get(&self, k: u64) -> (r: Option<&T>)
        ensures
            r matches Some(x) ==> table_get(self@, k) == Some(*x),
            r is None <==> table_get(self@, k) is None,
    {
        proof {
            lemma_key_index(self@, k);
        }
        match self.find(k) {
            Some(i) => Some(&self.entries[i]),
            None => None,
        }
    }

    /// Stores `t` under its key.
    pub fn put(&mut self, t: T)
        requires
            old(self).wf(),
        ensures
            final(self).wf(),
            final(self)@ == table_put(old(self)@, t),
    {
        proof {
            lemma_put_unique(self@, t);
            lemma_key_index(self@, t.key());
        }
        let k = t.key_of();
        match self.find(k) {
            Some(i) => {
                self.entries.set(i, t);
            },
            None => {
                self.entries.push(t);
            },
        }
    }

    /// Removes the entry stored under `k`, returning it.
    pub fn delete(&mut self, k: u64) -> (r: Option<T>)
        requires
            old(self).wf(),
        ensures
            final(self).wf(),
            final(self)@ == table_delete(old(self)@, k),
            r == table_get(old(self)@, k),
    {
        proof {
            lemma_delete_unique(self@, k);
            lemma_key_index(self@, k);
        }
        match self.find(k) {
            Some(i) => {
                let t = self.entries.remove(i);
                Some(t)
            },
            None => None,
        }
    }
}

} // verus!
