//! An insertion-ordered map with string keys.
//!
//! Scripts address their anchors both by name and by position: running off
//! the end of one anchor falls through to the next anchor in the order the
//! source text declared them.  The table type here keeps that order: it is
//! a list of key/value entries with distinct keys, where inserting an
//! existing key replaces the value in place and inserting a new key appends
//! it at the end.

use vstd::prelude::*;

verus! {

/// The position of the first entry with key `k`, or `-1` when no entry has
/// that key.
pub open spec fn key_index<T>(s: Seq<(Seq<char>, T)>, k: Seq<char>) -> int
    decreases s.len(),
{
    if s.len() == 0 {
        -1
    } else if s[0].0 == k {
        0
    } else {
        let r = key_index(s.drop_first(), k);
        if r == -1 {
            -1
        } else {
            r + 1
        }
    }
}

/// Whether some entry has key `k`.
pub open spec fn has_key<T>(s: Seq<(Seq<char>, T)>, k: Seq<char>) -> bool {
    key_index(s, k) >= 0
}

/// The value of the first entry with key `k`.
pub open spec fn value_of<T>(s: Seq<(Seq<char>, T)>, k: Seq<char>) -> T {
    s[key_index(s, k)].1
}

/// The table after inserting `k -> v`: replacement in place when the key is
/// present, appending otherwise.
pub open spec fn insert_entry<T>(s: Seq<(Seq<char>, T)>, k: Seq<char>, v: T) -> Seq<
    (Seq<char>, T),
> {
    if has_key(s, k) {
        s.update(key_index(s, k), (k, v))
    } else {
        s.push((k, v))
    }
}

/// The table after removing the entry with key `k`, if any.
pub open spec fn remove_entry<T>(s: Seq<(Seq<char>, T)>, k: Seq<char>) -> Seq<(Seq<char>, T)> {
    if has_key(s, k) {
        s.remove(key_index(s, k))
    } else {
        s
    }
}

/// All keys in the table are distinct.
pub open spec fn distinct_keys<T>(s: Seq<(Seq<char>, T)>) -> bool {
    forall|i: int, j: int| 0 <= i < j < s.len() ==> s[i].0 != s[j].0
}

/// `key_index` finds exactly the first entry with key `k`: it stays within
/// bounds, lands on `k`, and nothing before it has key `k`; when it is `-1`
/// no entry at all has key `k`.
pub proof fn lemma_key_index<T>(s: Seq<(Seq<char>, T)>, k: Seq<char>)
    ensures
        -1 <= key_index(s, k) < s.len(),
        key_index(s, k) >= 0 ==> s[key_index(s, k)].0 == k,
        forall|i: int| 0 <= i < s.len() && s[i].0 == k ==> key_index(s, k) >= 0,
        forall|i: int| 0 <= i < key_index(s, k) ==> s[i].0 != k,
        key_index(s, k) == -1 ==> forall|i: int| 0 <= i < s.len() ==> s[i].0 != k,
    decreases s.len(),
{
    if s.len() > 0 && s[0].0 != k {
        lemma_key_index(s.drop_first(), k);
        assert forall|i: int| 0 <= i < s.len() && s[i].0 == k implies key_index(s, k) >= 0 by {
            if i > 0 {
                assert(s.drop_first()[i - 1].0 == k);
            }
        }
        assert forall|i: int| 0 <= i < key_index(s, k) implies s[i].0 != k by {
            if i > 0 {
                assert(s.drop_first()[i - 1].0 != k);
            }
        }
        if key_index(s, k) == -1 {
            assert forall|i: int| 0 <= i < s.len() implies s[i].0 != k by {
                if i > 0 {
                    assert(s.drop_first()[i - 1].0 != k);
                }
            }
        }
    }
}

/// In a table with distinct keys, `key_index` finds any entry that is
/// present: if `s[i].0 == k` then `key_index(s, k) == i`.
pub proof fn lemma_key_index_of_present<T>(s: Seq<(Seq<char>, T)>, k: Seq<char>, i: int)
    requires
        distinct_keys(s),
        0 <= i < s.len(),
        s[i].0 == k,
    ensures
        key_index(s, k) == i,
{
    lemma_key_index(s, k);
    let r = key_index(s, k);
    if r < i {
        assert(s[r].0 == s[i].0);
    }
}

/// Insertion preserves key distinctness.
pub proof fn lemma_insert_distinct<T>(s: Seq<(Seq<char>, T)>, k: Seq<char>, v: T)
    requires
        distinct_keys(s),
    ensures
        distinct_keys(insert_entry(s, k, v)),
{
    lemma_key_index(s, k);
}

/// An insertion-ordered map from strings to values.
///
/// The view is the sequence of key/value pairs in table order, with keys as
/// character sequences and values as their deep views.
#[derive(Debug)]
pub struct StrMap<V> {
    entries: Vec<(String, V)>,
}

impl<V: DeepView> View for StrMap<V> {
    type V = Seq<(Seq<char>, V::V)>;

    closed spec fn view(&self) -> Seq<(Seq<char>, V::V)> {
        self.entries@.map_values(|e: (String, V)| (e.0@, e.1.deep_view()))
    }
}

impl<V: DeepView> DeepView for StrMap<V> {
    type V = Seq<(Seq<char>, V::V)>;

    open spec fn deep_view(&self) -> Seq<(Seq<char>, V::V)> {
        self@
    }
}

impl<V: DeepView> StrMap<V> {
    /// The keys of the table are distinct.
    pub open spec fn wf(&self) -> bool {
        distinct_keys(self@)
    }

    /// Create an empty table.
    pub fn new() -> (r: StrMap<V>)
        ensures
            r@ == Seq::<(Seq<char>, V::V)>::empty(),
            r.wf(),
    {
        let r = StrMap { entries: Vec::new() };
        proof {
            assert(r@ =~= Seq::<(Seq<char>, V::V)>::empty());
        }
        r
    }

    /// The number of entries.
    pub fn len(&self) -> (r: usize)
        ensures
            r == self@.len(),
    {
        self.entries.len()
    }

    /// The position of the entry with key `k`, if any.
    fn position(&self, k: &str) -> (r: Option<usize>)
        ensures
            match r {
                Some(i) => key_index(self@, k@) == i as int,
                None => key_index(self@, k@) == -1,
            },
    {
        proof {
            lemma_key_index(self@, k@);
        }
        let key = k.to_owned();
        let n = self.entries.len();
        let mut i: usize = 0;
        while i < n
            invariant
                n == self@.len(),
                i <= n,
                key@ == k@,
                forall|j: int| 0 <= j < i ==> self@[j].0 != k@,
                -1 <= key_index(self@, k@) < n as int,
                key_index(self@, k@) >= 0 ==> self@[key_index(self@, k@)].0 == k@,
                forall|j: int| 0 <= j < key_index(self@, k@) ==> self@[j].0 != k@,
                key_index(self@, k@) == -1 ==> forall|j: int|
                    0 <= j < self@.len() ==> self@[j].0 != k@,
            decreases n - i,
        {
            if self.entries[i].0 == key {
                proof {
                    let ki = key_index(self@, k@);
                    assert(self@[i as int].0 == k@);
                    if ki < i as int {
                        assert(self@[ki].0 != k@);
                    }
                }
                return Some(i);
            }
            i += 1;
        }
        None
    }

    /// Whether the table holds an entry for `k`.
    pub fn contains_key(&self, k: &str) -> (r: bool)
        ensures
            r == has_key(self@, k@),
    {
        self.position(k).is_some()
    }

    /// Insert `k -> v`: replace the value in place when `k` is present,
    /// append a new entry at the end otherwise.
    pub fn insert(&mut self, k: String, v: V)
        requires
            old(self).wf(),
        ensures
            final(self)@ == insert_entry(old(self)@, k@, v.deep_view()),
            final(self).wf(),
    {
        proof {
            lemma_insert_distinct(old(self)@, k@, v.deep_view());
            lemma_key_index(old(self)@, k@);
        }
        match self.position(k.as_str()) {
            Some(i) => {
                let entry = &mut self.entries[i];
                entry.0 = k;
                entry.1 = v;
                proof {
                    assert(self@ =~= insert_entry(old(self)@, k@, v.deep_view()));
                }
            },
            None => {
                self.entries.push((k, v));
                proof {
                    assert(self@ =~= insert_entry(old(self)@, k@, v.deep_view()));
                }
            },
        }
    }

    /// The value stored under `k`, if any.
    pub fn get(&self, k: &str) -> (r: Option<&V>)
        ensures
            match r {
                Some(v) => has_key(self@, k@) && v.deep_view() == value_of(self@, k@),
                None => !has_key(self@, k@),
            },
    {
        proof {
            lemma_key_index(self@, k@);
        }
        match self.position(k) {
            Some(i) => {
                proof {
                    let ents = self.entries@;
                    assert(self@[i as int] == (ents[i as int].0@, ents[i as int].1.deep_view()));
                }
                Some(&self.entries[i].1)
            },
            None => None,
        }
    }

    /// The position and value of the entry with key `k`, if any.
    pub fn get_full(&self, k: &str) -> (r: Option<(usize, &V)>)
        ensures
            match r {
                Some((i, v)) => key_index(self@, k@) == i as int && v.deep_view() == value_of(
                    self@,
                    k@,
                ),
                None => !has_key(self@, k@),
            },
    {
        proof {
            lemma_key_index(self@, k@);
        }
        match self.position(k) {
            Some(i) => {
                proof {
                    let ents = self.entries@;
                    assert(self@[i as int] == (ents[i as int].0@, ents[i as int].1.deep_view()));
                }
                Some((i, &self.entries[i].1))
            },
            None => None,
        }
    }

    /// The entry at position `i` in table order, if `i` is in range.
    pub fn get_index(&self, i: usize) -> (r: Option<(&String, &V)>)
        ensures
            match r {
                Some((key, v)) => i < self@.len() && key@ == self@[i as int].0 && v.deep_view()
                    == self@[i as int].1,
                None => i >= self@.len(),
            },
    {
        if i < self.entries.len() {
            let entry = &self.entries[i];
            Some((&entry.0, &entry.1))
        } else {
            None
        }
    }

    /// Remove the entry with key `k`, if any; later entries move up.
    pub fn remove(&mut self, k: &str)
        requires
            old(self).wf(),
        ensures
            final(self)@ == remove_entry(old(self)@, k@),
            final(self).wf(),
    {
        match self.position(k) {
            Some(i) => {
                proof {
                    lemma_key_index(old(self)@, k@);
                }
                self.entries.remove(i);
                proof {
                    assert(self@ =~= remove_entry(old(self)@, k@));
                }
            },
            None => {
            },
        }
    }

    /// A mutable reference to the value at position `i`; the key stays.
    pub fn value_at_mut(&mut self, i: usize) -> (r: &mut V)
        requires
            old(self).wf(),
            i < old(self)@.len(),
        ensures
            (*r).deep_view() == old(self)@[i as int].1,
            final(self)@ == old(self)@.update(
                i as int,
                (old(self)@[i as int].0, final(r).deep_view()),
            ),
            final(self).wf(),
    {
        proof {
            assert forall|v: V::V| distinct_keys(
                old(self)@.update(i as int, (old(self)@[i as int].0, v)),
            ) by {
                let u = old(self)@.update(i as int, (old(self)@[i as int].0, v));
                assert(forall|j: int| 0 <= j < u.len() ==> u[j].0 == old(self)@[j].0);
            }
        }
        let entry = &mut self.entries[i];
        &mut entry.1
    }

    /// Remove and return the first entry, if any.
    pub fn pop_first(&mut self) -> (r: Option<(String, V)>)
        requires
            old(self).wf(),
        ensures
            match r {
                Some((k, v)) => old(self)@.len() > 0 && k@ == old(self)@[0].0 && v.deep_view()
                    == old(self)@[0].1 && final(self)@ == old(self)@.drop_first(),
                None => old(self)@.len() == 0 && final(self)@ == old(self)@,
            },
            final(self).wf(),
    {
        if self.entries.len() > 0 {
            let e = self.entries.remove(0);
            proof {
                assert(self@ =~= old(self)@.drop_first());
            }
            Some(e)
        } else {
            None
        }
    }
}

/// Law: inserting under the same key twice keeps only the later value —
/// the table holds no duplicate and the earlier value is gone.
pub proof fn lemma_insert_overrides<T>(s: Seq<(Seq<char>, T)>, k: Seq<char>, v1: T, v2: T)
    requires
        distinct_keys(s),
    ensures
        insert_entry(insert_entry(s, k, v1), k, v2) == insert_entry(s, k, v2),
{
    lemma_key_index(s, k);
    lemma_insert_distinct(s, k, v1);
    let s1 = insert_entry(s, k, v1);
    if has_key(s, k) {
        let i = key_index(s, k);
        lemma_key_index_of_present(s1, k, i);
        assert(insert_entry(s1, k, v2) =~= insert_entry(s, k, v2));
    } else {
        lemma_key_index_of_present(s1, k, s.len() as int);
        assert(insert_entry(s1, k, v2) =~= insert_entry(s, k, v2));
    }
}

/// Law: an insertion never disturbs the entries of other keys or their
/// order: every other entry stays at its position, and a replacement
/// leaves the length unchanged.
pub proof fn lemma_insert_preserves_others<T>(s: Seq<(Seq<char>, T)>, k: Seq<char>, v: T)
    ensures
        forall|i: int|
            0 <= i < s.len() && s[i].0 != k ==> #[trigger] insert_entry(s, k, v)[i] == s[i],
        has_key(s, k) ==> insert_entry(s, k, v).len() == s.len(),
        !has_key(s, k) ==> insert_entry(s, k, v) == s.push((k, v)),
{
    lemma_key_index(s, k);
}

} // verus!
