//! A list of entries keyed by device id, in which no key occurs twice.
//!
//! Both tables of the agent (device states and device registrations) are maps
//! from a device id to a record. They are held as a vector of pairs whose keys
//! are pairwise distinct; the abstract view is the map from each key to its
//! value.

use vstd::prelude::*;

verus! {

/// The map that a sequence of entries stands for: later entries win.
pub open spec fn entries_to_map<V>(s: Seq<(String, V)>) -> Map<Seq<char>, V>
    decreases s.len(),
{
    if s.len() == 0 {
        Map::empty()
    } else {
        entries_to_map(s.drop_last()).insert(s.last().0@, s.last().1)
    }
}

/// No key occurs twice among the entries.
pub open spec fn keys_distinct<V>(s: Seq<(String, V)>) -> bool {
    forall|i: int, j: int|
        0 <= i < s.len() && 0 <= j < s.len() && i != j ==> #[trigger] s[i].0@ != #[trigger] s[j].0@
}

/// Dropping the last entry keeps the keys distinct.
pub proof fn lemma_keys_distinct_drop_last<V>(s: Seq<(String, V)>)
    requires
        keys_distinct(s),
        s.len() > 0,
    ensures
        keys_distinct(s.drop_last()),
{
    let t = s.drop_last();
    assert forall|a: int, b: int|
        0 <= a < t.len() && 0 <= b < t.len() && a != b implies #[trigger] t[a].0@
        != #[trigger] t[b].0@ by {
        assert(t[a] == s[a] && t[b] == s[b]);
    }
}

/// A key is in the map exactly when some entry carries it.
pub proof fn lemma_entries_dom<V>(s: Seq<(String, V)>, k: Seq<char>)
    ensures
        entries_to_map(s).dom().contains(k) <==> exists|i: int| 0 <= i < s.len() && #[trigger] s[i].0@ == k,
    decreases s.len(),
{
    if s.len() > 0 {
        let t = s.drop_last();
        lemma_entries_dom(t, k);
        if entries_to_map(t).dom().contains(k) {
            let i = choose|i: int| 0 <= i < t.len() && #[trigger] t[i].0@ == k;
            assert(s[i].0@ == k);
        }
        if exists|i: int| 0 <= i < s.len() && #[trigger] s[i].0@ == k {
            let i = choose|i: int| 0 <= i < s.len() && #[trigger] s[i].0@ == k;
            if i < s.len() - 1 {
                assert(t[i].0@ == k);
            }
        }
    }
}

/// With distinct keys, each entry's key maps to that entry's value.
pub proof fn lemma_entries_value<V>(s: Seq<(String, V)>, i: int)
    requires
        keys_distinct(s),
        0 <= i < s.len(),
    ensures
        entries_to_map(s).dom().contains(s[i].0@),
        entries_to_map(s)[s[i].0@] == s[i].1,
    decreases s.len(),
{
    let t = s.drop_last();
    if i < s.len() - 1 {
        lemma_keys_distinct_drop_last(s);
        lemma_entries_value(t, i);
        assert(t[i] == s[i]);
        assert(s[i].0@ != s[s.len() - 1].0@);
    }
}

/// With distinct keys, the map has as many keys as there are entries.
pub proof fn lemma_entries_len<V>(s: Seq<(String, V)>)
    requires
        keys_distinct(s),
    ensures
        entries_to_map(s).dom().finite(),
        entries_to_map(s).len() == s.len(),
    decreases s.len(),
{
    if s.len() > 0 {
        let t = s.drop_last();
        lemma_keys_distinct_drop_last(s);
        lemma_entries_len(t);
        let k = s.last().0@;
        lemma_entries_dom(t, k);
        if entries_to_map(t).dom().contains(k) {
            let i = choose|i: int| 0 <= i < t.len() && #[trigger] t[i].0@ == k;
            assert(s[i].0@ == s[s.len() - 1].0@);
        }
    }
}

/// Replacing the value of an entry is an insert of that key in the map.
pub proof fn lemma_entries_update<V>(s: Seq<(String, V)>, i: int, e: (String, V))
    requires
        keys_distinct(s),
        0 <= i < s.len(),
        e.0@ == s[i].0@,
    ensures
        keys_distinct(s.update(i, e)),
        entries_to_map(s.update(i, e)) == entries_to_map(s).insert(e.0@, e.1),
{
    let u = s.update(i, e);
    assert(keys_distinct(u)) by {
        assert forall|a: int, b: int|
            0 <= a < u.len() && 0 <= b < u.len() && a != b implies #[trigger] u[a].0@
            != #[trigger] u[b].0@ by {
            assert(u[a].0@ == s[a].0@ && u[b].0@ == s[b].0@);
        }
    }
    let m1 = entries_to_map(u);
    let m2 = entries_to_map(s).insert(e.0@, e.1);
    assert forall|k: Seq<char>| m1.dom().contains(k) <==> m2.dom().contains(k) by {
        lemma_entries_dom(u, k);
        lemma_entries_dom(s, k);
        if exists|j: int| 0 <= j < s.len() && #[trigger] s[j].0@ == k {
            let j = choose|j: int| 0 <= j < s.len() && #[trigger] s[j].0@ == k;
            assert(u[j].0@ == k);
        }
        if exists|j: int| 0 <= j < u.len() && #[trigger] u[j].0@ == k {
            let j = choose|j: int| 0 <= j < u.len() && #[trigger] u[j].0@ == k;
            assert(s[j].0@ == k);
        }
    }
    assert forall|k: Seq<char>| #[trigger] m1.dom().contains(k) implies m1[k] == m2[k] by {
        lemma_entries_dom(u, k);
        let j = choose|j: int| 0 <= j < u.len() && #[trigger] u[j].0@ == k;
        lemma_entries_value(u, j);
        if j != i {
            lemma_entries_value(s, j);
            assert(s[j].0@ == k);
        }
    }
    assert(m1 =~= m2);
}

/// Appending an entry whose key is new is an insert of that key in the map.
pub proof fn lemma_entries_push<V>(s: Seq<(String, V)>, e: (String, V))
    requires
        keys_distinct(s),
        !entries_to_map(s).dom().contains(e.0@),
    ensures
        keys_distinct(s.push(e)),
        entries_to_map(s.push(e)) == entries_to_map(s).insert(e.0@, e.1),
{
    let u = s.push(e);
    assert(u.drop_last() =~= s);
    assert(keys_distinct(u)) by {
        assert forall|a: int, b: int|
            0 <= a < u.len() && 0 <= b < u.len() && a != b implies #[trigger] u[a].0@
            != #[trigger] u[b].0@ by {
            if a == s.len() as int {
                lemma_entries_dom(s, e.0@);
                assert(s[b].0@ == u[b].0@);
            } else if b == s.len() as int {
                lemma_entries_dom(s, e.0@);
                assert(s[a].0@ == u[a].0@);
            } else {
                assert(s[a] == u[a] && s[b] == u[b]);
            }
        }
    }
}

/// A map from device id to a record, kept as entries with distinct keys.
pub struct KeyedList<V> {
    entries: Vec<(String, V)>,
}

impl<V> View for KeyedList<V> {
    type V = Map<Seq<char>, V>;

    /// The map from each key to its value.
    open spec fn view(&self) -> Map<Seq<char>, V> {
        entries_to_map(self.entries())
    }
}

impl<V> KeyedList<V> {
    /// The entries, in the order in which their keys were first inserted.
    pub closed spec fn entries(&self) -> Seq<(String, V)> {
        self.entries@
    }

    /// No key occurs twice.
    pub closed spec fn wf(&self) -> bool {
        keys_distinct(self.entries@)
    }

    /// What the entries say of the map: its keys are the entries' keys, each
    /// with its entry's value, and there are as many keys as entries.
    pub proof fn lemma_view(&self)
        requires
            self.wf(),
        ensures
            keys_distinct(self.entries()),
            self.view().dom().finite(),
            self.view().len() == self.entries().len(),
            forall|i: int|
                0 <= i < self.entries().len() ==> #[trigger] self.view().dom().contains(
                    self.entries()[i].0@,
                ) && self.view()[self.entries()[i].0@] == self.entries()[i].1,
            forall|k: Seq<char>|
                #[trigger] self.view().dom().contains(k) ==> exists|i: int|
                    0 <= i < self.entries().len() && #[trigger] self.entries()[i].0@ == k,
    {
        lemma_entries_len(self.entries@);
        assert forall|i: int| 0 <= i < self.entries().len() implies #[trigger] self.view().dom().contains(
            self.entries()[i].0@,
        ) && self.view()[self.entries()[i].0@] == self.entries()[i].1 by {
            lemma_entries_value(self.entries@, i);
        }
        assert forall|k: Seq<char>| #[trigger] self.view().dom().contains(k) implies exists|i: int|
            0 <= i < self.entries().len() && #[trigger] self.entries()[i].0@ == k by {
            lemma_entries_dom(self.entries@, k);
        }
    }

    /// An empty list.
    pub fn new() -> (list: Self)
        ensures
            list.wf(),
            list.view() == Map::<Seq<char>, V>::empty(),
            list.entries().len() == 0,
    {
        KeyedList { entries: Vec::new() }
    }

    /// Number of keys.
    pub fn len(&self) -> (n: usize)
        requires
            self.wf(),
        ensures
            n == self.view().len(),
            n == self.entries().len(),
            self.view().dom().finite(),
    {
        proof {
            lemma_entries_len(self.entries@);
        }
        self.entries.len()
    }

    /// The entry at a position.
    pub fn entry_at(&self, i: usize) -> (e: &(String, V))
        requires
            i < self.entries().len(),
        ensures
            *e == self.entries()[i as int],
    {
        &self.entries[i]
    }

    /// The position of the entry whose key is `key`, if any.
    pub fn find(&self, key: &str) -> (pos: Option<usize>)
        requires
            self.wf(),
        ensures
            match pos {
                Some(i) => i < self.entries().len() && self.entries()[i as int].0@ == key@,
                None => !self.view().dom().contains(key@),
            },
    {
        let n = self.entries.len();
        let target = String::from_str(key);
        let mut i: usize = 0;
        while i < n
            invariant
                n == self.entries@.len(),
                i <= n,
                target@ == key@,
                forall|j: int| 0 <= j < i ==> #[trigger] self.entries@[j].0@ != key@,
            decreases n - i,
        {
            if self.entries[i].0 == target {
                return Some(i);
            }
            i = i + 1;
        }
        proof {
            lemma_entries_dom(self.entries@, key@);
        }
        None
    }

    /// The value stored under `key`, if any.
    pub fn get(&self, key: &str) -> (value: Option<&V>)
        requires
            self.wf(),
        ensures
            match value {
                Some(v) => self.view().dom().contains(key@) && *v == self.view()[key@],
                None => !self.view().dom().contains(key@),
            },
    {
        match self.find(key) {
            Some(i) => {
                proof {
                    lemma_entries_value(self.entries@, i as int);
                }
                Some(&self.entries[i].1)
            },
            None => None,
        }
    }

    /// Store `value` under `key`, replacing the value that was there.
    pub fn insert(&mut self, key: String, value: V)
        requires
            old(self).wf(),
        ensures
            final(self).wf(),
            final(self).view() == old(self).view().insert(key@, value),
    {
        match self.find(key.as_str()) {
            Some(i) => {
                proof {
                    lemma_entries_update(self.entries@, i as int, (key, value));
                }
                self.entries[i] = (key, value);
            },
            None => {
                proof {
                    lemma_entries_push(self.entries@, (key, value));
                }
                self.entries.push((key, value));
            },
        }
    }
}

} // verus!
