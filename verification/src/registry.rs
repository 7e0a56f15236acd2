//! A table keyed by correlation ids (strings), used to hand responses and
//! callbacks from the message loop to whoever is waiting for them.
use vstd::prelude::*;

verus! {

/// Entries of a correlation table: at most one entry per key.
pub struct Registry<V> {
    entries: Vec<(String, V)>,
}

/// The keys of a list of entries, as character sequences.
pub open spec fn keys_unique<V>(s: Seq<(String, V)>) -> bool {
    forall|i: int, j: int| 0 <= i < j < s.len() ==> s[i].0@ != s[j].0@
}

/// Whether `k` is the key of some entry.
pub open spec fn has_key<V>(s: Seq<(String, V)>, k: Seq<char>) -> bool {
    exists|i: int| 0 <= i < s.len() && s[i].0@ == k
}

/// The map from keys to values that a list of entries with unique keys stands for.
pub open spec fn entries_map<V>(s: Seq<(String, V)>) -> Map<Seq<char>, V> {
    Map::new(
        |k: Seq<char>| has_key(s, k),
        |k: Seq<char>| s[choose|i: int| 0 <= i < s.len() && s[i].0@ == k].1,
    )
}

impl<V> Registry<V> {
    /// The table as a map from correlation id to value.
    pub closed spec fn view(&self) -> Map<Seq<char>, V> {
        entries_map(self.entries@)
    }

    /// Internal consistency: no key occurs twice.
    pub closed spec fn wf(&self) -> bool {
        keys_unique(self.entries@)
    }

    /// An empty table.
    pub fn new() -> (r: Self)
        ensures
            r.wf(),
            r.view() == Map::<Seq<char>, V>::empty(),
    {
        let r = Registry { entries: Vec::new() };
        assert(r.view() =~= Map::<Seq<char>, V>::empty());
        r
    }

    /// Number of entries.
    pub fn len(&self) -> (n: usize)
        requires
            self.wf(),
        ensures
            n == self.view().dom().len(),
    {
        proof {
            lemma_dom_len(self.entries@);
        }
        self.entries.len()
    }

    /// Index of the entry with the given key, if any.
    fn find(&self, key: &String) -> (r: Option<usize>)
        requires
            self.wf(),
        ensures
            r is None ==> !has_key(self.entries@, key@),
            r matches Some(i) ==> i < self.entries@.len() && self.entries@[i as int].0@ == key@,
    {
        let mut i: usize = 0;
        while i < self.entries.len()
            invariant
                i <= self.entries@.len(),
                forall|j: int| 0 <= j < i ==> self.entries@[j].0@ != key@,
            decreases self.entries@.len() - i,
        {
            if self.entries[i].0 == *key {
                return Some(i);
            }
            i = i + 1;
        }
        None
    }

    /// Whether the table holds an entry for `key`.
    pub fn contains_key(&self, key: &String) -> (b: bool)
        requires
            self.wf(),
        ensures
            b == self.view().dom().contains(key@),
    {
        self.find(key).is_some()
    }

    /// Stores `value` under `key`, replacing any earlier value for that key.
    pub fn insert(&mut self, key: String, value: V)
        requires
            old(self).wf(),
        ensures
            final(self).wf(),
            final(self).view() == old(self).view().insert(key@, value),
    {
        let ghost k = key@;
        match self.find(&key) {
            Some(i) => {
                let ghost old_s = self.entries@;
                self.entries.set(i, (key, value));
                proof {
                    let s = self.entries@;
                    assert(keys_unique(s)) by {
                        assert forall|a: int, b: int| 0 <= a < b < s.len() implies s[a].0@ != s[b].0@ by {
                            if a != i && b != i {
                                assert(s[a] == old_s[a] && s[b] == old_s[b]);
                            } else if a == i {
                                assert(s[b] == old_s[b]);
                            } else {
                                assert(s[a] == old_s[a]);
                            }
                        }
                    }
                    lemma_set_map(old_s, i as int, k, value, self.entries@);
                }
            },
            None => {
                let ghost old_s = self.entries@;
                self.entries.push((key, value));
                proof {
                    lemma_push_map(old_s, k, value, self.entries@);
                }
            },
        }
    }

    /// Removes and returns the value stored under `key`, if any.
    pub fn remove(&mut self, key: &String) -> (r: Option<V>)
        requires
            old(self).wf(),
        ensures
            final(self).wf(),
            final(self).view() == old(self).view().remove(key@),
            r == (if old(self).view().dom().contains(key@) {
                Some(old(self).view()[key@])
            } else {
                None::<V>
            }),
    {
        match self.find(key) {
            Some(i) => {
                let ghost old_s = self.entries@;
                proof {
                    lemma_lookup(old_s, i as int);
                }
                let (_, v) = self.entries.remove(i);
                proof {
                    lemma_remove_map(old_s, i as int, self.entries@);
                }
                Some(v)
            },
            None => {
                proof {
                    assert(self.view() =~= self.view().remove(key@));
                }
                None
            },
        }
    }
}

/// The value found for the key of entry `i` is that entry's value.
proof fn lemma_lookup<V>(s: Seq<(String, V)>, i: int)
    requires
        keys_unique(s),
        0 <= i < s.len(),
    ensures
        entries_map(s).dom().contains(s[i].0@),
        entries_map(s)[s[i].0@] == s[i].1,
{
    let k = s[i].0@;
    assert(has_key(s, k));
    let j = choose|j: int| 0 <= j < s.len() && s[j].0@ == k;
    assert(j == i);
}

proof fn lemma_dom_len<V>(s: Seq<(String, V)>)
    requires
        keys_unique(s),
    ensures
        entries_map(s).dom().finite(),
        entries_map(s).dom().len() == s.len(),
    decreases s.len(),
{
    if s.len() == 0 {
        assert(entries_map(s).dom() =~= Set::<Seq<char>>::empty());
    } else {
        let t = s.drop_last();
        lemma_dom_len(t);
        let k = s.last().0@;
        assert(entries_map(s).dom() =~= entries_map(t).dom().insert(k)) by {
            assert forall|x: Seq<char>| has_key(s, x) <==> (has_key(t, x) || x == k) by {
                if has_key(s, x) {
                    let j = choose|j: int| 0 <= j < s.len() && s[j].0@ == x;
                    if j < t.len() {
                        assert(t[j] == s[j]);
                    }
                }
                if has_key(t, x) {
                    let j = choose|j: int| 0 <= j < t.len() && t[j].0@ == x;
                    assert(s[j] == t[j]);
                }
                if x == k {
                    assert(s[s.len() - 1].0@ == x);
                }
            }
        }
        assert(!entries_map(t).dom().contains(k)) by {
            if has_key(t, k) {
                let j = choose|j: int| 0 <= j < t.len() && t[j].0@ == k;
                assert(s[j] == t[j]);
                assert(s[j].0@ == s[s.len() - 1].0@);
            }
        }
    }
}

proof fn lemma_push_map<V>(s: Seq<(String, V)>, k: Seq<char>, v: V, t: Seq<(String, V)>)
    requires
        keys_unique(s),
        !has_key(s, k),
        t.len() == s.len() + 1,
        forall|j: int| 0 <= j < s.len() ==> t[j] == s[j],
        t[s.len() as int].0@ == k,
        t[s.len() as int].1 == v,
    ensures
        keys_unique(t),
        entries_map(t) == entries_map(s).insert(k, v),
{
    assert(keys_unique(t)) by {
        assert forall|a: int, b: int| 0 <= a < b < t.len() implies t[a].0@ != t[b].0@ by {
            if b == s.len() {
                assert(t[a] == s[a]);
                if s[a].0@ == k {
                    assert(has_key(s, k));
                }
            } else {
                assert(t[a] == s[a] && t[b] == s[b]);
            }
        }
    }
    assert forall|x: Seq<char>| has_key(t, x) <==> (has_key(s, x) || x == k) by {
        if has_key(t, x) {
            let j = choose|j: int| 0 <= j < t.len() && t[j].0@ == x;
            if j < s.len() {
                assert(t[j] == s[j]);
            }
        }
        if has_key(s, x) {
            let j = choose|j: int| 0 <= j < s.len() && s[j].0@ == x;
            assert(t[j] == s[j]);
        }
        if x == k {
            assert(t[s.len() as int].0@ == x);
        }
    }
    assert(entries_map(t) =~= entries_map(s).insert(k, v)) by {
        assert forall|x: Seq<char>| #[trigger] entries_map(t).dom().contains(x) implies
            entries_map(t)[x] == entries_map(s).insert(k, v)[x] by {
            let j = choose|j: int| 0 <= j < t.len() && t[j].0@ == x;
            if x == k {
                if j < s.len() {
                    assert(t[j] == s[j]);
                    assert(has_key(s, k));
                }
            } else {
                assert(j < s.len());
                assert(t[j] == s[j]);
                lemma_lookup(s, j);
            }
        }
    }
}

proof fn lemma_set_map<V>(s: Seq<(String, V)>, i: int, k: Seq<char>, v: V, t: Seq<(String, V)>)
    requires
        keys_unique(s),
        0 <= i < s.len(),
        s[i].0@ == k,
        t.len() == s.len(),
        forall|j: int| 0 <= j < s.len() && j != i ==> t[j] == s[j],
        t[i].0@ == k,
        t[i].1 == v,
        keys_unique(t),
    ensures
        entries_map(t) == entries_map(s).insert(k, v),
{
    assert forall|x: Seq<char>| has_key(t, x) <==> has_key(s, x) by {
        if has_key(t, x) {
            let j = choose|j: int| 0 <= j < t.len() && t[j].0@ == x;
            if j != i {
                assert(t[j] == s[j]);
            } else {
                assert(s[i].0@ == x);
            }
        }
        if has_key(s, x) {
            let j = choose|j: int| 0 <= j < s.len() && s[j].0@ == x;
            if j != i {
                assert(t[j] == s[j]);
            } else {
                assert(t[i].0@ == x);
            }
        }
    }
    assert(has_key(s, k)) by {
        assert(s[i].0@ == k);
    }
    assert(entries_map(t) =~= entries_map(s).insert(k, v)) by {
        assert forall|x: Seq<char>| #[trigger] entries_map(t).dom().contains(x) implies
            entries_map(t)[x] == entries_map(s).insert(k, v)[x] by {
            let j = choose|j: int| 0 <= j < t.len() && t[j].0@ == x;
            if x == k {
                assert(j == i);
            } else {
                assert(j != i);
                assert(t[j] == s[j]);
                lemma_lookup(s, j);
            }
        }
    }
}

proof fn lemma_remove_map<V>(s: Seq<(String, V)>, i: int, t: Seq<(String, V)>)
    requires
        keys_unique(s),
        0 <= i < s.len(),
        t == s.remove(i),
    ensures
        keys_unique(t),
        entries_map(t) == entries_map(s).remove(s[i].0@),
{
    let k = s[i].0@;
    assert(keys_unique(t)) by {
        assert forall|a: int, b: int| 0 <= a < b < t.len() implies t[a].0@ != t[b].0@ by {
            let a2 = if a < i { a } else { a + 1 };
            let b2 = if b < i { b } else { b + 1 };
            assert(t[a] == s[a2] && t[b] == s[b2]);
        }
    }
    assert forall|x: Seq<char>| has_key(t, x) <==> (has_key(s, x) && x != k) by {
        if has_key(t, x) {
            let j = choose|j: int| 0 <= j < t.len() && t[j].0@ == x;
            let j2 = if j < i { j } else { j + 1 };
            assert(t[j] == s[j2]);
            assert(j2 != i);
        }
        if has_key(s, x) && x != k {
            let j = choose|j: int| 0 <= j < s.len() && s[j].0@ == x;
            assert(j != i);
            let j2 = if j < i { j } else { j - 1 };
            assert(t[j2] == s[j]);
        }
    }
    assert(entries_map(t) =~= entries_map(s).remove(k)) by {
        assert forall|x: Seq<char>| #[trigger] entries_map(t).dom().contains(x) implies
            entries_map(t)[x] == entries_map(s).remove(k)[x] by {
            let j = choose|j: int| 0 <= j < t.len() && t[j].0@ == x;
            let j2 = if j < i { j } else { j + 1 };
            assert(t[j] == s[j2]);
            lemma_lookup(s, j2);
        }
    }
}

} // verus!
