use vstd::prelude::*;

verus! {

/// Whether some entry of `s` carries the key `k`.
pub open spec fn seq_has_key<V>(s: Seq<(String, V)>, k: Seq<char>) -> bool {
    exists|i: int| 0 <= i < s.len() && s[i].0@ == k
}

/// The index of the entry of `s` that carries the key `k` (meaningful only
/// when such an entry exists; unique when the keys of `s` are unique).
pub open spec fn seq_key_at<V>(s: Seq<(String, V)>, k: Seq<char>) -> int {
    choose|i: int| 0 <= i < s.len() && s[i].0@ == k
}

/// No two entries of `s` carry the same key.
pub open spec fn unique_keys<V>(s: Seq<(String, V)>) -> bool {
    forall|i: int, j: int| 0 <= i < j < s.len() ==> s[i].0@ != s[j].0@
}

/// The finite map that a sequence of keyed entries denotes.
pub open spec fn entries_map<V: DeepView>(s: Seq<(String, V)>) -> Map<Seq<char>, V::V> {
    Map::new(
        |k: Seq<char>| seq_has_key(s, k),
        |k: Seq<char>| s[seq_key_at(s, k)].1.deep_view(),
    )
}

/// With unique keys, an entry's index is the one `seq_key_at` picks.
proof fn lemma_key_at<V: DeepView>(s: Seq<(String, V)>, i: int, k: Seq<char>)
    requires
        unique_keys(s),
        0 <= i < s.len(),
        s[i].0@ == k,
    ensures
        seq_has_key(s, k),
        seq_key_at(s, k) == i,
{
    assert(seq_has_key(s, k));
    let j = seq_key_at(s, k);
    if i < j {
        assert(s[i].0@ != s[j].0@);
    } else if j < i {
        assert(s[j].0@ != s[i].0@);
    }
}

/// Appending an entry under a fresh key inserts it into the denoted map.
proof fn lemma_push<V: DeepView>(s: Seq<(String, V)>, key: String, value: V)
    requires
        unique_keys(s),
        !seq_has_key(s, key@),
    ensures
        unique_keys(s.push((key, value))),
        entries_map(s.push((key, value))) == entries_map(s).insert(key@, value.deep_view()),
{
    let t = s.push((key, value));
    assert forall|i: int, j: int| 0 <= i < j < t.len() implies t[i].0@ != t[j].0@ by {
        if j < s.len() {
            assert(s[i].0@ != s[j].0@);
        } else {
            assert(t[j] == (key, value));
            assert(t[i] == s[i]);
            if s[i].0@ == key@ {
                assert(seq_has_key(s, key@));
            }
        }
    }
    let m1 = entries_map(t);
    let m2 = entries_map(s).insert(key@, value.deep_view());
    assert forall|k: Seq<char>| m1.dom().contains(k) <==> m2.dom().contains(k) by {
        if seq_has_key(t, k) {
            let i = seq_key_at(t, k);
            assert(0 <= i < t.len() && t[i].0@ == k);
            if i < s.len() {
                assert(s[i].0@ == k);
                assert(seq_has_key(s, k));
            } else {
                assert(k == key@);
            }
        }
        if seq_has_key(s, k) {
            let i = seq_key_at(s, k);
            assert(t[i].0@ == k);
            assert(seq_has_key(t, k));
        }
        if k == key@ {
            assert(t[s.len() as int].0@ == k);
            assert(seq_has_key(t, k));
        }
    }
    assert forall|k: Seq<char>| m1.dom().contains(k) implies m1[k] == m2[k] by {
        if k == key@ {
            lemma_key_at(t, s.len() as int, k);
            assert(m1[k] == value.deep_view());
        } else {
            assert(seq_has_key(t, k));
            let i = seq_key_at(t, k);
            assert(0 <= i < t.len() && t[i].0@ == k);
            assert(i < s.len());
            lemma_key_at(t, i, k);
            lemma_key_at(s, i, k);
            assert(m1[k] == t[i].1.deep_view());
            assert(m2[k] == s[i].1.deep_view());
        }
    }
    assert(m1 =~= m2);
}

/// Removing the entry at an index removes its key from the denoted map.
proof fn lemma_remove<V: DeepView>(s: Seq<(String, V)>, i: int)
    requires
        unique_keys(s),
        0 <= i < s.len(),
    ensures
        unique_keys(s.remove(i)),
        entries_map(s.remove(i)) == entries_map(s).remove(s[i].0@),
{
    let t = s.remove(i);
    let key = s[i].0@;
    s.remove_ensures(i);
    assert forall|a: int, b: int| 0 <= a < b < t.len() implies t[a].0@ != t[b].0@ by {
        let a0: int = if a < i { a } else { a + 1 };
        let b0: int = if b < i { b } else { b + 1 };
        assert(t[a] == s[a0]);
        assert(t[b] == s[b0]);
        assert(s[a0].0@ != s[b0].0@);
    }
    let m1 = entries_map(t);
    let m2 = entries_map(s).remove(key);
    assert forall|k: Seq<char>| m1.dom().contains(k) <==> m2.dom().contains(k) by {
        if seq_has_key(t, k) {
            let a = seq_key_at(t, k);
            assert(0 <= a < t.len() && t[a].0@ == k);
            let a0: int = if a < i { a } else { a + 1 };
            assert(s[a0].0@ == k);
            assert(seq_has_key(s, k));
            if k == key {
                if a0 < i {
                    assert(s[a0].0@ != s[i].0@);
                } else {
                    assert(s[i].0@ != s[a0].0@);
                }
            }
        }
        if seq_has_key(s, k) && k != key {
            let a0 = seq_key_at(s, k);
            assert(0 <= a0 < s.len() && s[a0].0@ == k);
            let a: int = if a0 < i { a0 } else { a0 - 1 };
            if a0 != i {
                assert(t[a] == s[a0]);
                assert(seq_has_key(t, k));
            }
        }
    }
    assert forall|k: Seq<char>| m1.dom().contains(k) implies m1[k] == m2[k] by {
        assert(seq_has_key(t, k));
        let a = seq_key_at(t, k);
        assert(0 <= a < t.len() && t[a].0@ == k);
        let a0: int = if a < i { a } else { a + 1 };
        assert(t[a] == s[a0]);
        lemma_key_at(t, a, k);
        lemma_key_at(s, a0, k);
        assert(m1[k] == t[a].1.deep_view());
        assert(m2[k] == s[a0].1.deep_view());
    }
    assert(m1 =~= m2);
}

/// The map denoted by a raw pair list read front to back, a later entry for a
/// key overriding an earlier one.
pub open spec fn pairs_map<V: DeepView>(s: Seq<(String, V)>) -> Map<Seq<char>, V::V>
    decreases s.len(),
{
    if s.len() == 0 {
        Map::empty()
    } else {
        pairs_map(s.drop_last()).insert(s.last().0@, s.last().1.deep_view())
    }
}

/// A keyed table: the persistent keyed map/list abstraction that backs the
/// identity registry and the three escrow ledgers. Keys are opaque strings,
/// compared exactly, never normalized; the mathematical view is a finite map
/// from key characters to the deep view of the stored value.
pub struct Table<V> {
    entries: Vec<(String, V)>,
}

impl<V: DeepView> View for Table<V> {
    type V = Map<Seq<char>, V::V>;

    closed spec fn view(&self) -> Map<Seq<char>, V::V> {
        entries_map(self.entries@)
    }
}

impl<V: DeepView> Table<V> {
    /// Internal validity: no key occurs twice.
    pub closed spec fn wf(self) -> bool {
        unique_keys(self.entries@)
    }

    /// An empty table.
    pub fn new() -> (r: Self)
        ensures
            r.wf(),
            r@ == Map::<Seq<char>, V::V>::empty(),
    {
        let r = Table { entries: Vec::new() };
        proof {
            assert(r@ =~= Map::<Seq<char>, V::V>::empty());
        }
        r
    }

    /// The position of the entry that carries `key`, if any.
    fn index_of(&self, key: &String) -> (r: Option<usize>)
        requires
            self.wf(),
        ensures
            match r {
                Some(i) => i < self.entries@.len() && self.entries@[i as int].0@ == key@,
                None => !self@.dom().contains(key@),
            },
    {
        let n = self.entries.len();
        let mut i: usize = 0;
        while i < n
            invariant
                n == self.entries@.len(),
                i <= n,
                forall|j: int| 0 <= j < i ==> self.entries@[j].0@ != key@,
            decreases n - i,
        {
            if self.entries[i].0 == *key {
                return Some(i);
            }
            i += 1;
        }
        None
    }

    /// Pure lookup.
    pub fn get<'a>(&'a self, key: &String) -> (r: Option<&'a V>)
        requires
            self.wf(),
        ensures
            match r {
                Some(v) => self@.dom().contains(key@) && v.deep_view() == self@[key@],
                None => !self@.dom().contains(key@),
            },
    {
        match self.index_of(key) {
            Some(i) => {
                proof {
                    lemma_key_at(self.entries@, i as int, key@);
                }
                Some(&self.entries[i].1)
            },
            None => None,
        }
    }

    /// Store `value` under `key`, replacing any entry the key already had.
    pub fn set(&mut self, key: String, value: V)
        requires
            old(self).wf(),
        ensures
            final(self).wf(),
            final(self)@ == old(self)@.insert(key@, value.deep_view()),
    {
        let ghost s0 = self.entries@;
        match self.index_of(&key) {
            Some(i) => {
                self.entries.remove(i);
                proof {
                    lemma_remove(s0, i as int);
                    assert(!seq_has_key(self.entries@, key@)) by {
                        assert(!entries_map(self.entries@).dom().contains(key@));
                    }
                }
            },
            None => {
                proof {
                    assert(!seq_has_key(self.entries@, key@));
                }
            },
        }
        let ghost s1 = self.entries@;
        proof {
            lemma_push(s1, key, value);
        }
        self.entries.push((key, value));
        proof {
            assert(final(self)@ =~= old(self)@.insert(key@, value.deep_view()));
        }
    }

    /// Rebuild a table from a raw pair list, as a host hands one back from
    /// persistent storage; a later entry for a key overrides an earlier one.
    pub fn from_pairs(pairs: Vec<(String, V)>) -> (r: Self)
        ensures
            r.wf(),
            r@ == pairs_map(pairs@),
    {
        let ghost orig = pairs@;
        let mut rest = pairs;
        let mut t = Table::new();
        let ghost mut i: int = 0;
        while rest.len() > 0
            invariant
                t.wf(),
                0 <= i <= orig.len(),
                rest@ =~= orig.skip(i),
                t@ == pairs_map(orig.take(i)),
            decreases rest@.len(),
        {
            let ghost rest0 = rest@;
            let (k, v) = rest.remove(0);
            proof {
                assert(rest0[0] == orig[i]);
                assert(rest@ =~= orig.skip(i + 1));
                assert(orig.take(i + 1).drop_last() =~= orig.take(i));
                assert(orig.take(i + 1).last() == orig[i]);
            }
            t.set(k, v);
            proof {
                i = i + 1;
            }
        }
        proof {
            assert(orig.take(i) =~= orig);
        }
        t
    }

    /// The raw pair list under this table, for a host that persists it.
    pub fn entries(&self) -> (r: &Vec<(String, V)>)
        requires
            self.wf(),
        ensures
            unique_keys(r@),
            entries_map(r@) == self@,
    {
        &self.entries
    }

    /// Discard the entry under `key`, if any.
    pub fn remove(&mut self, key: &String)
        requires
            old(self).wf(),
        ensures
            final(self).wf(),
            final(self)@ == old(self)@.remove(key@),
    {
        match self.index_of(key) {
            Some(i) => {
                proof {
                    lemma_remove(self.entries@, i as int);
                }
                self.entries.remove(i);
            },
            None => {
                proof {
                    assert(old(self)@ =~= old(self)@.remove(key@));
                }
            },
        }
    }
}

} // verus!
