//! A small map from machine words to values, kept as an association list
//! in insertion order with pairwise-distinct keys. It backs the dispatcher
//! and profiler tables that the reference counters key by program counter
//! or function id.

use vstd::prelude::*;

verus! {

/// First index whose key is `k` in `s` at or after `i`, or -1.
pub open spec fn find_key_from<V>(s: Seq<(usize, V)>, k: usize, i: int) -> int
    decreases s.len() - i,
{
    if 0 <= i < s.len() {
        if s[i].0 == k {
            i
        } else {
            find_key_from(s, k, i + 1)
        }
    } else {
        -1
    }
}

/// The value stored under `k`, if any.
pub open spec fn spec_get<V>(s: Seq<(usize, V)>, k: usize) -> Option<V> {
    let i = find_key_from(s, k, 0);
    if i >= 0 {
        Some(s[i].1)
    } else {
        None
    }
}

/// `find_key_from` finds the first match at or after `i`, or nothing.
pub proof fn lemma_find_key_from<V>(s: Seq<(usize, V)>, k: usize, i: int)
    requires
        0 <= i <= s.len(),
    ensures
        ({
            let r = find_key_from(s, k, i);
            &&& (r == -1 ==> forall|j: int| i <= j < s.len() ==> (#[trigger] s[j]).0 != k)
            &&& (r != -1 ==> i <= r < s.len() && s[r].0 == k && forall|j: int|
                i <= j < r ==> (#[trigger] s[j]).0 != k)
        }),
    decreases s.len() - i,
{
    if i < s.len() && s[i].0 != k {
        lemma_find_key_from(s, k, i + 1);
    }
}

/// Lookups depend only on the keys and the value at the first match: two
/// lists with the same keys are found at the same index.
pub proof fn lemma_find_same_keys<V>(s1: Seq<(usize, V)>, s2: Seq<(usize, V)>, k: usize, i: int)
    requires
        0 <= i <= s1.len(),
        s1.len() == s2.len(),
        forall|j: int| 0 <= j < s1.len() ==> (#[trigger] s1[j]).0 == s2[j].0,
    ensures
        find_key_from(s2, k, i) == find_key_from(s1, k, i),
    decreases s1.len() - i,
{
    if i < s1.len() && s1[i].0 != k {
        lemma_find_same_keys(s1, s2, k, i + 1);
    }
}

/// Looking a key up in a list extended by one entry: the old entry wins
/// when present, else the new entry answers exactly for its own key.
pub proof fn lemma_find_push<V>(s: Seq<(usize, V)>, e: (usize, V), k: usize, i: int)
    requires
        0 <= i <= s.len(),
    ensures
        find_key_from(s.push(e), k, i) == if find_key_from(s, k, i) >= 0 {
            find_key_from(s, k, i)
        } else {
            if e.0 == k {
                s.len() as int
            } else {
                -1
            }
        },
    decreases s.len() - i,
{
    assert(s.push(e).len() == s.len() + 1);
    assert(s.push(e)[s.len() as int] == e);
    if i < s.len() {
        assert(s.push(e)[i] == s[i]);
        if s[i].0 != k {
            lemma_find_push(s, e, k, i + 1);
        }
    } else {
        assert(i == s.len());
        assert(find_key_from(s, k, i) == -1);
        if e.0 == k {
            assert(find_key_from(s.push(e), k, i) == i);
        } else {
            assert(find_key_from(s.push(e), k, i + 1) == -1);
            assert(find_key_from(s.push(e), k, i) == -1);
        }
    }
}

/// Pairwise-distinct keys.
pub open spec fn distinct_keys<V>(s: Seq<(usize, V)>) -> bool {
    forall|i: int, j: int|
        0 <= i < j < s.len() ==> (#[trigger] s[i]).0 != (#[trigger] s[j]).0
}

/// Replacing the value stored at a key's own entry changes that key's
/// lookup alone and keeps the keys distinct.
pub proof fn lemma_update_value<V>(s0: Seq<(usize, V)>, i: int, k: usize, v: V)
    requires
        distinct_keys(s0),
        0 <= i < s0.len(),
        s0[i].0 == k,
    ensures
        distinct_keys(s0.update(i, (k, v))),
        spec_get(s0.update(i, (k, v)), k) == Some(v),
        forall|k2: usize| k2 != k ==> spec_get(s0.update(i, (k, v)), k2) == spec_get(s0, k2),
{
    let s1 = s0.update(i, (k, v));
    assert forall|j: int| 0 <= j < s1.len() implies (#[trigger] s1[j]).0 == s0[j].0 by {
        if j != i {
            assert(s1[j] == s0[j]);
        }
    }
    assert forall|i2: int, j2: int|
        0 <= i2 < j2 < s1.len() implies (#[trigger] s1[i2]).0 != (#[trigger] s1[j2]).0 by {
        assert(s1[i2].0 == s0[i2].0);
        assert(s1[j2].0 == s0[j2].0);
    }
    lemma_find_key_from(s0, k, 0);
    lemma_find_same_keys(s0, s1, k, 0);
    assert(find_key_from(s0, k, 0) == i);
    assert forall|k2: usize| k2 != k implies spec_get(s1, k2) == spec_get(s0, k2) by {
        lemma_find_same_keys(s0, s1, k2, 0);
        lemma_find_key_from(s1, k2, 0);
        let f = find_key_from(s1, k2, 0);
        if f >= 0 {
            assert(s1[f].0 == k2);
            assert(f != i);
            assert(s1[f] == s0[f]);
        }
    }
}

/// A word-keyed map as an association list with distinct keys.
pub struct KeyMap<V> {
    pub entries: Vec<(usize, V)>,
}

impl<V> KeyMap<V> {
    /// Keys are pairwise distinct.
    pub open spec fn wf(self) -> bool {
        distinct_keys(self.entries@)
    }

    /// The value stored under `k`, if any.
    pub open spec fn get_spec(self, k: usize) -> Option<V> {
        spec_get(self.entries@, k)
    }

    /// An empty map.
    pub fn new() -> (r: Self)
        ensures
            r.wf(),
            r.entries@ == Seq::<(usize, V)>::empty(),
            forall|k: usize| r.get_spec(k) is None,
    {
        let r = KeyMap { entries: Vec::new() };
        proof {
            assert forall|k: usize| r.get_spec(k) is None by {
                lemma_find_key_from(r.entries@, k, 0);
            }
        }
        r
    }

    /// The number of keys.
    pub fn len(&self) -> (r: usize)
        ensures
            r == self.entries@.len(),
    {
        self.entries.len()
    }

    /// Whether `k` is present.
    pub fn contains_key(&self, k: usize) -> (r: bool)
        ensures
            r == (self.get_spec(k) is Some),
    {
        proof {
            lemma_find_key_from(self.entries@, k, 0);
        }
        let n = self.entries.len();
        let mut i: usize = 0;
        while i < n
            invariant
                n == self.entries@.len(),
                0 <= i <= n,
                forall|j: int| 0 <= j < i ==> (#[trigger] self.entries@[j]).0 != k,
            decreases n - i,
        {
            if self.entries[i].0 == k {
                proof {
                    lemma_find_key_from(self.entries@, k, 0);
                }
                return true;
            }
            i += 1;
        }
        false
    }

    /// The position of `k`'s entry; the key must be present.
    pub fn index_of(&self, k: usize) -> (r: usize)
        requires
            self.get_spec(k) is Some,
        ensures
            r < self.entries@.len(),
            self.entries@[r as int].0 == k,
            r == find_key_from(self.entries@, k, 0),
    {
        proof {
            lemma_find_key_from(self.entries@, k, 0);
        }
        let n = self.entries.len();
        let mut i: usize = 0;
        while i < n
            invariant
                self.get_spec(k) is Some,
                n == self.entries@.len(),
                0 <= i <= n,
                forall|j: int| 0 <= j < i ==> (#[trigger] self.entries@[j]).0 != k,
            decreases n - i,
        {
            if self.entries[i].0 == k {
                proof {
                    lemma_find_key_from(self.entries@, k, 0);
                }
                return i;
            }
            i += 1;
        }
        proof {
            lemma_find_key_from(self.entries@, k, 0);
        }
        unreached()
    }

    /// Borrow the value under `k`, if any.
    pub fn get(&self, k: usize) -> (r: Option<&V>)
        ensures
            match r {
                Some(v) => self.get_spec(k) matches Some(w) && *v == w,
                None => self.get_spec(k) is None,
            },
    {
        proof {
            lemma_find_key_from(self.entries@, k, 0);
        }
        let n = self.entries.len();
        let mut i: usize = 0;
        while i < n
            invariant
                n == self.entries@.len(),
                0 <= i <= n,
                forall|j: int| 0 <= j < i ==> (#[trigger] self.entries@[j]).0 != k,
            decreases n - i,
        {
            if self.entries[i].0 == k {
                proof {
                    lemma_find_key_from(self.entries@, k, 0);
                }
                return Some(&self.entries[i].1);
            }
            i += 1;
        }
        proof {
            lemma_find_key_from(self.entries@, k, 0);
        }
        None
    }

    /// Store `v` under `k`: replace the entry when the key is present,
    /// append a new entry when it is not. Every other key keeps its value.
    pub fn insert(&mut self, k: usize, v: V)
        requires
            old(self).wf(),
        ensures
            final(self).wf(),
            final(self).get_spec(k) == Some(v),
            forall|k2: usize| k2 != k ==> final(self).get_spec(k2) == old(self).get_spec(k2),
            final(self).entries@.len() == if old(self).get_spec(k) is Some {
                old(self).entries@.len()
            } else {
                old(self).entries@.len() + 1
            },
            old(self).get_spec(k) is None ==> final(self).entries@ == old(self).entries@.push(
                (k, v),
            ),
    {
        proof {
            lemma_find_key_from(self.entries@, k, 0);
        }
        let ghost s0 = self.entries@;
        let n = self.entries.len();
        let mut i: usize = 0;
        while i < n
            invariant
                s0 == old(self).entries@,
                old(self).wf(),
                self.entries@ == s0,
                n == s0.len(),
                0 <= i <= n,
                forall|j: int| 0 <= j < i ==> (#[trigger] s0[j]).0 != k,
            decreases n - i,
        {
            if self.entries[i].0 == k {
                proof {
                    lemma_find_key_from(s0, k, 0);
                }
                self.entries[i] = (k, v);
                proof {
                    let s1 = self.entries@;
                    assert(s1 =~= s0.update(i as int, (k, v)));
                    assert(s0[i as int].0 == k);
                    assert forall|j: int| 0 <= j < s1.len() implies (#[trigger] s1[j]).0 == s0[j].0
                        by {
                        if j != i {
                            assert(s1[j] == s0[j]);
                        }
                    }
                    assert forall|i2: int, j2: int|
                        0 <= i2 < j2 < s1.len() implies (#[trigger] s1[i2]).0 != (
                    #[trigger] s1[j2]).0 by {
                        assert(s1[i2].0 == s0[i2].0);
                        assert(s1[j2].0 == s0[j2].0);
                        assert(s0[i2].0 != s0[j2].0);
                    }
                    assert forall|k2: usize| k2 != k implies spec_get(s1, k2) == spec_get(s0, k2)
                        by {
                        lemma_find_same_keys(s0, s1, k2, 0);
                        lemma_find_key_from(s1, k2, 0);
                        let f = find_key_from(s1, k2, 0);
                        if f >= 0 {
                            assert(s1[f].0 == k2);
                            assert(f != i);
                            assert(s1[f] == s0[f]);
                        }
                    }
                    lemma_find_same_keys(s0, s1, k, 0);
                    lemma_find_key_from(s1, k, 0);
                    assert(find_key_from(s0, k, 0) == i);
                    assert(spec_get(s1, k) == Some(v));
                }
                return ;
            }
            i += 1;
        }
        proof {
            lemma_find_key_from(s0, k, 0);
            assert(spec_get(s0, k) is None);
        }
        self.entries.push((k, v));
        proof {
            let s1 = self.entries@;
            assert(s1 == s0.push((k, v)));
            lemma_find_push(s0, (k, v), k, 0);
            assert forall|k2: usize| k2 != k implies spec_get(s1, k2) == spec_get(s0, k2) by {
                lemma_find_push(s0, (k, v), k2, 0);
                if find_key_from(s0, k2, 0) >= 0 {
                    lemma_find_key_from(s0, k2, 0);
                    assert(s1[find_key_from(s0, k2, 0)] == s0[find_key_from(s0, k2, 0)]);
                }
            }
            assert forall|i2: int, j2: int|
                0 <= i2 < j2 < s1.len() implies (#[trigger] s1[i2]).0 != (#[trigger] s1[j2]).0 by {
                if j2 == s1.len() - 1 {
                    lemma_find_key_from(s0, k, 0);
                }
            }
        }
    }

    /// Remove every entry.
    pub fn clear(&mut self)
        ensures
            final(self).wf(),
            final(self).entries@ == Seq::<(usize, V)>::empty(),
            forall|k: usize| final(self).get_spec(k) is None,
    {
        self.entries.clear();
        proof {
            assert forall|k: usize| self.get_spec(k) is None by {
                lemma_find_key_from(self.entries@, k, 0);
            }
        }
    }
}

} // verus!
