//! Sparse address-keyed storage.
//!
//! The bus regions, the load/store backing store and the stack are all
//! sparse mappings from addresses to owned values.  Unmapped addresses are
//! defined to read back as absent, which callers turn into an all-zero
//! vector; this permissiveness is part of the bus contract.

use vstd::prelude::*;

use crate::fx::fx_copy;

verus! {

/// First-match lookup over an association list.
pub open spec fn lookup_at<K, V>(s: Seq<(K, V)>, k: K) -> Option<V>
    decreases s.len(),
{
    if s.len() == 0 {
        None
    } else if s[0].0 == k {
        Some(s[0].1)
    } else {
        lookup_at(s.skip(1), k)
    }
}

/// Skipping past entries whose keys all differ from `k` does not change the
/// lookup result.
pub proof fn lemma_lookup_skip<K, V>(s: Seq<(K, V)>, k: K, i: int)
    requires
        0 <= i <= s.len(),
        forall|j: int| 0 <= j < i ==> (#[trigger] s[j]).0 != k,
    ensures
        lookup_at(s, k) == lookup_at(s.skip(i), k),
    decreases i,
{
    if i > 0 {
        assert(s[0].0 != k);
        assert forall|j: int| 0 <= j < i - 1 implies (#[trigger] s.skip(1)[j]).0 != k by {
            assert(s.skip(1)[j] == s[j + 1]);
        }
        lemma_lookup_skip(s.skip(1), k, i - 1);
        assert(s.skip(1).skip(i - 1) =~= s.skip(i));
    } else {
        assert(s.skip(0) =~= s);
    }
}

/// Overwriting the first entry that carries `k` changes the lookup for `k`
/// and for no other key.
pub proof fn lemma_lookup_update<K, V>(s: Seq<(K, V)>, k: K, v: V, i: int)
    requires
        0 <= i < s.len(),
        s[i].0 == k,
        forall|j: int| 0 <= j < i ==> (#[trigger] s[j]).0 != k,
    ensures
        lookup_at(s.update(i, (k, v)), k) == Some(v),
        forall|k2: K| k2 != k ==> lookup_at(s.update(i, (k, v)), k2) == lookup_at(s, k2),
    decreases i,
{
    let t = s.update(i, (k, v));
    if i == 0 {
        assert(t.skip(1) =~= s.skip(1));
        assert(t[0] == (k, v));
        assert forall|k2: K| k2 != k implies lookup_at(t, k2) == lookup_at(s, k2) by {
            assert(lookup_at(t, k2) == lookup_at(t.skip(1), k2));
            assert(lookup_at(s, k2) == lookup_at(s.skip(1), k2));
        }
    } else {
        assert(t.skip(1) =~= s.skip(1).update(i - 1, (k, v)));
        lemma_lookup_update(s.skip(1), k, v, i - 1);
        assert(t[0] == s[0]);
        assert(s[0].0 != k);
        assert(lookup_at(t, k) == lookup_at(t.skip(1), k));
        assert forall|k2: K| k2 != k implies lookup_at(t, k2) == lookup_at(s, k2) by {
            if s[0].0 == k2 {
                assert(lookup_at(t, k2) == Some(t[0].1));
                assert(lookup_at(s, k2) == Some(s[0].1));
            } else {
                assert(lookup_at(t, k2) == lookup_at(t.skip(1), k2));
                assert(lookup_at(s, k2) == lookup_at(s.skip(1), k2));
            }
        }
    }
}

/// Appending an entry with a fresh key changes the lookup for that key and
/// for no other.
pub proof fn lemma_lookup_push<K, V>(s: Seq<(K, V)>, k: K, v: V)
    requires
        lookup_at(s, k) is None,
    ensures
        lookup_at(s.push((k, v)), k) == Some(v),
        forall|k2: K| k2 != k ==> lookup_at(s.push((k, v)), k2) == lookup_at(s, k2),
    decreases s.len(),
{
    let t = s.push((k, v));
    if s.len() == 0 {
        assert(t.skip(1) =~= Seq::<(K, V)>::empty());
        assert(t[0] == (k, v));
        assert forall|k2: K| k2 != k implies lookup_at(t, k2) == lookup_at(s, k2) by {
            assert(lookup_at(t, k2) == lookup_at(t.skip(1), k2));
        }
    } else {
        assert(t.skip(1) =~= s.skip(1).push((k, v)));
        assert(s[0].0 != k);
        lemma_lookup_push(s.skip(1), k, v);
        assert(t[0] == s[0]);
        assert(lookup_at(t, k) == lookup_at(t.skip(1), k));
        assert forall|k2: K| k2 != k implies lookup_at(t, k2) == lookup_at(s, k2) by {
            if s[0].0 == k2 {
                assert(lookup_at(t, k2) == Some(t[0].1));
                assert(lookup_at(s, k2) == Some(s[0].1));
            } else {
                assert(lookup_at(t, k2) == lookup_at(t.skip(1), k2));
                assert(lookup_at(s, k2) == lookup_at(s.skip(1), k2));
            }
        }
    }
}

/// A sparse mapping from 32-bit addresses to owned values.
pub struct SparseMap<V> {
    pub entries: Vec<(u32, V)>,
}

impl<V> SparseMap<V> {
    /// The value stored at address `k`, if any.
    pub open spec fn spec_get(&self, k: u32) -> Option<V> {
        lookup_at(self.entries@, k)
    }

    /// An empty mapping.
    pub fn new() -> (r: Self)
        ensures
            forall|k: u32| r.spec_get(k) is None,
            r.entries@.len() == 0,
    {
        SparseMap { entries: Vec::new() }
    }

    /// The position of the entry holding address `k`, if any.
    pub fn index_of(&self, k: u32) -> (r: Option<usize>)
        ensures
            match r {
                Some(i) => {
                    &&& i < self.entries@.len()
                    &&& self.entries@[i as int].0 == k
                    &&& forall|j: int| 0 <= j < i ==> (#[trigger] self.entries@[j]).0 != k
                    &&& self.spec_get(k) == Some(self.entries@[i as int].1)
                },
                None => self.spec_get(k) is None,
            },
    {
        let n: usize = self.entries.len();
        for i in 0..n
            invariant
                n == self.entries@.len(),
                forall|j: int| 0 <= j < i ==> (#[trigger] self.entries@[j]).0 != k,
        {
            if self.entries[i].0 == k {
                proof {
                    lemma_lookup_skip(self.entries@, k, i as int);
                    assert(self.entries@.skip(i as int)[0] == self.entries@[i as int]);
                }
                return Some(i);
            }
        }
        proof {
            lemma_lookup_skip(self.entries@, k, n as int);
            assert(self.entries@.skip(n as int) =~= Seq::<(u32, V)>::empty());
        }
        None
    }

    /// Whether address `k` is mapped.
    pub fn contains_key(&self, k: u32) -> (r: bool)
        ensures
            r == (self.spec_get(k) is Some),
    {
        match self.index_of(k) {
            Some(_) => true,
            None => false,
        }
    }

    /// Store `v` at address `k`, replacing any earlier value there.  Every
    /// entry afterwards is either the new pair or an entry that was already
    /// present.
    pub fn insert(&mut self, k: u32, v: V)
        ensures
            final(self).spec_get(k) == Some(v),
            forall|k2: u32| k2 != k ==> final(self).spec_get(k2) == old(self).spec_get(k2),
            final(self).entries@.len() <= old(self).entries@.len() + 1,
            forall|j: int|
                0 <= j < final(self).entries@.len() ==> (#[trigger] final(self).entries@[j]) == (
                k,
                v,
            ) || (j < old(self).entries@.len() && final(self).entries@[j] == old(
                self,
            ).entries@[j]),
    {
        match self.index_of(k) {
            Some(i) => {
                proof {
                    lemma_lookup_update(self.entries@, k, v, i as int);
                }
                self.entries.set(i, (k, v));
            },
            None => {
                proof {
                    lemma_lookup_push(self.entries@, k, v);
                }
                self.entries.push((k, v));
            },
        }
    }
}

impl SparseMap<Vec<i32>> {
    /// A copy of the vector stored at `k`, or `None` when `k` is unmapped.
    pub fn get_copy(&self, k: u32) -> (r: Option<Vec<i32>>)
        ensures
            match r {
                Some(v) => self.spec_get(k) matches Some(w) && w@ == v@,
                None => self.spec_get(k) is None,
            },
    {
        match self.index_of(k) {
            Some(i) => Some(fx_copy(&self.entries[i].1)),
            None => None,
        }
    }
}

/// A sparse mapping from addresses to activation vectors.
pub type MemMap = SparseMap<Vec<i32>>;

} // verus!
