//! OID table for implementing GETNEXT with sorted OID storage.

use vstd::prelude::*;

use crate::oid::{
    lemma_lt_transitive,
    lemma_order_equal_iff_same,
    lemma_order_mirror,
    lex_lt,
    Comparison,
    Oid,
};

verus! {

/// Helper for implementing GETNEXT with lexicographic OID ordering: a list
/// of OID-value pairs that is kept sorted by OID, without repeated OIDs.
#[derive(Debug, Clone)]
pub struct OidTable<V> {
    /// Entries are kept sorted by OID for efficient GETNEXT
    entries: Vec<(Oid, V)>,
}

/// The keys are in strictly ascending order.
pub open spec fn ascending(keys: Seq<Seq<u32>>) -> bool {
    forall|i: int, j: int| 0 <= i < j < keys.len() ==> lex_lt(#[trigger] keys[i], #[trigger] keys[j])
}

/// The number of keys that come before `key`.
pub open spec fn rank_of(keys: Seq<Seq<u32>>, key: Seq<u32>) -> int
    decreases keys.len(),
{
    if keys.len() == 0 {
        0
    } else {
        rank_of(keys.drop_last(), key) + if lex_lt(keys.last(), key) {
            1int
        } else {
            0int
        }
    }
}

/// In an ascending list the keys before `key` are the first `rank_of` keys.
pub proof fn lemma_rank_of(keys: Seq<Seq<u32>>, key: Seq<u32>, p: int)
    requires
        ascending(keys),
        0 <= p <= keys.len(),
        forall|j: int| 0 <= j < p ==> lex_lt(#[trigger] keys[j], key),
        forall|j: int| p <= j < keys.len() ==> !lex_lt(#[trigger] keys[j], key),
    ensures
        rank_of(keys, key) == p,
    decreases keys.len(),
{
    if keys.len() > 0 {
        let front = keys.drop_last();
        assert forall|i: int, j: int| 0 <= i < j < front.len() implies lex_lt(
            #[trigger] front[i],
            #[trigger] front[j],
        ) by {
            assert(front[i] == keys[i] && front[j] == keys[j]);
        }
        if p == keys.len() {
            assert forall|j: int| 0 <= j < p - 1 implies lex_lt(#[trigger] front[j], key) by {
                assert(front[j] == keys[j]);
            }
            lemma_rank_of(front, key, p - 1);
        } else {
            assert forall|j: int| 0 <= j < p implies lex_lt(#[trigger] front[j], key) by {
                assert(front[j] == keys[j]);
            }
            assert forall|j: int| p <= j < front.len() implies !lex_lt(#[trigger] front[j], key) by {
                assert(front[j] == keys[j]);
            }
            lemma_rank_of(front, key, p);
        }
    }
}

impl<V> OidTable<V> {
    /// The OIDs of the table, in its order.
    pub closed spec fn keys(self) -> Seq<Seq<u32>> {
        Seq::new(self.entries@.len(), |i: int| self.entries@[i].0@)
    }

    /// The values of the table, each at the position of its OID.
    pub closed spec fn values(self) -> Seq<V> {
        Seq::new(self.entries@.len(), |i: int| self.entries@[i].1)
    }

    /// The table is in order: its OIDs ascend strictly.
    pub open spec fn wf(self) -> bool {
        ascending(self.keys()) && self.keys().len() == self.values().len()
    }

    /// Create a new empty OID table.
    pub fn new() -> (r: OidTable<V>)
        ensures
            r.wf(),
            r.keys().len() == 0,
    {
        OidTable { entries: Vec::new() }
    }

    /// Create an OID table with pre-allocated capacity.
    pub fn with_capacity(capacity: usize) -> (r: OidTable<V>)
        ensures
            r.wf(),
            r.keys().len() == 0,
    {
        OidTable { entries: Vec::with_capacity(capacity) }
    }

    /// The position of the first entry whose OID is not before `oid`, and
    /// whether that entry has the OID itself.
    fn search(&self, oid: &Oid) -> (r: (usize, bool))
        requires
            self.wf(),
        ensures
            r.0 <= self.keys().len(),
            forall|j: int| 0 <= j < r.0 ==> lex_lt(#[trigger] self.keys()[j], oid@),
            forall|j: int| r.0 <= j < self.keys().len() ==> !lex_lt(#[trigger] self.keys()[j], oid@),
            r.1 <==> (r.0 < self.keys().len() && self.keys()[r.0 as int] == oid@),
            !r.1 ==> forall|j: int| 0 <= j < self.keys().len() ==> #[trigger] self.keys()[j] != oid@,
            r.0 == rank_of(self.keys(), oid@),
    {
        let ghost keys = self.keys();
        let mut lo: usize = 0;
        let mut hi: usize = self.entries.len();
        while lo < hi
            invariant
                lo <= hi <= keys.len(),
                keys == self.keys(),
                keys.len() == self.entries@.len(),
                ascending(keys),
                forall|j: int| 0 <= j < lo ==> lex_lt(#[trigger] keys[j], oid@),
                forall|j: int| hi <= j < keys.len() ==> lex_lt(oid@, #[trigger] keys[j]),
            decreases hi - lo,
        {
            let mid = lo + (hi - lo) / 2;
            proof {
                assert(keys[mid as int] == self.entries@[mid as int].0@);
            }
            match self.entries[mid].0.compare(oid) {
                Comparison::Less => {
                    proof {
                        assert forall|j: int| 0 <= j < mid + 1 implies lex_lt(
                            #[trigger] keys[j],
                            oid@,
                        ) by {
                            if j < mid {
                                lemma_lt_transitive(keys[j], keys[mid as int], oid@);
                            }
                        }
                    }
                    lo = mid + 1;
                },
                Comparison::Equal => {
                    proof {
                        lemma_order_equal_iff_same(keys[mid as int], oid@);
                        assert forall|j: int| 0 <= j < mid implies lex_lt(#[trigger] keys[j], oid@) by {
                            assert(lex_lt(keys[j], keys[mid as int]));
                        }
                        assert forall|j: int| mid <= j < keys.len() implies !lex_lt(
                            #[trigger] keys[j],
                            oid@,
                        ) by {
                            if j > mid {
                                assert(lex_lt(keys[mid as int], keys[j]));
                                lemma_order_mirror(keys[j], oid@, 0);
                            }
                        }
                        lemma_rank_of(keys, oid@, mid as int);
                    }
                    return (mid, true);
                },
                Comparison::Greater => {
                    proof {
                        lemma_order_mirror(keys[mid as int], oid@, 0);
                        assert forall|j: int| mid <= j < keys.len() implies lex_lt(
                            oid@,
                            #[trigger] keys[j],
                        ) by {
                            if j > mid {
                                lemma_lt_transitive(oid@, keys[mid as int], keys[j]);
                            }
                        }
                    }
                    hi = mid;
                },
            }
        }
        proof {
            assert forall|j: int| lo <= j < keys.len() implies !lex_lt(#[trigger] keys[j], oid@) by {
                lemma_order_mirror(keys[j], oid@, 0);
            }
            assert forall|j: int| 0 <= j < keys.len() implies #[trigger] keys[j] != oid@ by {
                lemma_order_equal_iff_same(keys[j], oid@);
                lemma_order_mirror(keys[j], oid@, 0);
            }
            lemma_rank_of(keys, oid@, lo as int);
        }
        (lo, false)
    }

    /// Insert an OID-value pair, maintaining sorted order. If the OID is in
    /// the table, its value is replaced; else the pair comes to stand behind
    /// the OIDs that are before it.
    pub fn insert(&mut self, oid: Oid, value: V)
        requires
            old(self).wf(),
        ensures
            final(self).wf(),
            old(self).keys().contains(oid@) ==> final(self).keys() == old(self).keys() && exists|
                i: int,
            |
                0 <= i < old(self).keys().len() && old(self).keys()[i] == oid@
                    && final(self).values() == old(self).values().update(i, value),
            !old(self).keys().contains(oid@) ==> final(self).keys() == old(self).keys().insert(
                rank_of(old(self).keys(), oid@),
                oid@,
            ) && final(self).values() == old(self).values().insert(
                rank_of(old(self).keys(), oid@),
                value,
            ),
    {
        let (idx, found) = self.search(&oid);
        let ghost keys = self.keys();
        if found {
            self.entries.set(idx, (oid, value));
            proof {
                assert(final(self).keys() =~= keys);
                assert(final(self).values() =~= old(self).values().update(idx as int, value));
                assert(keys.contains(oid@));
            }
        } else {
            self.entries.insert(idx, (oid, value));
            proof {
                assert(!keys.contains(oid@));
                let after = final(self).keys();
                assert(after =~= keys.insert(idx as int, oid@));
                assert(final(self).values() =~= old(self).values().insert(idx as int, value));
                assert forall|i: int, j: int| 0 <= i < j < after.len() implies lex_lt(
                    #[trigger] after[i],
                    #[trigger] after[j],
                ) by {
                    if i < idx && j == idx {
                        assert(after[i] == keys[i]);
                    } else if i == idx {
                        assert(after[j] == keys[j - 1]);
                        lemma_order_mirror(keys[j - 1], oid@, 0);
                        lemma_order_equal_iff_same(keys[j - 1], oid@);
                    } else if i < idx && j < idx {
                        assert(after[i] == keys[i] && after[j] == keys[j]);
                    } else if i < idx {
                        assert(after[i] == keys[i] && after[j] == keys[j - 1]);
                    } else {
                        assert(after[i] == keys[i - 1] && after[j] == keys[j - 1]);
                    }
                }
            }
        }
    }

    /// Remove an OID from the table. Returns the removed value if the OID
    /// was present.
    pub fn remove(&mut self, oid: &Oid) -> (r: Option<V>)
        requires
            old(self).wf(),
        ensures
            final(self).wf(),
            match r {
                Some(v) => exists|i: int|
                    0 <= i < old(self).keys().len() && old(self).keys()[i] == oid@
                        && v == old(self).values()[i]
                        && final(self).keys() == old(self).keys().remove(i)
                        && final(self).values() == old(self).values().remove(i),
                None => !old(self).keys().contains(oid@) && final(self).keys() == old(self).keys()
                    && final(self).values() == old(self).values(),
            },
    {
        let (idx, found) = self.search(oid);
        let ghost keys = self.keys();
        if found {
            let pair = self.entries.remove(idx);
            proof {
                let after = final(self).keys();
                assert(after =~= keys.remove(idx as int));
                assert(final(self).values() =~= old(self).values().remove(idx as int));
                assert forall|i: int, j: int| 0 <= i < j < after.len() implies lex_lt(
                    #[trigger] after[i],
                    #[trigger] after[j],
                ) by {
                    let a = if i < idx {
                        i
                    } else {
                        i + 1
                    };
                    let b = if j < idx {
                        j
                    } else {
                        j + 1
                    };
                    assert(after[i] == keys[a] && after[j] == keys[b]);
                }
            }
            Some(pair.1)
        } else {
            proof {
                assert(final(self).keys() =~= keys);
            }
            None
        }
    }

    /// Get the value for an exact OID match.
    pub fn get(&self, oid: &Oid) -> (r: Option<&V>)
        requires
            self.wf(),
        ensures
            match r {
                Some(v) => exists|i: int|
                    0 <= i < self.keys().len() && self.keys()[i] == oid@ && *v == self.values()[i],
                None => !self.keys().contains(oid@),
            },
    {
        let (idx, found) = self.search(oid);
        if found {
            proof {
                assert(self.values()[idx as int] == self.entries@[idx as int].1);
            }
            Some(&self.entries[idx].1)
        } else {
            None
        }
    }

    /// Get the lexicographically next OID and value after the given OID:
    /// the first entry of the table whose OID comes after it. Returns `None`
    /// if no OID of the table comes after it.
    pub fn get_next(&self, oid: &Oid) -> (r: Option<(&Oid, &V)>)
        requires
            self.wf(),
        ensures
            match r {
                Some(pair) => exists|i: int|
                    0 <= i < self.keys().len() && self.keys()[i] == pair.0@ && *pair.1
                        == self.values()[i] && lex_lt(oid@, pair.0@) && forall|j: int|
                        0 <= j < i ==> !lex_lt(oid@, #[trigger] self.keys()[j]),
                None => forall|j: int|
                    0 <= j < self.keys().len() ==> !lex_lt(oid@, #[trigger] self.keys()[j]),
            },
    {
        let (idx, found) = self.search(oid);
        let n = self.entries.len();
        proof {
            assert(self.keys().len() == n);
        }
        let next = if found {
            idx + 1
        } else {
            idx
        };
        let ghost keys = self.keys();
        proof {
            assert forall|j: int| 0 <= j < next implies !lex_lt(oid@, #[trigger] keys[j]) by {
                lemma_order_mirror(oid@, keys[j], 0);
                if j < idx {
                    lemma_order_mirror(keys[j], oid@, 0);
                } else {
                    lemma_order_equal_iff_same(keys[j], oid@);
                }
            }
        }
        if next < self.entries.len() {
            proof {
                assert(keys[next as int] == self.entries@[next as int].0@);
                assert(self.values()[next as int] == self.entries@[next as int].1);
                lemma_order_mirror(keys[next as int], oid@, 0);
                if found {
                    assert(lex_lt(keys[idx as int], keys[next as int]));
                } else {
                    lemma_order_equal_iff_same(keys[next as int], oid@);
                }
            }
            Some((&self.entries[next].0, &self.entries[next].1))
        } else {
            None
        }
    }

    /// Get the number of entries in the table.
    pub fn len(&self) -> (r: usize)
        ensures
            r == self.keys().len(),
    {
        self.entries.len()
    }

    /// Check if the table is empty.
    pub fn is_empty(&self) -> (r: bool)
        ensures
            r == (self.keys().len() == 0),
    {
        self.entries.len() == 0
    }

    /// Clear all entries from the table.
    pub fn clear(&mut self)
        ensures
            final(self).wf(),
            final(self).keys().len() == 0,
    {
        self.entries.clear();
    }

    /// All OID-value pairs in lexicographic order.
    pub fn iter(&self) -> (r: Vec<(&Oid, &V)>)
        ensures
            r@.len() == self.keys().len(),
            forall|i: int|
                0 <= i < r@.len() ==> (#[trigger] r@[i]).0@ == self.keys()[i] && *r@[i].1
                    == self.values()[i],
    {
        let n = self.entries.len();
        let mut out: Vec<(&Oid, &V)> = Vec::with_capacity(n);
        let mut k: usize = 0;
        while k < n
            invariant
                k <= n,
                n == self.entries@.len(),
                out@.len() == k,
                forall|i: int|
                    0 <= i < k ==> (#[trigger] out@[i]).0@ == self.keys()[i] && *out@[i].1
                        == self.values()[i],
            decreases n - k,
        {
            out.push((&self.entries[k].0, &self.entries[k].1));
            k += 1;
        }
        out
    }
}

impl<V> Default for OidTable<V> {
    fn default() -> (r: OidTable<V>)
        ensures
            r.wf(),
            r.keys().len() == 0,
    {
        OidTable::new()
    }
}

} // verus!
