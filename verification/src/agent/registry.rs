//! The registry of handler prefixes, with longest-prefix lookup.

use vstd::prelude::*;

use crate::oid::{is_prefix, lex_lt, Comparison, Oid};

verus! {

/// The prefixes under which handlers are registered. A handler is known by
/// its number: the position of its prefix in the order of registration.
pub struct HandlerRegistry {
    prefixes: Vec<Oid>,
}

/// The handler at position `k` owns the OID: its prefix is a prefix of the
/// OID, no registered prefix of the OID is longer, and of the prefixes of
/// that length it was registered first.
pub open spec fn owns(prefixes: Seq<Seq<u32>>, k: int, oid: Seq<u32>) -> bool {
    &&& 0 <= k < prefixes.len()
    &&& is_prefix(prefixes[k], oid)
    &&& forall|j: int|
        0 <= j < prefixes.len() && is_prefix(#[trigger] prefixes[j], oid) ==> prefixes[j].len()
            < prefixes[k].len() || (prefixes[j].len() == prefixes[k].len() && k <= j)
}

/// The handler at position `k` follows the OID: its prefix comes after the
/// OID, no registered prefix between them, and of equal prefixes it was
/// registered first.
pub open spec fn follows(prefixes: Seq<Seq<u32>>, k: int, oid: Seq<u32>) -> bool {
    &&& 0 <= k < prefixes.len()
    &&& lex_lt(oid, prefixes[k])
    &&& forall|j: int|
        0 <= j < prefixes.len() && lex_lt(oid, #[trigger] prefixes[j]) ==> lex_lt(
            prefixes[k],
            prefixes[j],
        ) || (prefixes[j] == prefixes[k] && k <= j)
}

/// Whether a handler with the given prefix answers for an OID by default:
/// the OID lies under the prefix, or comes before it (for GETNEXT).
pub fn default_handles(registered_prefix: &Oid, oid: &Oid) -> (r: bool)
    ensures
        r == (is_prefix(registered_prefix@, oid@) || lex_lt(oid@, registered_prefix@)),
{
    oid.starts_with(registered_prefix) || oid.precedes(registered_prefix)
}

impl HandlerRegistry {
    /// The registered prefixes, in the order of registration.
    pub closed spec fn prefixes(self) -> Seq<Seq<u32>> {
        Seq::new(self.prefixes@.len(), |i: int| self.prefixes@[i]@)
    }

    /// A registry without handlers.
    pub fn new() -> (r: HandlerRegistry)
        ensures
            r.prefixes().len() == 0,
    {
        HandlerRegistry { prefixes: Vec::new() }
    }

    /// Registers a handler under a prefix and gives its number.
    pub fn register(&mut self, prefix: Oid) -> (r: usize)
        ensures
            r == old(self).prefixes().len(),
            final(self).prefixes() == old(self).prefixes().push(prefix@),
    {
        let id = self.prefixes.len();
        self.prefixes.push(prefix);
        proof {
            assert(final(self).prefixes() =~= old(self).prefixes().push(prefix@));
        }
        id
    }

    /// The number of registered handlers.
    pub fn len(&self) -> (r: usize)
        ensures
            r == self.prefixes().len(),
    {
        self.prefixes.len()
    }

    /// The handler that owns an OID: the one with the longest registered
    /// prefix of the OID. `None` exactly when no registered prefix is a
    /// prefix of the OID.
    pub fn find_handler(&self, oid: &Oid) -> (r: Option<usize>)
        ensures
            match r {
                Some(k) => owns(self.prefixes(), k as int, oid@),
                None => forall|j: int|
                    0 <= j < self.prefixes().len() ==> !is_prefix(#[trigger] self.prefixes()[j], oid@),
            },
    {
        let n = self.prefixes.len();
        let ghost all = self.prefixes();
        let mut best: Option<usize> = None;
        let mut best_len: usize = 0;
        let mut k: usize = 0;
        while k < n
            invariant
                k <= n,
                n == self.prefixes@.len(),
                all == self.prefixes(),
                all.len() == n,
                match best {
                    None => forall|j: int| 0 <= j < k ==> !is_prefix(#[trigger] all[j], oid@),
                    Some(b) => b < k && is_prefix(all[b as int], oid@) && best_len
                        == all[b as int].len() && forall|j: int|
                        0 <= j < k && is_prefix(#[trigger] all[j], oid@) ==> all[j].len() < best_len
                            || (all[j].len() == best_len && b <= j),
                },
            decreases n - k,
        {
            let p = &self.prefixes[k];
            proof {
                assert(all[k as int] == p@);
            }
            if oid.starts_with(p) {
                let longer = match best {
                    None => true,
                    Some(_) => p.len() > best_len,
                };
                if longer {
                    best = Some(k);
                    best_len = p.len();
                }
            }
            k += 1;
        }
        best
    }

    /// The prefix under which the handler with the given number is
    /// registered.
    pub fn prefix(&self, k: usize) -> (r: &Oid)
        requires
            k < self.prefixes().len(),
        ensures
            r@ == self.prefixes()[k as int],
    {
        &self.prefixes[k]
    }

    /// The handler whose prefix is the first after an OID. `None` exactly
    /// when no prefix comes after the OID.
    pub fn find_following(&self, oid: &Oid) -> (r: Option<usize>)
        ensures
            match r {
                Some(k) => follows(self.prefixes(), k as int, oid@),
                None => forall|j: int|
                    0 <= j < self.prefixes().len() ==> !lex_lt(oid@, #[trigger] self.prefixes()[j]),
            },
    {
        let n = self.prefixes.len();
        let ghost all = self.prefixes();
        let mut best: Option<usize> = None;
        let mut k: usize = 0;
        while k < n
            invariant
                k <= n,
                n == self.prefixes@.len(),
                all == self.prefixes(),
                all.len() == n,
                match best {
                    None => forall|j: int| 0 <= j < k ==> !lex_lt(oid@, #[trigger] all[j]),
                    Some(b) => b < k && lex_lt(oid@, all[b as int]) && forall|j: int|
                        0 <= j < k && lex_lt(oid@, #[trigger] all[j]) ==> lex_lt(all[b as int], all[j])
                            || (all[j] == all[b as int] && b <= j),
                },
            decreases n - k,
        {
            let p = &self.prefixes[k];
            proof {
                assert(all[k as int] == p@);
            }
            if oid.precedes(p) {
                match best {
                    None => {
                        best = Some(k);
                    },
                    Some(b) => {
                        proof {
                            assert(all[b as int] == self.prefixes@[b as int]@);
                            crate::oid::lemma_order_mirror(p@, all[b as int], 0);
                            crate::oid::lemma_order_equal_iff_same(p@, all[b as int]);
                        }
                        match p.compare(&self.prefixes[b]) {
                            Comparison::Less => {
                                proof {
                                    assert forall|j: int|
                                        0 <= j < k + 1 && lex_lt(oid@, #[trigger] all[j]) implies lex_lt(
                                        p@,
                                        all[j],
                                    ) || (all[j] == p@ && k <= j) by {
                                        if j < k {
                                            if all[j] == all[b as int] {
                                            } else {
                                                crate::oid::lemma_lt_transitive(
                                                    p@,
                                                    all[b as int],
                                                    all[j],
                                                );
                                            }
                                        }
                                    }
                                }
                                best = Some(k);
                            },
                            _ => {},
                        }
                    },
                }
            }
            k += 1;
        }
        best
    }

    /// The handler that answers a GETNEXT for an OID: the one that owns the
    /// OID, else the one whose prefix is the first after the OID. `None`
    /// exactly when no prefix is a prefix of the OID or comes after it.
    pub fn find_next_handler(&self, oid: &Oid) -> (r: Option<usize>)
        ensures
            match r {
                Some(k) => owns(self.prefixes(), k as int, oid@) || ((forall|j: int|
                    0 <= j < self.prefixes().len() ==> !is_prefix(#[trigger] self.prefixes()[j], oid@))
                    && follows(self.prefixes(), k as int, oid@)),
                None => forall|j: int|
                    0 <= j < self.prefixes().len() ==> !is_prefix(#[trigger] self.prefixes()[j], oid@)
                        && !lex_lt(oid@, self.prefixes()[j]),
            },
    {
        match self.find_handler(oid) {
            Some(k) => Some(k),
            None => self.find_following(oid),
        }
    }

    /// Where a GETNEXT goes on when the handler with number `k` has nothing
    /// after `probe`: from the later of `probe` and the prefix of the
    /// handler, with the handler whose prefix is the first after that.
    pub fn after_end(&self, probe: &Oid, k: usize) -> (r: (Oid, Option<usize>))
        requires
            k < self.prefixes().len(),
        ensures
            r.0@ == (if lex_lt(probe@, self.prefixes()[k as int]) {
                self.prefixes()[k as int]
            } else {
                probe@
            }),
            match r.1 {
                Some(j) => follows(self.prefixes(), j as int, r.0@) && lex_lt(
                    self.prefixes()[k as int],
                    self.prefixes()[j as int],
                ),
                None => forall|j: int|
                    0 <= j < self.prefixes().len() ==> !lex_lt(r.0@, #[trigger] self.prefixes()[j]),
            },
    {
        let prefix = &self.prefixes[k];
        let from = if probe.precedes(prefix) {
            prefix.duplicate()
        } else {
            probe.duplicate()
        };
        let next = self.find_following(&from);
        proof {
            match next {
                Some(j) => {
                    if !lex_lt(probe@, prefix@) {
                        crate::oid::lemma_order_mirror(probe@, prefix@, 0);
                        if probe@ != prefix@ {
                            crate::oid::lemma_order_equal_iff_same(probe@, prefix@);
                            crate::oid::lemma_lt_transitive(
                                prefix@,
                                probe@,
                                self.prefixes()[j as int],
                            );
                        }
                    }
                },
                None => {},
            }
        }
        (from, next)
    }
}

impl Default for HandlerRegistry {
    fn default() -> (r: HandlerRegistry)
        ensures
            r.prefixes().len() == 0,
    {
        HandlerRegistry::new()
    }
}

} // verus!
