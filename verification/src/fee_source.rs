//! The fee-quote source's consistency rule: a fresh quote refreshes the
//! cache, a failed fetch degrades to the cached last-known-good value, and
//! the operation fails only when no cache entry exists.
//!
//! Fetching itself (a network call with its own timeout) happens outside the
//! core; the core decides what the outcome means.

use vstd::prelude::*;

use crate::assoc::{
    assoc_find, assoc_index_of, keys_unique, lemma_assoc_find_absent, lemma_assoc_find_at,
    lemma_assoc_find_push, lemma_assoc_find_update,
};

verus! {

/// The price source gave nothing and no cached value exists.
#[derive(Clone, Copy, Debug, PartialEq, Eq, Structural)]
pub struct PriceSourceUnavailable;

/// Last-known-good market volumes, keyed by token id.
pub struct VolumeCache {
    /// Unique-keyed (token id, volume) entries.
    pub entries: Vec<(u32, u128)>,
}

impl View for VolumeCache {
    type V = Map<u32, Option<u128>>;

    open spec fn view(&self) -> Map<u32, Option<u128>> {
        Map::new(|t: u32| true, |t: u32| assoc_find(self.entries@, t))
    }
}

impl VolumeCache {
    /// Internal representation: unique token keys.
    pub open spec fn wf(&self) -> bool {
        keys_unique(self.entries@)
    }

    /// An empty cache.
    pub fn new() -> (r: VolumeCache)
        ensures
            r.wf(),
            r@ == Map::new(|t: u32| true, |t: u32| None::<u128>),
    {
        let r = VolumeCache { entries: Vec::new() };
        proof {
            assert(r@ =~= Map::new(|t: u32| true, |t: u32| None::<u128>));
        }
        r
    }

    /// The cached volume for `token`, if any.
    pub fn get(&self, token: u32) -> (r: Option<u128>)
        requires
            self.wf(),
        ensures
            r == self@[token],
    {
        match assoc_index_of(&self.entries, token) {
            Some(i) => {
                proof {
                    lemma_assoc_find_at(self.entries@, i as int);
                }
                Some(self.entries[i].1)
            },
            None => {
                proof {
                    lemma_assoc_find_absent(self.entries@, token);
                }
                None
            },
        }
    }

    /// Records a fresh volume for `token`.
    pub fn put(&mut self, token: u32, volume: u128)
        requires
            old(self).wf(),
        ensures
            final(self).wf(),
            final(self)@ == old(self)@.insert(token, Some(volume)),
    {
        match assoc_index_of(&self.entries, token) {
            Some(i) => {
                self.entries.set(i, (token, volume));
                proof {
                    assert forall|x: u32| #[trigger] self@[x] == old(self)@.insert(
                        token,
                        Some(volume),
                    )[x] by {
                        lemma_assoc_find_update(old(self).entries@, i as int, volume, x);
                    }
                    assert(self@ =~= old(self)@.insert(token, Some(volume)));
                    assert(keys_unique(self.entries@)) by {
                        lemma_assoc_find_update(old(self).entries@, i as int, volume, token);
                    }
                }
            },
            None => {
                self.entries.push((token, volume));
                proof {
                    assert forall|x: u32| #[trigger] self@[x] == old(self)@.insert(
                        token,
                        Some(volume),
                    )[x] by {
                        lemma_assoc_find_push(old(self).entries@, token, volume, x);
                    }
                    assert(self@ =~= old(self)@.insert(token, Some(volume)));
                    assert(keys_unique(self.entries@)) by {
                        lemma_assoc_find_push(old(self).entries@, token, volume, token);
                    }
                }
            },
        }
    }

    /// Resolves a market-volume request from the fetch outcome.
    ///
    /// A fresh quote wins and refreshes the cache; a failed fetch falls back
    /// to the cached value; with neither, the request fails.
    pub fn resolve_market_volume(&mut self, token: u32, fetched: Option<u128>) -> (r: Result<
        u128,
        PriceSourceUnavailable,
    >)
        requires
            old(self).wf(),
        ensures
            final(self).wf(),
            fetched matches Some(v) ==> r == Ok::<u128, PriceSourceUnavailable>(v) && final(self)@
                == old(self)@.insert(token, Some(v)),
            fetched is None ==> *final(self) == *old(self) && (match old(self)@[token] {
                Some(v) => r == Ok::<u128, PriceSourceUnavailable>(v),
                None => r == Err::<u128, PriceSourceUnavailable>(PriceSourceUnavailable),
            }),
    {
        match fetched {
            Some(v) => {
                self.put(token, v);
                Ok(v)
            },
            None => match self.get(token) {
                Some(v) => Ok(v),
                None => Err(PriceSourceUnavailable),
            },
        }
    }
}

} // verus!
