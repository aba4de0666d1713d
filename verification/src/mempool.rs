//! The mempool store: transactions accepted but not yet committed, keyed by
//! the lowercase hex of their hash.
//!
//! Garbage collection removes the entries whose hash appears among the
//! executed transactions, so that nothing already reflected in committed
//! state can be re-admitted.  Removal is keyed by hash and idempotent, so a
//! collection pass is safe to repeat.

use vstd::prelude::*;

use crate::fee::FEE_MAX_PACKABLE;
use crate::hexutil::{hex_encode, hex_of};
use crate::keccak::{keccak256_digest, keccak_of};
use crate::tx::{sign_bytes, MintNFT};

verus! {

/// The hash under which a transaction is filed: the keccak-256 digest of
/// its canonical sign bytes.
pub open spec fn tx_hash_of(tx: MintNFT) -> Seq<u8> {
    keccak_of(sign_bytes(tx))
}

/// Whether `key` is the hex of one of `hashes`.
pub open spec fn key_among(key: Seq<char>, hashes: Seq<Vec<u8>>) -> bool {
    exists|i: int| 0 <= i < hashes.len() && key == hex_of((#[trigger] hashes[i])@)
}

/// The filter that keeps entries not filed under the hex of `h`.
pub open spec fn not_hash_key(h: Seq<u8>) -> spec_fn((Seq<char>, MintNFT)) -> bool {
    |e: (Seq<char>, MintNFT)| e.0 != hex_of(h)
}

/// The filter that keeps entries whose hash is not among `hashes`.
pub open spec fn not_among(hashes: Seq<Vec<u8>>) -> spec_fn((Seq<char>, MintNFT)) -> bool {
    |e: (Seq<char>, MintNFT)| !key_among(e.0, hashes)
}

/// Pending transactions, in arrival order, each under its hash key.
pub struct MempoolSchema {
    /// (lowercase hex of the transaction hash, transaction) pairs.
    pub entries: Vec<(String, MintNFT)>,
}

impl View for MempoolSchema {
    type V = Seq<(Seq<char>, MintNFT)>;

    open spec fn view(&self) -> Seq<(Seq<char>, MintNFT)> {
        Seq::new(self.entries@.len(), |i: int| (self.entries@[i].0@, self.entries@[i].1))
    }
}

impl MempoolSchema {
    /// An empty mempool.
    pub fn new() -> (r: MempoolSchema)
        ensures
            r@ == Seq::<(Seq<char>, MintNFT)>::empty(),
    {
        let r = MempoolSchema { entries: Vec::new() };
        proof {
            assert(r@ =~= Seq::<(Seq<char>, MintNFT)>::empty());
        }
        r
    }

    /// Computes a transaction's hash: keccak-256 over its sign bytes.
    pub fn hash_tx(tx: &MintNFT) -> (r: Vec<u8>)
        requires
            tx.fee <= FEE_MAX_PACKABLE,
        ensures
            r@ == tx_hash_of(*tx),
            r@.len() == 32,
    {
        let bytes = tx.get_bytes();
        keccak256_digest(&bytes)
    }

    /// All pending transactions, in arrival order.
    pub fn load_txs(&self) -> (r: Vec<MintNFT>)
        ensures
            r@ == Seq::new(self@.len(), |i: int| self@[i].1),
    {
        let n = self.entries.len();
        let mut r: Vec<MintNFT> = Vec::new();
        let mut i: usize = 0;
        while i < n
            invariant
                n == self.entries@.len(),
                i <= n,
                r@ == Seq::new(i as nat, |j: int| self.entries@[j].1),
            decreases n - i,
        {
            r.push(self.entries[i].1);
            proof {
                assert(r@ =~= Seq::new((i + 1) as nat, |j: int| self.entries@[j].1));
            }
            i += 1;
        }
        proof {
            assert(Seq::new(n as nat, |j: int| self.entries@[j].1) =~= Seq::new(
                self@.len(),
                |j: int| self@[j].1,
            ));
        }
        r
    }

    /// Files a new pending transaction under its hash.
    pub fn insert_tx(&mut self, tx: &MintNFT)
        requires
            tx.fee <= FEE_MAX_PACKABLE,
        ensures
            final(self)@ == old(self)@.push((hex_of(tx_hash_of(*tx)), *tx)),
    {
        let hash = Self::hash_tx(tx);
        let key = hex_encode(&hash);
        self.entries.push((key, *tx));
        proof {
            assert(final(self)@ =~= old(self)@.push((hex_of(tx_hash_of(*tx)), *tx)));
        }
    }

    /// Whether some pending entry is filed under the hex of `tx_hash`.
    pub fn contains_tx(&self, tx_hash: &Vec<u8>) -> (r: bool)
        ensures
            r == exists|i: int| 0 <= i < self@.len() && (#[trigger] self@[i]).0 == hex_of(tx_hash@),
    {
        let key = hex_encode(tx_hash);
        let n = self.entries.len();
        let mut i: usize = 0;
        while i < n
            invariant
                n == self.entries@.len(),
                i <= n,
                key@ == hex_of(tx_hash@),
                forall|j: int| 0 <= j < i ==> (#[trigger] self@[j]).0 != hex_of(tx_hash@),
            decreases n - i,
        {
            if self.entries[i].0 == key {
                proof {
                    assert(self@[i as int].0 == hex_of(tx_hash@));
                }
                return true;
            }
            proof {
                assert(self@[i as int].0 == self.entries@[i as int].0@);
            }
            i += 1;
        }
        false
    }

    /// Drops every entry filed under the hex of `tx_hash`.
    pub fn remove_tx(&mut self, tx_hash: &Vec<u8>)
        ensures
            final(self)@ == old(self)@.filter(not_hash_key(tx_hash@)),
    {
        let key = hex_encode(tx_hash);
        let n = self.entries.len();
        let mut kept: Vec<(String, MintNFT)> = Vec::new();
        proof {
            reveal(Seq::filter);
            assert(kept_view(kept@) =~= old(self)@.subrange(0, 0).filter(
                not_hash_key(tx_hash@),
            ));
        }
        let mut i: usize = 0;
        while i < n
            invariant
                n == self.entries@.len(),
                self.entries@ == old(self).entries@,
                i <= n,
                kept_view(kept@) == old(self)@.subrange(0, i as int).filter(
                    not_hash_key(tx_hash@),
                ),
                key@ == hex_of(tx_hash@),
            decreases n - i,
        {
            let ghost prefix = old(self)@.subrange(0, i as int);
            let ghost kb = kept@;
            let keep = !(self.entries[i].0 == key);
            if keep {
                kept.push((self.entries[i].0.clone(), self.entries[i].1));
            }
            proof {
                reveal(Seq::filter);
                let longer = old(self)@.subrange(0, i + 1);
                assert(longer.drop_last() =~= prefix);
                assert(longer.last() == old(self)@[i as int]);
                assert(old(self)@[i as int] == (
                    self.entries@[i as int].0@,
                    self.entries@[i as int].1,
                ));
                assert(not_hash_key(tx_hash@)(longer.last()) == keep);
                if keep {
                    assert(kept@.last().0@ == self.entries@[i as int].0@);
                    assert(kept_view(kept@).last() == longer.last());
                    assert forall|j: int| 0 <= j < kb.len() implies kept_view(kept@)[j]
                        == kept_view(kb)[j] by {
                        assert(kept@[j] == kb[j]);
                    }
                    assert(kept_view(kept@) =~= kept_view(kb).push(longer.last()));
                    assert(longer.filter(not_hash_key(tx_hash@)) == prefix.filter(
                        not_hash_key(tx_hash@),
                    ).push(longer.last()));
                } else {
                    assert(kept_view(kept@) =~= prefix.filter(not_hash_key(tx_hash@)));
                    assert(longer.filter(not_hash_key(tx_hash@)) == prefix.filter(
                        not_hash_key(tx_hash@),
                    ));
                }
            }
            i += 1;
        }
        self.entries = kept;
        proof {
            assert(old(self)@.subrange(0, n as int) =~= old(self)@);
            assert(final(self)@ =~= kept_view(kept@));
        }
    }

    /// Drops every entry whose hash appears among `hashes`.
    pub fn remove_txs(&mut self, hashes: &Vec<Vec<u8>>)
        ensures
            final(self)@ == old(self)@.filter(not_among(hashes@)),
    {
        let m = hashes.len();
        let mut keys: Vec<String> = Vec::new();
        let mut k: usize = 0;
        while k < m
            invariant
                m == hashes@.len(),
                k <= m,
                keys@.len() == k,
                forall|j: int| 0 <= j < k ==> (#[trigger] keys@[j])@ == hex_of(hashes@[j]@),
            decreases m - k,
        {
            keys.push(hex_encode(&hashes[k]));
            k += 1;
        }
        let n = self.entries.len();
        let mut kept: Vec<(String, MintNFT)> = Vec::new();
        proof {
            reveal(Seq::filter);
            assert(kept_view(kept@) =~= old(self)@.subrange(0, 0).filter(not_among(hashes@)));
        }
        let mut i: usize = 0;
        while i < n
            invariant
                n == self.entries@.len(),
                self.entries@ == old(self).entries@,
                m == hashes@.len(),
                keys@.len() == m,
                forall|j: int| 0 <= j < m ==> (#[trigger] keys@[j])@ == hex_of(hashes@[j]@),
                i <= n,
                kept_view(kept@) == old(self)@.subrange(0, i as int).filter(not_among(hashes@)),
            decreases n - i,
        {
            let ghost prefix = old(self)@.subrange(0, i as int);
            let mut matched = false;
            let mut k: usize = 0;
            while k < m
                invariant
                    m == hashes@.len(),
                    keys@.len() == m,
                    forall|j: int| 0 <= j < m ==> (#[trigger] keys@[j])@ == hex_of(hashes@[j]@),
                    i < n == self.entries@.len(),
                    k <= m,
                    matched ==> key_among(self.entries@[i as int].0@, hashes@),
                    !matched ==> forall|j: int|
                        0 <= j < k ==> self.entries@[i as int].0@ != hex_of(
                            (#[trigger] hashes@[j])@,
                        ),
                decreases m - k,
            {
                if !matched && self.entries[i].0 == keys[k] {
                    matched = true;
                }
                k += 1;
            }
            if !matched {
                kept.push((self.entries[i].0.clone(), self.entries[i].1));
            }
            proof {
                reveal(Seq::filter);
                let longer = old(self)@.subrange(0, i + 1);
                assert(longer.drop_last() =~= prefix);
                assert(longer.last() == old(self)@[i as int]);
                assert(old(self)@[i as int] == (self.entries@[i as int].0@, self.entries@[i as int].1));
                assert(not_among(hashes@)(longer.last()) == !matched);
                if !matched {
                    assert(kept_view(kept@) =~= prefix.filter(not_among(hashes@)).push(
                        longer.last(),
                    ));
                } else {
                    assert(kept_view(kept@) =~= prefix.filter(not_among(hashes@)));
                }
            }
            i += 1;
        }
        self.entries = kept;
        proof {
            assert(old(self)@.subrange(0, n as int) =~= old(self)@);
            assert(final(self)@ =~= kept_view(kept@));
        }
    }

    /// Removes the pending entries whose hash now appears among the executed
    /// transactions, handed in by the caller from the executed-transactions
    /// index.  Runs out of band, and is idempotent.
    pub fn collect_garbage(&mut self, executed_hashes: &Vec<Vec<u8>>)
        ensures
            final(self)@ == old(self)@.filter(not_among(executed_hashes@)),
            forall|i: int|
                0 <= i < final(self)@.len() ==> !key_among(
                    (#[trigger] final(self)@[i]).0,
                    executed_hashes@,
                ),
    {
        self.remove_txs(executed_hashes);
        proof {
            broadcast use vstd::seq_lib::group_seq_lib_default;

            assert forall|i: int| 0 <= i < final(self)@.len() implies !key_among(
                (#[trigger] final(self)@[i]).0,
                executed_hashes@,
            ) by {
                old(self)@.lemma_filter_pred(not_among(executed_hashes@), i);
            }
        }
    }
}

/// The mathematical entries of a raw entry vector.
pub open spec fn kept_view(entries: Seq<(String, MintNFT)>) -> Seq<(Seq<char>, MintNFT)> {
    Seq::new(entries.len(), |i: int| (entries[i].0@, entries[i].1))
}

/// Collecting garbage twice with the same executed set changes nothing the
/// second time: removal is keyed by hash and idempotent.
pub proof fn lemma_collect_garbage_idempotent(
    entries: Seq<(Seq<char>, MintNFT)>,
    hashes: Seq<Vec<u8>>,
)
    ensures
        entries.filter(not_among(hashes)).filter(not_among(hashes)) == entries.filter(
            not_among(hashes),
        ),
    decreases entries.len(),
{
    let pred = not_among(hashes);
    reveal(Seq::filter);
    if entries.len() == 0 {
    } else {
        lemma_collect_garbage_idempotent(entries.drop_last(), hashes);
        let sub = entries.drop_last().filter(pred);
        if pred(entries.last()) {
            assert(sub.push(entries.last()).drop_last() =~= sub);
        }
    }
}

} // verus!
