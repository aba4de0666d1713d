//! The account ledger: per-token balances, nonces, public-key hashes and
//! minted-NFT metadata, keyed by dense account ids.
//!
//! Each map is modelled as a total function: a balance map assigns an amount
//! to every token id (zero by default), and the account map assigns an
//! optional account to every account id.

use vstd::prelude::*;

use crate::assoc::{
    assoc_find, assoc_index_of, keys_unique, lemma_assoc_find_absent,
    lemma_assoc_find_absent_converse, lemma_assoc_find_at, lemma_assoc_find_push,
    lemma_assoc_find_some_index, lemma_assoc_find_swap_remove, lemma_assoc_find_update,
};
use crate::types::{Address, ContentHash, PubKeyHash};

verus! {

/// Metadata of one minted NFT.
#[derive(Clone, Copy, Debug, PartialEq, Eq)]
pub struct Nft {
    /// The freshly minted token id.
    pub id: u32,
    /// Per-creator serial number.
    pub serial_id: u32,
    /// Account id of the creator.
    pub creator_id: u32,
    /// Derived pseudo-address of the token.
    pub address: Address,
    /// Hash of the token's content.
    pub content_hash: ContentHash,
}

/// Per-token balances of one account; tokens not listed have balance zero.
pub struct BalanceMap {
    /// Unique-keyed (token id, amount) entries.
    pub entries: Vec<(u32, u128)>,
}

/// The NFTs minted by one account, keyed by token id.
pub struct NftMap {
    /// Unique-keyed (token id, metadata) entries.
    pub entries: Vec<(u32, Nft)>,
}

/// The mathematical value of an account.
#[verifier::ext_equal]
pub struct AccountV {
    /// 20-byte chain address.
    pub address: Seq<u8>,
    /// Transaction counter.
    pub nonce: u32,
    /// Registered public-key hash.
    pub pub_key_hash: Seq<u8>,
    /// Total balance function.
    pub balances: Map<u32, u128>,
    /// Total minted-NFT function.
    pub minted: Map<u32, Option<Nft>>,
}

/// One ledger account.
pub struct Account {
    /// 20-byte chain address.
    pub address: Address,
    /// Transaction counter; never decreases.
    pub nonce: u32,
    /// Registered public-key hash.
    pub pub_key_hash: PubKeyHash,
    /// Per-token balances.
    pub balances: BalanceMap,
    /// NFTs this account has minted.
    pub minted_nfts: NftMap,
}

/// The authoritative ledger: account id to account.
pub struct AccountMap {
    /// Unique-keyed (account id, account) entries.
    pub entries: Vec<(u32, Account)>,
}

impl BalanceMap {
    /// Internal representation: unique token keys.
    pub open spec fn wf(&self) -> bool {
        keys_unique(self.entries@)
    }

    /// The amount stored for `t`, zero when absent.
    pub open spec fn spec_balance(&self, t: u32) -> u128 {
        match assoc_find(self.entries@, t) {
            Some(v) => v,
            None => 0,
        }
    }

    /// An empty balance map.
    pub fn new() -> (r: BalanceMap)
        ensures
            r.wf(),
            r@ == Map::new(|t: u32| true, |t: u32| 0u128),
    {
        let r = BalanceMap { entries: Vec::new() };
        proof {
            assert(r@ =~= Map::new(|t: u32| true, |t: u32| 0u128));
        }
        r
    }

    /// The balance of token `t`.
    pub fn get(&self, t: u32) -> (r: u128)
        requires
            self.wf(),
        ensures
            r == self@[t],
    {
        match assoc_index_of(&self.entries, t) {
            Some(i) => {
                proof {
                    lemma_assoc_find_at(self.entries@, i as int);
                }
                self.entries[i].1
            },
            None => {
                proof {
                    lemma_assoc_find_absent(self.entries@, t);
                }
                0
            },
        }
    }

    /// Sets the balance of token `t` to `v`.
    pub fn set(&mut self, t: u32, v: u128)
        requires
            old(self).wf(),
        ensures
            final(self).wf(),
            final(self)@ == old(self)@.insert(t, v),
    {
        match assoc_index_of(&self.entries, t) {
            Some(i) => {
                self.entries.set(i, (t, v));
                proof {
                    assert forall|x: u32| #[trigger] self@[x] == old(self)@.insert(t, v)[x] by {
                        lemma_assoc_find_update(old(self).entries@, i as int, v, x);
                    }
                    assert(self@ =~= old(self)@.insert(t, v));
                    assert(keys_unique(self.entries@)) by {
                        lemma_assoc_find_update(old(self).entries@, i as int, v, t);
                    }
                }
            },
            None => {
                self.entries.push((t, v));
                proof {
                    assert forall|x: u32| #[trigger] self@[x] == old(self)@.insert(t, v)[x] by {
                        lemma_assoc_find_push(old(self).entries@, t, v, x);
                    }
                    assert(self@ =~= old(self)@.insert(t, v));
                    assert(keys_unique(self.entries@)) by {
                        lemma_assoc_find_push(old(self).entries@, t, v, t);
                    }
                }
            },
        }
    }

    /// Whether two balance maps assign every token the same amount.
    pub fn same_view(&self, other: &BalanceMap) -> (r: bool)
        requires
            self.wf(),
            other.wf(),
        ensures
            r == (self@ == other@),
    {
        let n = self.entries.len();
        let mut i: usize = 0;
        while i < n
            invariant
                self.wf(),
                other.wf(),
                n == self.entries@.len(),
                i <= n,
                forall|j: int|
                    0 <= j < i ==> other@[(#[trigger] self.entries@[j]).0] == self.entries@[j].1,
            decreases n - i,
        {
            if other.get(self.entries[i].0) != self.entries[i].1 {
                proof {
                    lemma_assoc_find_at(self.entries@, i as int);
                    let t = self.entries@[i as int].0;
                    assert(self@[t] != other@[t]);
                }
                return false;
            }
            i += 1;
        }
        let m = other.entries.len();
        let mut k: usize = 0;
        while k < m
            invariant
                self.wf(),
                other.wf(),
                m == other.entries@.len(),
                k <= m,
                forall|j: int|
                    0 <= j < self.entries@.len() ==> other@[(#[trigger] self.entries@[j]).0]
                        == self.entries@[j].1,
                forall|j: int|
                    0 <= j < k ==> self@[(#[trigger] other.entries@[j]).0] == other.entries@[j].1,
            decreases m - k,
        {
            if self.get(other.entries[k].0) != other.entries[k].1 {
                proof {
                    lemma_assoc_find_at(other.entries@, k as int);
                    let t = other.entries@[k as int].0;
                    assert(self@[t] != other@[t]);
                }
                return false;
            }
            k += 1;
        }
        proof {
            assert forall|t: u32| #[trigger] self@[t] == other@[t] by {
                if assoc_find(self.entries@, t) is Some {
                    lemma_assoc_find_some_index(self.entries@, t);
                } else if assoc_find(other.entries@, t) is Some {
                    lemma_assoc_find_some_index(other.entries@, t);
                }
            }
            assert(self@ =~= other@);
        }
        true
    }

    /// Whether every token's balance is zero.
    pub fn all_zero(&self) -> (r: bool)
        requires
            self.wf(),
        ensures
            r == (self@ == Map::new(|t: u32| true, |t: u32| 0u128)),
    {
        let n = self.entries.len();
        let mut i: usize = 0;
        while i < n
            invariant
                self.wf(),
                n == self.entries@.len(),
                i <= n,
                forall|j: int| 0 <= j < i ==> (#[trigger] self.entries@[j]).1 == 0u128,
            decreases n - i,
        {
            if self.entries[i].1 != 0 {
                proof {
                    lemma_assoc_find_at(self.entries@, i as int);
                    let t = self.entries@[i as int].0;
                    assert(self@[t] != 0u128);
                    assert(Map::new(|x: u32| true, |x: u32| 0u128)[t] == 0u128);
                }
                return false;
            }
            i += 1;
        }
        proof {
            assert forall|t: u32| #[trigger] self@[t] == 0u128 by {
                if assoc_find(self.entries@, t) is Some {
                    lemma_assoc_find_some_index(self.entries@, t);
                }
            }
            assert(self@ =~= Map::new(|t: u32| true, |t: u32| 0u128));
        }
        true
    }

    /// An entry-for-entry copy.
    pub fn duplicate(&self) -> (r: BalanceMap)
        requires
            self.wf(),
        ensures
            r.wf(),
            r@ == self@,
            r.entries@ == self.entries@,
    {
        let n = self.entries.len();
        let mut entries: Vec<(u32, u128)> = Vec::new();
        let mut i: usize = 0;
        while i < n
            invariant
                n == self.entries@.len(),
                i <= n,
                entries@ == self.entries@.subrange(0, i as int),
            decreases n - i,
        {
            entries.push((self.entries[i].0, self.entries[i].1));
            proof {
                assert(entries@ =~= self.entries@.subrange(0, i + 1));
            }
            i += 1;
        }
        proof {
            assert(self.entries@.subrange(0, n as int) =~= self.entries@);
        }
        BalanceMap { entries }
    }
}

impl View for BalanceMap {
    type V = Map<u32, u128>;

    open spec fn view(&self) -> Map<u32, u128> {
        Map::new(|t: u32| true, |t: u32| self.spec_balance(t))
    }
}

impl NftMap {
    /// Internal representation: unique token keys.
    pub open spec fn wf(&self) -> bool {
        keys_unique(self.entries@)
    }

    /// An empty NFT map.
    pub fn new() -> (r: NftMap)
        ensures
            r.wf(),
            r@ == Map::new(|t: u32| true, |t: u32| None::<Nft>),
    {
        let r = NftMap { entries: Vec::new() };
        proof {
            assert(r@ =~= Map::new(|t: u32| true, |t: u32| None::<Nft>));
        }
        r
    }

    /// The NFT recorded under token id `t`, if any.
    pub fn get(&self, t: u32) -> (r: Option<Nft>)
        requires
            self.wf(),
        ensures
            r == self@[t],
    {
        match assoc_index_of(&self.entries, t) {
            Some(i) => {
                proof {
                    lemma_assoc_find_at(self.entries@, i as int);
                }
                Some(self.entries[i].1)
            },
            None => {
                proof {
                    lemma_assoc_find_absent(self.entries@, t);
                }
                None
            },
        }
    }

    /// Records `nft` under token id `t`.
    pub fn insert(&mut self, t: u32, nft: Nft)
        requires
            old(self).wf(),
        ensures
            final(self).wf(),
            final(self)@ == old(self)@.insert(t, Some(nft)),
    {
        match assoc_index_of(&self.entries, t) {
            Some(i) => {
                self.entries.set(i, (t, nft));
                proof {
                    assert forall|x: u32| #[trigger] self@[x] == old(self)@.insert(t, Some(nft))[x]
                        by {
                        lemma_assoc_find_update(old(self).entries@, i as int, nft, x);
                    }
                    assert(self@ =~= old(self)@.insert(t, Some(nft)));
                    assert(keys_unique(self.entries@)) by {
                        lemma_assoc_find_update(old(self).entries@, i as int, nft, t);
                    }
                }
            },
            None => {
                self.entries.push((t, nft));
                proof {
                    assert forall|x: u32| #[trigger] self@[x] == old(self)@.insert(t, Some(nft))[x]
                        by {
                        lemma_assoc_find_push(old(self).entries@, t, nft, x);
                    }
                    assert(self@ =~= old(self)@.insert(t, Some(nft)));
                    assert(keys_unique(self.entries@)) by {
                        lemma_assoc_find_push(old(self).entries@, t, nft, t);
                    }
                }
            },
        }
    }

    /// Removes the record under token id `t`, if any.
    pub fn remove(&mut self, t: u32)
        requires
            old(self).wf(),
        ensures
            final(self).wf(),
            final(self)@ == old(self)@.insert(t, None),
    {
        match assoc_index_of(&self.entries, t) {
            Some(i) => {
                self.entries.swap_remove(i);
                proof {
                    assert(self.entries@ =~= old(self).entries@.update(
                        i as int,
                        old(self).entries@.last(),
                    ).drop_last());
                    assert forall|x: u32| #[trigger] self@[x] == old(self)@.insert(t, None)[x] by {
                        lemma_assoc_find_swap_remove(old(self).entries@, i as int, x);
                    }
                    assert(self@ =~= old(self)@.insert(t, None));
                    assert(keys_unique(self.entries@)) by {
                        lemma_assoc_find_swap_remove(old(self).entries@, i as int, t);
                    }
                }
            },
            None => {
                proof {
                    assert forall|x: u32| #[trigger] self@[x] == old(self)@.insert(t, None)[x] by {
                        if x == t {
                            lemma_assoc_find_absent(self.entries@, t);
                        }
                    }
                    assert(self@ =~= old(self)@.insert(t, None));
                }
            },
        }
    }

    /// Whether two NFT maps record the same tokens with the same metadata.
    pub fn same_view(&self, other: &NftMap) -> (r: bool)
        requires
            self.wf(),
            other.wf(),
        ensures
            r == (self@ == other@),
    {
        let n = self.entries.len();
        let mut i: usize = 0;
        while i < n
            invariant
                self.wf(),
                other.wf(),
                n == self.entries@.len(),
                i <= n,
                forall|j: int|
                    0 <= j < i ==> other@[(#[trigger] self.entries@[j]).0] == Some(
                        self.entries@[j].1,
                    ),
            decreases n - i,
        {
            let here = self.entries[i].1;
            let matching = match other.get(self.entries[i].0) {
                Some(found) => nft_eq(&found, &here),
                None => false,
            };
            if !matching {
                proof {
                    lemma_assoc_find_at(self.entries@, i as int);
                    let t = self.entries@[i as int].0;
                    assert(self@[t] != other@[t]);
                }
                return false;
            }
            i += 1;
        }
        let m = other.entries.len();
        let mut k: usize = 0;
        while k < m
            invariant
                self.wf(),
                other.wf(),
                m == other.entries@.len(),
                k <= m,
                forall|j: int|
                    0 <= j < self.entries@.len() ==> other@[(#[trigger] self.entries@[j]).0]
                        == Some(self.entries@[j].1),
                forall|j: int| 0 <= j < k ==> self@[(#[trigger] other.entries@[j]).0] is Some,
            decreases m - k,
        {
            if self.get(other.entries[k].0).is_none() {
                proof {
                    lemma_assoc_find_at(other.entries@, k as int);
                    let t = other.entries@[k as int].0;
                    assert(self@[t] != other@[t]);
                }
                return false;
            }
            k += 1;
        }
        proof {
            assert forall|t: u32| #[trigger] self@[t] == other@[t] by {
                if assoc_find(self.entries@, t) is Some {
                    lemma_assoc_find_some_index(self.entries@, t);
                } else if assoc_find(other.entries@, t) is Some {
                    lemma_assoc_find_some_index(other.entries@, t);
                }
            }
            assert(self@ =~= other@);
        }
        true
    }

    /// Whether no NFT is recorded at all.
    pub fn none_recorded(&self) -> (r: bool)
        requires
            self.wf(),
        ensures
            r == (self@ == Map::new(|t: u32| true, |t: u32| None::<Nft>)),
    {
        if self.entries.len() == 0 {
            proof {
                assert(self@ =~= Map::new(|t: u32| true, |t: u32| None::<Nft>));
            }
            true
        } else {
            proof {
                lemma_assoc_find_at(self.entries@, 0);
                let t = self.entries@[0].0;
                assert(self@[t] is Some);
                assert(Map::new(|x: u32| true, |x: u32| None::<Nft>)[t] is None);
            }
            false
        }
    }

    /// An entry-for-entry copy.
    pub fn duplicate(&self) -> (r: NftMap)
        requires
            self.wf(),
        ensures
            r.wf(),
            r@ == self@,
            r.entries@ == self.entries@,
    {
        let n = self.entries.len();
        let mut entries: Vec<(u32, Nft)> = Vec::new();
        let mut i: usize = 0;
        while i < n
            invariant
                n == self.entries@.len(),
                i <= n,
                entries@ == self.entries@.subrange(0, i as int),
            decreases n - i,
        {
            entries.push((self.entries[i].0, self.entries[i].1));
            proof {
                assert(entries@ =~= self.entries@.subrange(0, i + 1));
            }
            i += 1;
        }
        proof {
            assert(self.entries@.subrange(0, n as int) =~= self.entries@);
        }
        NftMap { entries }
    }
}

impl View for NftMap {
    type V = Map<u32, Option<Nft>>;

    open spec fn view(&self) -> Map<u32, Option<Nft>> {
        Map::new(|t: u32| true, |t: u32| assoc_find(self.entries@, t))
    }
}

/// Whether two NFT records are equal field for field.
pub fn nft_eq(a: &Nft, b: &Nft) -> (r: bool)
    ensures
        r == (*a == *b),
{
    let r = a.id == b.id && a.serial_id == b.serial_id && a.creator_id == b.creator_id
        && a.address.same_as(&b.address) && a.content_hash.same_as(&b.content_hash);
    proof {
        if a.address@ == b.address@ && a.content_hash@ == b.content_hash@ {
            assert(a.address.bytes@ =~= b.address.bytes@);
            assert(a.address.bytes == b.address.bytes);
            assert(a.content_hash.bytes@ =~= b.content_hash.bytes@);
            assert(a.content_hash.bytes == b.content_hash.bytes);
        }
    }
    r
}

/// The value of a freshly created account at `addr`.
pub open spec fn fresh_account(addr: Seq<u8>) -> AccountV {
    AccountV {
        address: addr,
        nonce: 0,
        pub_key_hash: Seq::new(20, |i: int| 0u8),
        balances: Map::new(|t: u32| true, |t: u32| 0u128),
        minted: Map::new(|t: u32| true, |t: u32| None::<Nft>),
    }
}

/// A fresh account carrying a recorded nonce.
pub open spec fn created_account(addr: Seq<u8>, nonce: u32) -> AccountV {
    AccountV { nonce, ..fresh_account(addr) }
}

impl Account {
    /// Internal representation soundness.
    pub open spec fn wf(&self) -> bool {
        self.balances.wf() && self.minted_nfts.wf()
    }

    /// A fresh account at `addr`: zero nonce, zero key, no balances.
    pub fn fresh(addr: Address) -> (r: Account)
        ensures
            r.wf(),
            r@ == fresh_account(addr@),
    {
        let r = Account {
            address: addr,
            nonce: 0,
            pub_key_hash: PubKeyHash::zero(),
            balances: BalanceMap::new(),
            minted_nfts: NftMap::new(),
        };
        proof {
            assert(r@ =~= fresh_account(addr@));
        }
        r
    }

    /// Whether two accounts have the same value.
    pub fn same_view(&self, other: &Account) -> (r: bool)
        requires
            self.wf(),
            other.wf(),
        ensures
            r == (self@ == other@),
    {
        let r = self.address.same_as(&other.address) && self.nonce == other.nonce
            && self.pub_key_hash.same_as(&other.pub_key_hash) && self.balances.same_view(
            &other.balances,
        ) && self.minted_nfts.same_view(&other.minted_nfts);
        proof {
            if r {
                assert(self@ =~= other@);
            } else {
                assert(self@ != other@);
            }
        }
        r
    }

    /// A field-for-field copy.
    pub fn duplicate(&self) -> (r: Account)
        requires
            self.wf(),
        ensures
            r.wf(),
            r@ == self@,
    {
        Account {
            address: self.address,
            nonce: self.nonce,
            pub_key_hash: self.pub_key_hash,
            balances: self.balances.duplicate(),
            minted_nfts: self.minted_nfts.duplicate(),
        }
    }
}

impl View for Account {
    type V = AccountV;

    open spec fn view(&self) -> AccountV {
        AccountV {
            address: self.address@,
            nonce: self.nonce,
            pub_key_hash: self.pub_key_hash@,
            balances: self.balances@,
            minted: self.minted_nfts@,
        }
    }
}

/// `a` with the balance of `t` set to `v` and the nonce set to `n`.
pub open spec fn with_balance(a: AccountV, t: u32, v: u128, n: u32) -> AccountV {
    AccountV { balances: a.balances.insert(t, v), nonce: n, ..a }
}

/// `a` with the public-key hash set to `pkh` and the nonce set to `n`.
pub open spec fn with_pub_key_hash(a: AccountV, pkh: Seq<u8>, n: u32) -> AccountV {
    AccountV { pub_key_hash: pkh, nonce: n, ..a }
}

/// `a` with the minted-NFT record of `t` set to `o`.
pub open spec fn with_nft(a: AccountV, t: u32, o: Option<Nft>) -> AccountV {
    AccountV { minted: a.minted.insert(t, o), ..a }
}

impl AccountMap {
    /// Internal representation: unique account ids, well-formed accounts.
    pub open spec fn wf(&self) -> bool {
        &&& keys_unique(self.entries@)
        &&& forall|i: int| 0 <= i < self.entries@.len() ==> (#[trigger] self.entries@[i]).1.wf()
    }

    /// An empty ledger.
    pub fn new() -> (r: AccountMap)
        ensures
            r.wf(),
            r@ == Map::new(|id: u32| true, |id: u32| None::<AccountV>),
    {
        let r = AccountMap { entries: Vec::new() };
        proof {
            assert(r@ =~= Map::new(|id: u32| true, |id: u32| None::<AccountV>));
        }
        r
    }

    /// Whether an account with this id exists.
    pub fn has_account(&self, id: u32) -> (r: bool)
        requires
            self.wf(),
        ensures
            r == (self@[id] is Some),
    {
        match assoc_index_of(&self.entries, id) {
            Some(i) => {
                proof {
                    lemma_assoc_find_at(self.entries@, i as int);
                }
                true
            },
            None => {
                proof {
                    lemma_assoc_find_absent(self.entries@, id);
                }
                false
            },
        }
    }

    /// The nonce of an existing account.
    pub fn nonce_of(&self, id: u32) -> (r: u32)
        requires
            self.wf(),
            self@[id] is Some,
        ensures
            r == self@[id]->0.nonce,
    {
        let i = self.index_of_existing(id);
        self.entries[i].1.nonce
    }

    /// The address of an existing account.
    pub fn address_of(&self, id: u32) -> (r: Address)
        requires
            self.wf(),
            self@[id] is Some,
        ensures
            r@ == self@[id]->0.address,
    {
        let i = self.index_of_existing(id);
        self.entries[i].1.address
    }

    /// The balance an existing account holds in token `t`.
    pub fn balance_of(&self, id: u32, t: u32) -> (r: u128)
        requires
            self.wf(),
            self@[id] is Some,
        ensures
            r == self@[id]->0.balances[t],
    {
        let i = self.index_of_existing(id);
        self.entries[i].1.balances.get(t)
    }

    /// The public-key hash of an existing account.
    pub fn pub_key_hash_of(&self, id: u32) -> (r: PubKeyHash)
        requires
            self.wf(),
            self@[id] is Some,
        ensures
            r@ == self@[id]->0.pub_key_hash,
    {
        let i = self.index_of_existing(id);
        self.entries[i].1.pub_key_hash
    }

    /// Whether an existing account holds no balance in any token.
    pub fn balances_all_zero(&self, id: u32) -> (r: bool)
        requires
            self.wf(),
            self@[id] is Some,
        ensures
            r == (self@[id]->0.balances == Map::new(|t: u32| true, |t: u32| 0u128)),
    {
        let i = self.index_of_existing(id);
        self.entries[i].1.balances.all_zero()
    }

    /// Whether an existing account has no NFT metadata recorded.
    pub fn minted_none(&self, id: u32) -> (r: bool)
        requires
            self.wf(),
            self@[id] is Some,
        ensures
            r == (self@[id]->0.minted == Map::new(|t: u32| true, |t: u32| None::<Nft>)),
    {
        let i = self.index_of_existing(id);
        self.entries[i].1.minted_nfts.none_recorded()
    }

    /// The NFT an existing account has recorded under token id `t`, if any.
    pub fn nft_of(&self, id: u32, t: u32) -> (r: Option<Nft>)
        requires
            self.wf(),
            self@[id] is Some,
        ensures
            r == self@[id]->0.minted[t],
    {
        let i = self.index_of_existing(id);
        self.entries[i].1.minted_nfts.get(t)
    }

    /// The id of some account registered at `addr`, if any is.
    pub fn get_account_by_address(&self, addr: &Address) -> (r: Option<u32>)
        requires
            self.wf(),
        ensures
            match r {
                Some(id) => self@[id] is Some && self@[id]->0.address == addr@,
                None => forall|id: u32| self@[id] is Some ==> (#[trigger] self@[id])->0.address
                    != addr@,
            },
    {
        let n = self.entries.len();
        let mut i: usize = 0;
        while i < n
            invariant
                self.wf(),
                n == self.entries@.len(),
                i <= n,
                forall|j: int| 0 <= j < i ==> (#[trigger] self.entries@[j]).1.address@ != addr@,
            decreases n - i,
        {
            if self.entries[i].1.address.same_as(addr) {
                proof {
                    lemma_assoc_find_at(self.entries@, i as int);
                }
                return Some(self.entries[i].0);
            }
            i += 1;
        }
        proof {
            assert forall|id: u32| self@[id] is Some implies (#[trigger] self@[id])->0.address
                != addr@ by {
                lemma_assoc_find_some_index(self.entries@, id);
            }
        }
        None
    }

    /// Creates a fresh account under an unused id.
    pub fn create_account(&mut self, id: u32, addr: Address)
        requires
            old(self).wf(),
            old(self)@[id] is None,
        ensures
            final(self).wf(),
            final(self)@ == old(self)@.insert(id, Some(fresh_account(addr@))),
    {
        proof {
            if exists|j: int|
                0 <= j < self.entries@.len() && (#[trigger] self.entries@[j]).0 == id {
                let j = choose|j: int|
                    0 <= j < self.entries@.len() && (#[trigger] self.entries@[j]).0 == id;
                lemma_assoc_find_at(self.entries@, j);
            }
        }
        let a = Account::fresh(addr);
        self.entries.push((id, a));
        proof {
            assert forall|x: u32| #[trigger] self@[x] == old(self)@.insert(
                id,
                Some(fresh_account(addr@)),
            )[x] by {
                lemma_assoc_find_push(old(self).entries@, id, a, x);
            }
            assert(self@ =~= old(self)@.insert(id, Some(fresh_account(addr@))));
            assert(keys_unique(self.entries@)) by {
                lemma_assoc_find_push(old(self).entries@, id, a, id);
            }
        }
    }

    /// Creates a fresh account with a recorded nonce under an unused id.
    pub fn create_account_with_nonce(&mut self, id: u32, addr: Address, nonce: u32)
        requires
            old(self).wf(),
            old(self)@[id] is None,
        ensures
            final(self).wf(),
            final(self)@ == old(self)@.insert(id, Some(created_account(addr@, nonce))),
    {
        proof {
            if exists|j: int|
                0 <= j < self.entries@.len() && (#[trigger] self.entries@[j]).0 == id {
                let j = choose|j: int|
                    0 <= j < self.entries@.len() && (#[trigger] self.entries@[j]).0 == id;
                lemma_assoc_find_at(self.entries@, j);
            }
        }
        let mut a = Account::fresh(addr);
        a.nonce = nonce;
        proof {
            assert(a@ =~= created_account(addr@, nonce));
        }
        self.entries.push((id, a));
        proof {
            assert forall|x: u32| #[trigger] self@[x] == old(self)@.insert(
                id,
                Some(created_account(addr@, nonce)),
            )[x] by {
                lemma_assoc_find_push(old(self).entries@, id, a, x);
            }
            assert(self@ =~= old(self)@.insert(id, Some(created_account(addr@, nonce))));
            assert(keys_unique(self.entries@)) by {
                lemma_assoc_find_push(old(self).entries@, id, a, id);
            }
        }
    }

    /// Removes the account under `id`, if present.
    pub fn delete_account(&mut self, id: u32)
        requires
            old(self).wf(),
        ensures
            final(self).wf(),
            final(self)@ == old(self)@.insert(id, None),
    {
        match assoc_index_of(&self.entries, id) {
            Some(i) => {
                self.entries.swap_remove(i);
                proof {
                    assert(self.entries@ =~= old(self).entries@.update(
                        i as int,
                        old(self).entries@.last(),
                    ).drop_last());
                    assert forall|x: u32| #[trigger] self@[x] == old(self)@.insert(id, None)[x] by {
                        lemma_assoc_find_swap_remove(old(self).entries@, i as int, x);
                    }
                    assert(self@ =~= old(self)@.insert(id, None));
                    assert(keys_unique(self.entries@)) by {
                        lemma_assoc_find_swap_remove(old(self).entries@, i as int, id);
                    }
                    assert forall|j: int|
                        0 <= j < self.entries@.len() implies (#[trigger] self.entries@[j]).1.wf()
                        by {
                        if j == i {
                            assert(self.entries@[j] == old(self).entries@.last());
                        } else {
                            assert(self.entries@[j] == old(self).entries@[j]);
                        }
                    }
                }
            },
            None => {
                proof {
                    assert forall|x: u32| #[trigger] self@[x] == old(self)@.insert(id, None)[x] by {
                        if x == id {
                            lemma_assoc_find_absent(self.entries@, id);
                        }
                    }
                    assert(self@ =~= old(self)@.insert(id, None));
                }
            },
        }
    }

    /// Sets the balance of token `t` and the nonce of an existing account.
    pub fn apply_balance_update(&mut self, id: u32, t: u32, v: u128, new_nonce: u32)
        requires
            old(self).wf(),
            old(self)@[id] is Some,
        ensures
            final(self).wf(),
            final(self)@ == old(self)@.insert(
                id,
                Some(with_balance(old(self)@[id]->0, t, v, new_nonce)),
            ),
    {
        let i = self.index_of_existing(id);
        let mut tmp: (u32, Account) = (id, Account::fresh(Address::zero()));
        self.entries.set_and_swap(i, &mut tmp);
        tmp.1.balances.set(t, v);
        tmp.1.nonce = new_nonce;
        self.entries.set_and_swap(i, &mut tmp);
        proof {
            self.lemma_two_updates(
                old(self).entries@,
                i as int,
                Some(with_balance(old(self)@[id]->0, t, v, new_nonce)),
            );
        }
    }

    /// Sets the public-key hash and the nonce of an existing account.
    pub fn apply_pub_key_update(&mut self, id: u32, pkh: PubKeyHash, new_nonce: u32)
        requires
            old(self).wf(),
            old(self)@[id] is Some,
        ensures
            final(self).wf(),
            final(self)@ == old(self)@.insert(
                id,
                Some(with_pub_key_hash(old(self)@[id]->0, pkh@, new_nonce)),
            ),
    {
        let i = self.index_of_existing(id);
        let mut tmp: (u32, Account) = (id, Account::fresh(Address::zero()));
        self.entries.set_and_swap(i, &mut tmp);
        tmp.1.pub_key_hash = pkh;
        tmp.1.nonce = new_nonce;
        self.entries.set_and_swap(i, &mut tmp);
        proof {
            self.lemma_two_updates(
                old(self).entries@,
                i as int,
                Some(with_pub_key_hash(old(self)@[id]->0, pkh@, new_nonce)),
            );
        }
    }

    /// Records minted-NFT metadata on an existing account.
    pub fn record_nft(&mut self, id: u32, t: u32, nft: Nft)
        requires
            old(self).wf(),
            old(self)@[id] is Some,
        ensures
            final(self).wf(),
            final(self)@ == old(self)@.insert(
                id,
                Some(with_nft(old(self)@[id]->0, t, Some(nft))),
            ),
    {
        let i = self.index_of_existing(id);
        let mut tmp: (u32, Account) = (id, Account::fresh(Address::zero()));
        self.entries.set_and_swap(i, &mut tmp);
        tmp.1.minted_nfts.insert(t, nft);
        self.entries.set_and_swap(i, &mut tmp);
        proof {
            self.lemma_two_updates(
                old(self).entries@,
                i as int,
                Some(with_nft(old(self)@[id]->0, t, Some(nft))),
            );
        }
    }

    /// Drops the minted-NFT record under token id `t` from an existing account.
    pub fn unrecord_nft(&mut self, id: u32, t: u32)
        requires
            old(self).wf(),
            old(self)@[id] is Some,
        ensures
            final(self).wf(),
            final(self)@ == old(self)@.insert(id, Some(with_nft(old(self)@[id]->0, t, None))),
    {
        let i = self.index_of_existing(id);
        let mut tmp: (u32, Account) = (id, Account::fresh(Address::zero()));
        self.entries.set_and_swap(i, &mut tmp);
        tmp.1.minted_nfts.remove(t);
        self.entries.set_and_swap(i, &mut tmp);
        proof {
            self.lemma_two_updates(
                old(self).entries@,
                i as int,
                Some(with_nft(old(self)@[id]->0, t, None)),
            );
        }
    }

    /// Whether two ledgers hold the same accounts with the same values.
    pub fn same_view(&self, other: &AccountMap) -> (r: bool)
        requires
            self.wf(),
            other.wf(),
        ensures
            r == (self@ == other@),
    {
        let n = self.entries.len();
        let mut i: usize = 0;
        while i < n
            invariant
                self.wf(),
                other.wf(),
                n == self.entries@.len(),
                i <= n,
                forall|j: int|
                    0 <= j < i ==> other@[(#[trigger] self.entries@[j]).0] == Some(
                        self.entries@[j].1@,
                    ),
            decreases n - i,
        {
            let id = self.entries[i].0;
            let matching = match assoc_index_of(&other.entries, id) {
                Some(k) => {
                    proof {
                        lemma_assoc_find_at(other.entries@, k as int);
                    }
                    self.entries[i].1.same_view(&other.entries[k].1)
                },
                None => {
                    proof {
                        lemma_assoc_find_absent(other.entries@, id);
                    }
                    false
                },
            };
            if !matching {
                proof {
                    lemma_assoc_find_at(self.entries@, i as int);
                    assert(self@[id] != other@[id]);
                }
                return false;
            }
            i += 1;
        }
        let m = other.entries.len();
        let mut k: usize = 0;
        while k < m
            invariant
                self.wf(),
                other.wf(),
                m == other.entries@.len(),
                k <= m,
                forall|j: int|
                    0 <= j < self.entries@.len() ==> other@[(#[trigger] self.entries@[j]).0]
                        == Some(self.entries@[j].1@),
                forall|j: int| 0 <= j < k ==> self@[(#[trigger] other.entries@[j]).0] is Some,
            decreases m - k,
        {
            if !self.has_account(other.entries[k].0) {
                proof {
                    lemma_assoc_find_at(other.entries@, k as int);
                    let id = other.entries@[k as int].0;
                    assert(other@[id] is Some);
                    assert(self@[id] != other@[id]);
                }
                return false;
            }
            k += 1;
        }
        proof {
            assert forall|id: u32| #[trigger] self@[id] == other@[id] by {
                if assoc_find(self.entries@, id) is Some {
                    lemma_assoc_find_some_index(self.entries@, id);
                } else if assoc_find(other.entries@, id) is Some {
                    lemma_assoc_find_some_index(other.entries@, id);
                }
            }
            assert(self@ =~= other@);
        }
        true
    }

    /// An account-for-account copy of the ledger.
    pub fn duplicate(&self) -> (r: AccountMap)
        requires
            self.wf(),
        ensures
            r.wf(),
            r@ == self@,
    {
        let n = self.entries.len();
        let mut entries: Vec<(u32, Account)> = Vec::new();
        let mut i: usize = 0;
        while i < n
            invariant
                self.wf(),
                n == self.entries@.len(),
                i <= n,
                entries@.len() == i,
                forall|j: int|
                    0 <= j < i ==> (#[trigger] entries@[j]).0 == self.entries@[j].0
                        && entries@[j].1.wf() && entries@[j].1@ == self.entries@[j].1@,
            decreases n - i,
        {
            let a = self.entries[i].1.duplicate();
            entries.push((self.entries[i].0, a));
            i += 1;
        }
        let r = AccountMap { entries };
        proof {
            assert(keys_unique(r.entries@)) by {
                assert forall|a: int, b: int| 0 <= a < b < r.entries@.len() implies (
                #[trigger] r.entries@[a]).0 != (#[trigger] r.entries@[b]).0 by {
                    assert(self.entries@[a].0 != self.entries@[b].0);
                }
            }
            assert forall|x: u32| #[trigger] r@[x] == self@[x] by {
                if assoc_find(self.entries@, x) is Some {
                    lemma_assoc_find_some_index(self.entries@, x);
                    let j = choose|j: int|
                        0 <= j < self.entries@.len() && (#[trigger] self.entries@[j]).0 == x
                            && self.entries@[j].1 == assoc_find(self.entries@, x)->0;
                    lemma_assoc_find_at(self.entries@, j);
                    lemma_assoc_find_at(r.entries@, j);
                } else {
                    lemma_assoc_find_absent_converse(self.entries@, x);
                    assert(forall|j: int|
                        0 <= j < r.entries@.len() ==> (#[trigger] r.entries@[j]).0 != x);
                    lemma_assoc_find_absent(r.entries@, x);
                }
            }
            assert(r@ =~= self@);
        }
        r
    }

    /// Index of an account known to exist.
    fn index_of_existing(&self, id: u32) -> (i: usize)
        requires
            self.wf(),
            self@[id] is Some,
        ensures
            i < self.entries@.len(),
            self.entries@[i as int].0 == id,
            self.entries@[i as int].1@ == self@[id]->0,
            self.entries@[i as int].1.wf(),
    {
        match assoc_index_of(&self.entries, id) {
            Some(i) => {
                proof {
                    lemma_assoc_find_at(self.entries@, i as int);
                }
                i
            },
            None => {
                proof {
                    lemma_assoc_find_absent(self.entries@, id);
                }
                unreached()
            },
        }
    }

    /// After swapping a dummy in and the modified account back out at `i`,
    /// the ledger's view has one point update.
    proof fn lemma_two_updates(&self, prev: Seq<(u32, Account)>, i: int, v: Option<AccountV>)
        requires
            keys_unique(prev),
            forall|j: int| 0 <= j < prev.len() ==> (#[trigger] prev[j]).1.wf(),
            0 <= i < prev.len(),
            self.entries@.len() == prev.len(),
            self.entries@[i].0 == prev[i].0,
            self.entries@[i].1.wf(),
            Some(self.entries@[i].1@) == v,
            forall|j: int| 0 <= j < prev.len() && j != i ==> #[trigger] self.entries@[j] == prev[j],
        ensures
            self.wf(),
            self@ == Map::new(
                |id: u32| true,
                |id: u32|
                    match assoc_find(prev, id) {
                        Some(a) => Some(a@),
                        None => None,
                    },
            ).insert(prev[i].0, v),
    {
        let id = prev[i].0;
        assert(self.entries@ =~= prev.update(i, (id, self.entries@[i].1)));
        let prior = Map::new(
            |x: u32| true,
            |x: u32|
                match assoc_find(prev, x) {
                    Some(a) => Some(a@),
                    None => None,
                },
        );
        assert forall|x: u32| #[trigger] self@[x] == prior.insert(id, v)[x] by {
            lemma_assoc_find_update(prev, i, self.entries@[i].1, x);
        }
        assert(self@ =~= prior.insert(id, v));
        assert(keys_unique(self.entries@)) by {
            lemma_assoc_find_update(prev, i, self.entries@[i].1, id);
        }
    }
}

impl View for AccountMap {
    type V = Map<u32, Option<AccountV>>;

    open spec fn view(&self) -> Map<u32, Option<AccountV>> {
        Map::new(
            |id: u32| true,
            |id: u32|
                match assoc_find(self.entries@, id) {
                    Some(a) => Some(a@),
                    None => None,
                },
        )
    }
}

} // verus!
