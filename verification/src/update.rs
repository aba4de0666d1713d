//! Account updates: the atomic, append-only ledger deltas, their replay
//! semantics, and their inversion.
//!
//! An update is *coherent* with a ledger when the old values it records match
//! that ledger; replaying an incoherent update is a fatal error, never a
//! silent overwrite.  Coherent updates are invertible, which is what makes
//! backward state diffs exact.

use vstd::prelude::*;

use crate::account::{
    created_account, nft_eq, with_balance, with_nft, with_pub_key_hash, AccountMap, AccountV, Nft,
};
use crate::errors::FatalError;
use crate::types::{Address, PubKeyHash};

verus! {

/// One atomic ledger delta, keyed externally by the account id it touches.
#[derive(Clone, Copy, Debug, PartialEq, Eq)]
#[allow(inconsistent_fields)]
pub enum AccountUpdate {
    /// A new account appears at `address`.
    Create { address: Address, nonce: u32 },
    /// A fresh account disappears again (only as the inverse of `Create`).
    Delete { address: Address, nonce: u32 },
    /// One token balance moves from `old_balance` to `new_balance`.
    UpdateBalance {
        token: u32,
        old_balance: u128,
        new_balance: u128,
        old_nonce: u32,
        new_nonce: u32,
    },
    /// The registered public-key hash changes.
    ChangePubKeyHash {
        old_pub_key_hash: PubKeyHash,
        new_pub_key_hash: PubKeyHash,
        old_nonce: u32,
        new_nonce: u32,
    },
    /// NFT metadata is recorded on the creator account.
    MintNFT { token: Nft },
    /// NFT metadata is dropped again (only as the inverse of `MintNFT`).
    RemoveNFT { token: Nft },
}

/// Whether an account model assigns a balance and an NFT record to every
/// token id, as every account view does.
pub open spec fn account_total(a: AccountV) -> bool {
    &&& forall|t: u32| a.balances.dom().contains(t)
    &&& forall|t: u32| a.minted.dom().contains(t)
}

/// Whether a ledger model assigns a value (possibly `None`) to every id,
/// as every ledger view does.
pub open spec fn state_total(s: Map<u32, Option<AccountV>>) -> bool {
    &&& forall|id: u32| s.dom().contains(id)
    &&& forall|id: u32| (#[trigger] s[id]) is Some ==> account_total(s[id]->0)
}

/// Replaying any update keeps the ledger model total.
pub proof fn lemma_apply_preserves_total(
    s: Map<u32, Option<AccountV>>,
    id: u32,
    u: AccountUpdate,
)
    requires
        state_total(s),
        update_coherent(s, id, u),
    ensures
        state_total(apply_update_s(s, id, u)),
{
    let s1 = apply_update_s(s, id, u);
    assert forall|x: u32| (#[trigger] s1[x]) is Some implies account_total(s1[x]->0) by {
        if x != id {
            assert(s1[x] == s[x]);
        }
    }
}

/// Replaying a coherent sequence keeps the ledger model total.
pub proof fn lemma_apply_updates_preserves_total(
    s: Map<u32, Option<AccountV>>,
    us: Seq<(u32, AccountUpdate)>,
)
    requires
        state_total(s),
        updates_coherent(s, us),
    ensures
        state_total(apply_updates_s(s, us)),
    decreases us.len(),
{
    if us.len() > 0 {
        lemma_apply_preserves_total(s, us[0].0, us[0].1);
        lemma_apply_updates_preserves_total(apply_update_s(s, us[0].0, us[0].1), us.drop_first());
    }
}

/// Whether the old values recorded in `u` match the ledger `s`.
pub open spec fn update_coherent(
    s: Map<u32, Option<AccountV>>,
    id: u32,
    u: AccountUpdate,
) -> bool {
    match u {
        AccountUpdate::Create { address, nonce } => s[id] is None,
        AccountUpdate::Delete { address, nonce } => s[id] == Some(created_account(address@, nonce)),
        AccountUpdate::UpdateBalance { token, old_balance, new_balance, old_nonce, new_nonce } => {
            &&& s[id] is Some
            &&& s[id]->0.nonce == old_nonce
            &&& s[id]->0.balances[token] == old_balance
        },
        AccountUpdate::ChangePubKeyHash {
            old_pub_key_hash,
            new_pub_key_hash,
            old_nonce,
            new_nonce,
        } => {
            &&& s[id] is Some
            &&& s[id]->0.nonce == old_nonce
            &&& s[id]->0.pub_key_hash == old_pub_key_hash@
        },
        AccountUpdate::MintNFT { token } => s[id] is Some && s[id]->0.minted[token.id] is None,
        AccountUpdate::RemoveNFT { token } => s[id] is Some && s[id]->0.minted[token.id] == Some(
            token,
        ),
    }
}

/// The ledger after replaying `u` on account `id`.
pub open spec fn apply_update_s(
    s: Map<u32, Option<AccountV>>,
    id: u32,
    u: AccountUpdate,
) -> Map<u32, Option<AccountV>> {
    match u {
        AccountUpdate::Create { address, nonce } => s.insert(
            id,
            Some(created_account(address@, nonce)),
        ),
        AccountUpdate::Delete { address, nonce } => s.insert(id, None),
        AccountUpdate::UpdateBalance { token, old_balance, new_balance, old_nonce, new_nonce } => s
            .insert(id, Some(with_balance(s[id]->0, token, new_balance, new_nonce))),
        AccountUpdate::ChangePubKeyHash {
            old_pub_key_hash,
            new_pub_key_hash,
            old_nonce,
            new_nonce,
        } => s.insert(id, Some(with_pub_key_hash(s[id]->0, new_pub_key_hash@, new_nonce))),
        AccountUpdate::MintNFT { token } => s.insert(
            id,
            Some(with_nft(s[id]->0, token.id, Some(token))),
        ),
        AccountUpdate::RemoveNFT { token } => s.insert(id, Some(with_nft(s[id]->0, token.id, None))),
    }
}

/// The update that undoes `u`.
pub open spec fn inverse_update_s(u: AccountUpdate) -> AccountUpdate {
    match u {
        AccountUpdate::Create { address, nonce } => AccountUpdate::Delete { address, nonce },
        AccountUpdate::Delete { address, nonce } => AccountUpdate::Create { address, nonce },
        AccountUpdate::UpdateBalance {
            token,
            old_balance,
            new_balance,
            old_nonce,
            new_nonce,
        } => AccountUpdate::UpdateBalance {
            token,
            old_balance: new_balance,
            new_balance: old_balance,
            old_nonce: new_nonce,
            new_nonce: old_nonce,
        },
        AccountUpdate::ChangePubKeyHash {
            old_pub_key_hash,
            new_pub_key_hash,
            old_nonce,
            new_nonce,
        } => AccountUpdate::ChangePubKeyHash {
            old_pub_key_hash: new_pub_key_hash,
            new_pub_key_hash: old_pub_key_hash,
            old_nonce: new_nonce,
            new_nonce: old_nonce,
        },
        AccountUpdate::MintNFT { token } => AccountUpdate::RemoveNFT { token },
        AccountUpdate::RemoveNFT { token } => AccountUpdate::MintNFT { token },
    }
}

/// The ledger after replaying a whole sequence of updates, first to last.
pub open spec fn apply_updates_s(
    s: Map<u32, Option<AccountV>>,
    us: Seq<(u32, AccountUpdate)>,
) -> Map<u32, Option<AccountV>>
    decreases us.len(),
{
    if us.len() == 0 {
        s
    } else {
        apply_updates_s(apply_update_s(s, us[0].0, us[0].1), us.drop_first())
    }
}

/// Whether every update in the sequence matches the ledger it meets.
pub open spec fn updates_coherent(
    s: Map<u32, Option<AccountV>>,
    us: Seq<(u32, AccountUpdate)>,
) -> bool
    decreases us.len(),
{
    us.len() == 0 || (update_coherent(s, us[0].0, us[0].1) && updates_coherent(
        apply_update_s(s, us[0].0, us[0].1),
        us.drop_first(),
    ))
}

/// The sequence that rolls a replay back: inverses, last to first.
pub open spec fn inverse_updates_s(us: Seq<(u32, AccountUpdate)>) -> Seq<(u32, AccountUpdate)> {
    Seq::new(
        us.len(),
        |i: int| (us[us.len() - 1 - i].0, inverse_update_s(us[us.len() - 1 - i].1)),
    )
}

/// Replaying one update is one replay step.
pub proof fn lemma_apply_single(s: Map<u32, Option<AccountV>>, id: u32, u: AccountUpdate)
    ensures
        apply_updates_s(s, seq![(id, u)]) == apply_update_s(s, id, u),
        updates_coherent(s, seq![(id, u)]) == update_coherent(s, id, u),
{
    let single = seq![(id, u)];
    let s1 = apply_update_s(s, id, u);
    assert(single.drop_first() =~= Seq::<(u32, AccountUpdate)>::empty());
    assert(apply_updates_s(s1, single.drop_first()) == s1);
    assert(updates_coherent(s1, single.drop_first()));
}

/// Replaying a concatenation is replaying both halves in order, and it is
/// coherent exactly when each half is coherent where it starts.
pub proof fn lemma_apply_append(
    s: Map<u32, Option<AccountV>>,
    a: Seq<(u32, AccountUpdate)>,
    b: Seq<(u32, AccountUpdate)>,
)
    ensures
        apply_updates_s(s, a + b) == apply_updates_s(apply_updates_s(s, a), b),
        updates_coherent(s, a + b) == (updates_coherent(s, a) && updates_coherent(
            apply_updates_s(s, a),
            b,
        )),
    decreases a.len(),
{
    if a.len() == 0 {
        assert(a + b =~= b);
    } else {
        let s1 = apply_update_s(s, a[0].0, a[0].1);
        lemma_apply_append(s1, a.drop_first(), b);
        assert((a + b).drop_first() =~= a.drop_first() + b);
        assert((a + b)[0] == a[0]);
    }
}

/// A coherent update is undone exactly by its inverse, and the inverse is
/// itself coherent where the update left off.
pub proof fn lemma_single_inverse(s: Map<u32, Option<AccountV>>, id: u32, u: AccountUpdate)
    requires
        state_total(s),
        update_coherent(s, id, u),
    ensures
        update_coherent(apply_update_s(s, id, u), id, inverse_update_s(u)),
        apply_update_s(apply_update_s(s, id, u), id, inverse_update_s(u)) == s,
{
    let s1 = apply_update_s(s, id, u);
    let s2 = apply_update_s(s1, id, inverse_update_s(u));
    match u {
        AccountUpdate::Create { address, nonce } => {
            assert(s2 =~= s);
        },
        AccountUpdate::Delete { address, nonce } => {
            assert(s[id] == Some(created_account(address@, nonce)));
            assert(s2 =~= s);
        },
        AccountUpdate::UpdateBalance { token, old_balance, new_balance, old_nonce, new_nonce } => {
            let a = s[id]->0;
            let a1 = with_balance(a, token, new_balance, new_nonce);
            let a2 = with_balance(a1, token, old_balance, old_nonce);
            assert(a2.balances =~= a.balances);
            assert(a2 =~= a);
            assert(s2 =~= s);
        },
        AccountUpdate::ChangePubKeyHash {
            old_pub_key_hash,
            new_pub_key_hash,
            old_nonce,
            new_nonce,
        } => {
            let a = s[id]->0;
            let a2 = with_pub_key_hash(
                with_pub_key_hash(a, new_pub_key_hash@, new_nonce),
                old_pub_key_hash@,
                old_nonce,
            );
            assert(a2 =~= a);
            assert(s2 =~= s);
        },
        AccountUpdate::MintNFT { token } => {
            let a = s[id]->0;
            let a2 = with_nft(with_nft(a, token.id, Some(token)), token.id, None);
            assert(a2.minted =~= a.minted);
            assert(a2 =~= a);
            assert(s2 =~= s);
        },
        AccountUpdate::RemoveNFT { token } => {
            let a = s[id]->0;
            let a2 = with_nft(with_nft(a, token.id, None), token.id, Some(token));
            assert(a2.minted =~= a.minted);
            assert(a2 =~= a);
            assert(s2 =~= s);
        },
    }
}

/// Rolling a coherent replay back with the inverse sequence restores the
/// ledger it started from.
pub proof fn lemma_updates_inverse(s: Map<u32, Option<AccountV>>, us: Seq<(u32, AccountUpdate)>)
    requires
        state_total(s),
        updates_coherent(s, us),
    ensures
        updates_coherent(apply_updates_s(s, us), inverse_updates_s(us)),
        apply_updates_s(apply_updates_s(s, us), inverse_updates_s(us)) == s,
    decreases us.len(),
{
    if us.len() == 0 {
        assert(inverse_updates_s(us) =~= Seq::<(u32, AccountUpdate)>::empty());
    } else {
        let id = us[0].0;
        let u = us[0].1;
        let s1 = apply_update_s(s, id, u);
        let rest = us.drop_first();
        lemma_apply_preserves_total(s, id, u);
        lemma_updates_inverse(s1, rest);
        let single = seq![(id, inverse_update_s(u))];
        assert(inverse_updates_s(us) =~= inverse_updates_s(rest) + single) by {
            assert forall|i: int| 0 <= i < us.len() implies #[trigger] inverse_updates_s(us)[i] == (
            inverse_updates_s(rest) + single)[i] by {
                if i < rest.len() {
                    assert(rest[rest.len() - 1 - i] == us[us.len() - 1 - i]);
                }
            }
        }
        let end = apply_updates_s(s1, rest);
        lemma_apply_append(end, inverse_updates_s(rest), single);
        lemma_single_inverse(s, id, u);
        lemma_apply_single(s1, id, inverse_update_s(u));
    }
}

/// The inverse of `u`, computed.
pub fn reversed_update(u: &AccountUpdate) -> (r: AccountUpdate)
    ensures
        r == inverse_update_s(*u),
{
    match u {
        AccountUpdate::Create { address, nonce } => AccountUpdate::Delete {
            address: *address,
            nonce: *nonce,
        },
        AccountUpdate::Delete { address, nonce } => AccountUpdate::Create {
            address: *address,
            nonce: *nonce,
        },
        AccountUpdate::UpdateBalance {
            token,
            old_balance,
            new_balance,
            old_nonce,
            new_nonce,
        } => AccountUpdate::UpdateBalance {
            token: *token,
            old_balance: *new_balance,
            new_balance: *old_balance,
            old_nonce: *new_nonce,
            new_nonce: *old_nonce,
        },
        AccountUpdate::ChangePubKeyHash {
            old_pub_key_hash,
            new_pub_key_hash,
            old_nonce,
            new_nonce,
        } => AccountUpdate::ChangePubKeyHash {
            old_pub_key_hash: *new_pub_key_hash,
            new_pub_key_hash: *old_pub_key_hash,
            old_nonce: *new_nonce,
            new_nonce: *old_nonce,
        },
        AccountUpdate::MintNFT { token } => AccountUpdate::RemoveNFT { token: *token },
        AccountUpdate::RemoveNFT { token } => AccountUpdate::MintNFT { token: *token },
    }
}

/// Whether `state` holds exactly the fresh account that `Create(addr, nonce)`
/// leaves behind under `id`.
fn account_is_fresh(state: &AccountMap, id: u32, addr: &Address, nonce: u32) -> (r: bool)
    requires
        state.wf(),
    ensures
        r == (state@[id] == Some(created_account(addr@, nonce))),
{
    if !state.has_account(id) {
        return false;
    }
    let a = state.address_of(id);
    if !a.same_as(addr) {
        return false;
    }
    if state.nonce_of(id) != nonce {
        return false;
    }
    let zero_key = PubKeyHash::zero();
    if !state.pub_key_hash_of(id).same_as(&zero_key) {
        return false;
    }
    if !state.balances_all_zero(id) {
        return false;
    }
    if !state.minted_none(id) {
        return false;
    }
    proof {
        assert(state@[id]->0 =~= created_account(addr@, nonce));
    }
    true
}

/// Replays `updates` onto `state`, first to last.
///
/// Succeeds exactly when every update is coherent with the ledger it meets;
/// an incoherent update (for instance a replayed mint whose recipient already
/// holds the token) is a fatal error, and the ledger is left mid-replay for
/// the caller to discard.
pub fn apply_account_updates(
    state: &mut AccountMap,
    updates: &Vec<(u32, AccountUpdate)>,
) -> (r: Result<(), FatalError>)
    requires
        old(state).wf(),
    ensures
        final(state).wf(),
        r is Ok <==> updates_coherent(old(state)@, updates@),
        r is Ok ==> final(state)@ == apply_updates_s(old(state)@, updates@),
{
    let n = updates.len();
    let mut i: usize = 0;
    while i < n
        invariant
            n == updates@.len(),
            i <= n,
            state.wf(),
            updates_coherent(old(state)@, updates@.subrange(0, i as int)),
            state@ == apply_updates_s(old(state)@, updates@.subrange(0, i as int)),
        decreases n - i,
    {
        let ghost prefix = updates@.subrange(0, i as int);
        let ghost before = state@;
        let (id, u) = (updates[i].0, &updates[i].1);
        let ok: bool = match u {
            AccountUpdate::Create { address, nonce } => {
                if !state.has_account(id) {
                    state.create_account_with_nonce(id, *address, *nonce);
                    true
                } else {
                    false
                }
            },
            AccountUpdate::Delete { address, nonce } => {
                if account_is_fresh(state, id, address, *nonce) {
                    state.delete_account(id);
                    true
                } else {
                    false
                }
            },
            AccountUpdate::UpdateBalance {
                token,
                old_balance,
                new_balance,
                old_nonce,
                new_nonce,
            } => {
                if state.has_account(id) && state.nonce_of(id) == *old_nonce && state.balance_of(
                    id,
                    *token,
                ) == *old_balance {
                    state.apply_balance_update(id, *token, *new_balance, *new_nonce);
                    true
                } else {
                    false
                }
            },
            AccountUpdate::ChangePubKeyHash {
                old_pub_key_hash,
                new_pub_key_hash,
                old_nonce,
                new_nonce,
            } => {
                if state.has_account(id) && state.nonce_of(id) == *old_nonce
                    && state.pub_key_hash_of(id).same_as(old_pub_key_hash) {
                    state.apply_pub_key_update(id, *new_pub_key_hash, *new_nonce);
                    true
                } else {
                    false
                }
            },
            AccountUpdate::MintNFT { token } => {
                if state.has_account(id) && state.nft_of(id, token.id).is_none() {
                    state.record_nft(id, token.id, *token);
                    true
                } else {
                    false
                }
            },
            AccountUpdate::RemoveNFT { token } => {
                let recorded = if state.has_account(id) {
                    state.nft_of(id, token.id)
                } else {
                    None
                };
                match recorded {
                    Some(found) => {
                        if nft_eq(&found, token) {
                            state.unrecord_nft(id, token.id);
                            true
                        } else {
                            false
                        }
                    },
                    None => false,
                }
            },
        };
        proof {
            lemma_apply_append(old(state)@, prefix, seq![(id, *u)]);
            lemma_apply_single(before, id, *u);
        }
        if !ok {
            proof {
                assert(!update_coherent(before, id, *u));
                lemma_incoherent_extends(old(state)@, updates@, i as int);
            }
            return Err(FatalError::IncoherentUpdate);
        }
        proof {
            assert(update_coherent(before, id, *u));
            assert(state@ == apply_update_s(before, id, *u));
            assert(updates@.subrange(0, i + 1) =~= prefix + seq![(id, *u)]);
        }
        i += 1;
    }
    proof {
        assert(updates@.subrange(0, n as int) =~= updates@);
    }
    Ok(())
}

/// An update that fails mid-sequence makes the whole sequence incoherent.
proof fn lemma_incoherent_extends(
    s: Map<u32, Option<AccountV>>,
    us: Seq<(u32, AccountUpdate)>,
    i: int,
)
    requires
        0 <= i < us.len(),
        updates_coherent(s, us.subrange(0, i)),
        !update_coherent(apply_updates_s(s, us.subrange(0, i)), us[i].0, us[i].1),
    ensures
        !updates_coherent(s, us),
{
    let a = us.subrange(0, i);
    let b = us.subrange(i, us.len() as int);
    assert(us =~= a + b);
    lemma_apply_append(s, a, b);
    assert(b[0] == us[i]);
}

} // verus!
