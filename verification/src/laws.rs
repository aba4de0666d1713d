//! The library's standing guarantees, written out as proof functions over
//! the same spec functions that the executable contracts use.
//!
//! The codec round trip lives in [`crate::op::lemma_pubdata_round_trip`],
//! and the diff round trip in [`crate::store::StateStore::lemma_diff_round_trip`];
//! the laws here cover the ledger invariants, the monotonicity of minted
//! token ids, and the one-shot nature of commit and verify.

use vstd::prelude::*;

use crate::account::AccountV;
use crate::op::MintNFTOp;
use crate::params::{NFT_STORAGE_ACCOUNT_ID, NFT_TOKEN_ID};
use crate::state::{counter_of, mint_normal_case, mint_update_records};
use crate::store::StateStore;
use crate::update::{apply_update_s, apply_updates_s, updates_coherent, AccountUpdate};

verus! {

/// The ledger invariant behind never-reused token ids: every minted NFT id
/// recorded anywhere is at most the global counter.
pub open spec fn minted_ids_bounded(s: Map<u32, Option<AccountV>>) -> bool {
    forall|a: u32, t: u32|
        s[a] is Some && (#[trigger] s[a]->0.minted[t]) is Some ==> t <= counter_of(s)
}

/// No balance is ever negative: amounts are unsigned machine integers, so
/// every account's balance in every token is at least zero.
pub proof fn lemma_balances_never_negative(a: AccountV, token: u32)
    ensures
        a.balances[token] >= 0,
{
}

/// No account id maps to two addresses: the ledger is a map, so whatever two
/// reads of the same id observe carries one address.
pub proof fn lemma_account_address_unique(
    s: Map<u32, Option<AccountV>>,
    id: u32,
    a1: AccountV,
    a2: AccountV,
)
    requires
        s[id] == Some(a1),
        s[id] == Some(a2),
    ensures
        a1.address == a2.address,
{
}

/// Minted NFT token ids strictly increase.  One successful mint advances the
/// global counter by exactly one (see `ZkSyncState::apply_op`), so the id a
/// second mint produces is strictly greater than the first.
pub proof fn lemma_token_ids_strictly_increase(
    s0: Map<u32, Option<AccountV>>,
    s1: Map<u32, Option<AccountV>>,
)
    requires
        counter_of(s1) == counter_of(s0) + 1,
        counter_of(s1) + 1 < NFT_TOKEN_ID,
    ensures
        (counter_of(s1) + 1) as u32 > (counter_of(s0) + 1) as u32,
{
}

/// Minted ids are monotone over whole histories: a normal-case mint advances
/// the counter by one, keeps every minted id bounded by the counter, and its
/// fresh id `counter + 1` strictly exceeds every id minted earlier — so no
/// id is ever reused.  Together with the bound holding on the empty ledger,
/// this carries the strict increase of token ids across any sequence of
/// successful applies.
pub proof fn lemma_mint_preserves_id_bound(
    s0: Map<u32, Option<AccountV>>,
    op: MintNFTOp,
    ups: Seq<(u32, AccountUpdate)>,
)
    requires
        minted_ids_bounded(s0),
        mint_normal_case(s0, op),
        s0[op.creator_account_id] is Some,
        s0[op.recipient_account_id] is Some,
        updates_coherent(s0, ups),
        mint_update_records(s0, op, ups),
    ensures
        counter_of(apply_updates_s(s0, ups)) == counter_of(s0) + 1,
        minted_ids_bounded(apply_updates_s(s0, ups)),
        forall|a: u32, t: u32|
            s0[a] is Some && (#[trigger] s0[a]->0.minted[t]) is Some ==> t < (counter_of(s0)
                + 1) as u32,
{
    let c = counter_of(s0);
    let tid = (c + 1) as u32;
    let created = s0[NFT_STORAGE_ACCOUNT_ID] is None;
    let base: int = if created {
        2
    } else {
        0
    };
    // Walk the fold one update at a time; each step is a point insert.
    let s_head = if created {
        let sa = apply_update_s(s0, ups[0].0, ups[0].1);
        let sb = apply_update_s(sa, ups[1].0, ups[1].1);
        assert(apply_updates_s(s0, ups) == apply_updates_s(sa, ups.drop_first()));
        assert(ups.drop_first()[0] == ups[1] && ups.drop_first().len() == 5);
        assert(apply_updates_s(sa, ups.drop_first()) == apply_updates_s(
            sb,
            ups.drop_first().drop_first(),
        ));
        sb
    } else {
        s0
    };
    let rest = if created {
        ups.drop_first().drop_first()
    } else {
        ups
    };
    assert(apply_updates_s(s0, ups) == apply_updates_s(s_head, rest));
    assert(rest.len() == 4);
    assert forall|k: int| 0 <= k < 4 implies #[trigger] rest[k] == ups[base + k] by {}
    let d1 = rest.drop_first();
    let d2 = d1.drop_first();
    let d3 = d2.drop_first();
    let d4 = d3.drop_first();
    assert(d1[0] == rest[1] && d2[0] == rest[2] && d3[0] == rest[3] && d4.len() == 0);
    let s1 = apply_update_s(s_head, rest[0].0, rest[0].1);
    let s2 = apply_update_s(s1, rest[1].0, rest[1].1);
    let s3 = apply_update_s(s2, rest[2].0, rest[2].1);
    let s4 = apply_update_s(s3, rest[3].0, rest[3].1);
    assert(apply_updates_s(s_head, rest) == apply_updates_s(s1, d1));
    assert(apply_updates_s(s1, d1) == apply_updates_s(s2, d2));
    assert(apply_updates_s(s2, d2) == apply_updates_s(s3, d3));
    assert(apply_updates_s(s3, d3) == apply_updates_s(s4, d4));
    assert(apply_updates_s(s4, d4) == s4);
    let fin = apply_updates_s(s0, ups);
    assert(fin == s4);
    // The counter slot ends one above its old value: the bump sets it and
    // the later updates touch other accounts.
    assert(s1[NFT_STORAGE_ACCOUNT_ID] is Some);
    assert(s4[NFT_STORAGE_ACCOUNT_ID]->0.balances[NFT_TOKEN_ID] == c + 1);
    assert(counter_of(s4) == c + 1);
    // Minted records change only at the creator's fresh id.
    assert forall|a: u32, t: u32|
        s4[a] is Some && (#[trigger] s4[a]->0.minted[t]) is Some implies t <= counter_of(s4) by {
        if a == op.creator_account_id && t == tid {
        } else {
            if s0[a] is Some {
                assert(s4[a]->0.minted[t] == s0[a]->0.minted[t]);
                assert(t <= c);
            } else {
                assert(a == NFT_STORAGE_ACCOUNT_ID && created);
                assert(s4[a]->0.minted[t] is None);
            }
        }
    }
    assert forall|a: u32, t: u32|
        s0[a] is Some && (#[trigger] s0[a]->0.minted[t]) is Some implies t < tid by {
        assert(t <= c);
    }
}

/// `verify` is not repeatable: once `verify(n)` has succeeded, `n` is no
/// longer the next unverified height, so a second `verify(n)` reports the
/// ordering error its contract fixes (`VerifyOutOfOrder`), never a silent
/// success.
pub proof fn lemma_verify_not_repeatable(s: StateStore, n: u32)
    requires
        s.verified_height == n,
    ensures
        n != s.verified_height + 1,
{
}

/// `commit` rejects a repeated or skipped block number: after `n` blocks are
/// committed, only `n + 1` is accepted, so any height at most `n`, and any
/// height beyond `n + 1`, draws the sequencing error its contract fixes
/// (`CommitOutOfOrder`).
pub proof fn lemma_commit_rejects_out_of_order(s: StateStore, block_number: u32)
    requires
        block_number <= s.spec_committed() || block_number > s.spec_committed() + 1,
    ensures
        block_number != s.spec_committed() + 1,
{
}

} // verus!
