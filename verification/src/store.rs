//! The versioned state store: a block-indexed append log of account updates
//! with the two-phase commit/verify lifecycle and bidirectional range diffs.
//!
//! Two counters never decrease: the committed height (blocks accepted into
//! the pending chain) and the verified height (blocks whose proof the base
//! chain accepted), and the verified height never passes the committed one.

use vstd::prelude::*;

use crate::account::{AccountMap, AccountV};
use crate::errors::StoreError;
use crate::update::{
    apply_account_updates, apply_updates_s, inverse_updates_s, lemma_apply_append,
    lemma_apply_updates_preserves_total, lemma_updates_inverse, reversed_update, state_total,
    updates_coherent, AccountUpdate,
};

verus! {

/// One committed block: its updates and the commit timestamp.
pub struct Block {
    /// The ordered account updates of the block.
    pub updates: Vec<(u32, AccountUpdate)>,
    /// Seconds-since-epoch timestamp recorded at commit time.
    pub timestamp: u64,
}

/// The ledger model of an empty chain: no account exists.
pub open spec fn empty_state() -> Map<u32, Option<AccountV>> {
    Map::new(|id: u32| true, |id: u32| None::<AccountV>)
}

/// All updates of blocks `a + 1 ..= b` of the log, in commit order.
pub open spec fn segment_updates(blocks: Seq<Block>, a: int, b: int) -> Seq<(u32, AccountUpdate)>
    decreases b,
{
    if b <= a || b <= 0 {
        Seq::empty()
    } else {
        segment_updates(blocks, a, b - 1) + blocks[b - 1].updates@
    }
}

/// The ledger after folding blocks `1 ..= n` of the log from genesis.
pub open spec fn state_at(blocks: Seq<Block>, n: int) -> Map<u32, Option<AccountV>> {
    apply_updates_s(empty_state(), segment_updates(blocks, 0, n))
}

/// A segment splits at any interior height.
pub proof fn lemma_segment_split(blocks: Seq<Block>, a: int, b: int, c: int)
    requires
        0 <= a <= b <= c,
    ensures
        segment_updates(blocks, a, c) == segment_updates(blocks, a, b) + segment_updates(
            blocks,
            b,
            c,
        ),
    decreases c - b,
{
    if b == c {
        assert(segment_updates(blocks, a, c) =~= segment_updates(blocks, a, b) + segment_updates(
            blocks,
            b,
            c,
        ));
    } else {
        lemma_segment_split(blocks, a, b, c - 1);
        assert(segment_updates(blocks, a, c) =~= segment_updates(blocks, a, b) + segment_updates(
            blocks,
            b,
            c,
        ));
    }
}

/// One block is its own segment.
pub proof fn lemma_segment_one(blocks: Seq<Block>, j: int)
    requires
        0 <= j < blocks.len(),
    ensures
        segment_updates(blocks, j, j + 1) == blocks[j].updates@,
{
    assert(segment_updates(blocks, j, j) =~= Seq::<(u32, AccountUpdate)>::empty());
    assert(segment_updates(blocks, j, j + 1) =~= blocks[j].updates@);
}

/// Segments read only the blocks in their range, so two logs that agree
/// there give the same segment.
pub proof fn lemma_segment_prefix(short: Seq<Block>, long: Seq<Block>, a: int, b: int)
    requires
        b <= short.len(),
        b <= long.len(),
        forall|j: int| a <= j < b ==> short[j] == #[trigger] long[j],
    ensures
        segment_updates(short, a, b) == segment_updates(long, a, b),
    decreases b,
{
    if !(b <= a || b <= 0) {
        assert(short[b - 1] == long[b - 1]) by {
            assert(a <= b - 1 < b);
        }
        lemma_segment_prefix(short, long, a, b - 1);
    }
}

/// Block-indexed log of account updates.
///
/// Block numbers start at 1; `blocks[k]` holds block `k + 1`.
pub struct StateStore {
    /// Committed blocks, in order.
    pub blocks: Vec<Block>,
    /// Height of the last finalized block.
    pub verified_height: u32,
    /// Materialized ledger after all committed blocks (a read optimization;
    /// always equal to folding the whole log).
    pub current: AccountMap,
}

impl StateStore {
    /// The committed height.
    pub open spec fn spec_committed(&self) -> int {
        self.blocks@.len() as int
    }

    /// The ledger model as of height `n`.
    pub open spec fn state_at(&self, n: int) -> Map<u32, Option<AccountV>> {
        state_at(self.blocks@, n)
    }

    /// Store invariant: heights ordered, the materialized ledger equal to the
    /// full fold, and every block coherent with the state it extends.
    pub open spec fn wf(&self) -> bool {
        &&& self.current.wf()
        &&& self.current@ == self.state_at(self.spec_committed())
        &&& self.verified_height <= self.spec_committed()
        &&& forall|j: int|
            0 <= j < self.spec_committed() ==> updates_coherent(
                self.state_at(j),
                (#[trigger] self.blocks@[j]).updates@,
            )
    }

    /// An empty store: nothing committed, nothing verified.
    pub fn new() -> (r: StateStore)
        ensures
            r.wf(),
            r.spec_committed() == 0,
            r.verified_height == 0,
    {
        let r = StateStore { blocks: Vec::new(), verified_height: 0, current: AccountMap::new() };
        proof {
            assert(segment_updates(r.blocks@, 0, 0) =~= Seq::<(u32, AccountUpdate)>::empty());
            assert(r.current@ =~= empty_state());
        }
        r
    }

    /// The committed height.
    pub fn committed_height(&self) -> (r: u64)
        ensures
            r == self.spec_committed(),
    {
        self.blocks.len() as u64
    }

    /// Appends block `block_number`.
    ///
    /// Fails with `CommitOutOfOrder` unless `block_number` is exactly the
    /// next height, and with `CommitIncoherent` when the updates do not fit
    /// the committed state; either failure leaves the store unchanged.
    pub fn commit(
        &mut self,
        block_number: u32,
        updates: Vec<(u32, AccountUpdate)>,
        timestamp: u64,
    ) -> (r: Result<(), StoreError>)
        requires
            old(self).wf(),
        ensures
            final(self).wf(),
            final(self).verified_height == old(self).verified_height,
            r is Ok <==> block_number == old(self).spec_committed() + 1 && updates_coherent(
                old(self).state_at(old(self).spec_committed()),
                updates@,
            ),
            r is Ok ==> {
                &&& final(self).spec_committed() == old(self).spec_committed() + 1
                &&& final(self).blocks@.len() == old(self).blocks@.len() + 1
                &&& forall|j: int|
                    0 <= j < old(self).blocks@.len() ==> #[trigger] final(self).blocks@[j] == old(
                        self,
                    ).blocks@[j]
                &&& final(self).blocks@.last().updates@ == updates@
                &&& final(self).blocks@.last().timestamp == timestamp
                &&& final(self).current@ == apply_updates_s(old(self).current@, updates@)
            },
            r is Err ==> *final(self) == *old(self) && (r == Err::<(), StoreError>(
                StoreError::CommitOutOfOrder,
            ) <==> block_number != old(self).spec_committed() + 1),
    {
        if (block_number as u128) != self.blocks.len() as u128 + 1 {
            return Err(StoreError::CommitOutOfOrder);
        }
        let mut scratch = self.current.duplicate();
        let applied = apply_account_updates(&mut scratch, &updates);
        if applied.is_err() {
            return Err(StoreError::CommitIncoherent);
        }
        let ghost prior = self.blocks@;
        self.blocks.push(Block { updates, timestamp });
        self.current = scratch;
        proof {
            let n = prior.len() as int;
            assert forall|b: int| 0 <= b <= n implies segment_updates(prior, 0, b)
                == segment_updates(self.blocks@, 0, b) by {
                lemma_segment_prefix(prior, self.blocks@, 0, b);
            }
            lemma_segment_one(self.blocks@, n);
            lemma_segment_split(self.blocks@, 0, n, n + 1);
            lemma_apply_append(
                empty_state(),
                segment_updates(self.blocks@, 0, n),
                segment_updates(self.blocks@, n, n + 1),
            );
            assert forall|j: int|
                0 <= j < self.spec_committed() implies updates_coherent(
                self.state_at(j),
                (#[trigger] self.blocks@[j]).updates@,
            ) by {
                if j < n {
                    assert(self.blocks@[j] == prior[j]);
                }
            }
        }
        Ok(())
    }

    /// Marks block `block_number` finalized.
    ///
    /// Fails with `VerifyOutOfOrder` unless `block_number` is exactly the
    /// next unverified height, and with `VerifyAheadOfCommit` when that block
    /// was never committed; either failure leaves the store unchanged.
    pub fn verify(&mut self, block_number: u32) -> (r: Result<(), StoreError>)
        requires
            old(self).wf(),
        ensures
            final(self).wf(),
            r is Ok <==> block_number == old(self).verified_height + 1 && block_number <= old(
                self,
            ).spec_committed(),
            r is Ok ==> final(self).verified_height == block_number && final(self).blocks == old(
                self,
            ).blocks && final(self).current == old(self).current,
            r is Err ==> *final(self) == *old(self),
            r == Err::<(), StoreError>(StoreError::VerifyOutOfOrder) <==> block_number != old(
                self,
            ).verified_height + 1,
    {
        if (block_number as u64) != (self.verified_height as u64) + 1 {
            return Err(StoreError::VerifyOutOfOrder);
        }
        if (block_number as u64) > self.blocks.len() as u64 {
            return Err(StoreError::VerifyAheadOfCommit);
        }
        self.verified_height = block_number;
        Ok(())
    }

    /// The ledger as of height `n`, or of the latest committed block when
    /// `n` is `None`; fails with `MissingBlock` for an uncommitted height.
    pub fn load_committed_state(&self, n: Option<u32>) -> (r: Result<
        (u32, AccountMap),
        StoreError,
    >)
        requires
            self.wf(),
            self.spec_committed() <= u32::MAX,
        ensures
            match r {
                Ok((height, state)) => {
                    &&& match n {
                        Some(k) => height == k,
                        None => height == self.spec_committed(),
                    }
                    &&& state.wf()
                    &&& state@ == self.state_at(height as int)
                },
                Err(e) => e == StoreError::MissingBlock && (n matches Some(k) && k
                    > self.spec_committed()),
            },
    {
        match n {
            Some(k) => {
                if (k as u64) > self.blocks.len() as u64 {
                    return Err(StoreError::MissingBlock);
                }
                let state = self.fold_to(k);
                Ok((k, state))
            },
            None => {
                let state = self.current.duplicate();
                Ok((self.blocks.len() as u32, state))
            },
        }
    }

    /// The ledger as of the latest verified block.
    pub fn load_verified_state(&self) -> (r: (u32, AccountMap))
        requires
            self.wf(),
            self.spec_committed() <= u32::MAX,
        ensures
            r.0 == self.verified_height,
            r.1.wf(),
            r.1@ == self.state_at(self.verified_height as int),
    {
        let state = self.fold_to(self.verified_height);
        (self.verified_height, state)
    }

    /// The ordered updates that transform the ledger at height `start` into
    /// the ledger at height `end` (the latest committed height when `end` is
    /// `None`).  A backward range yields inverse updates, last to first.
    pub fn load_state_diff(&self, start: u32, end: Option<u32>) -> (r: Result<
        (u32, Vec<(u32, AccountUpdate)>),
        StoreError,
    >)
        requires
            self.wf(),
            self.spec_committed() <= u32::MAX,
        ensures
            match r {
                Ok((height, diff)) => {
                    &&& match end {
                        Some(k) => height == k,
                        None => height == self.spec_committed(),
                    }
                    &&& start <= self.spec_committed()
                    &&& height <= self.spec_committed()
                    &&& start <= height ==> diff@ == segment_updates(
                        self.blocks@,
                        start as int,
                        height as int,
                    )
                    &&& height < start ==> diff@ == inverse_updates_s(
                        segment_updates(self.blocks@, height as int, start as int),
                    )
                },
                Err(e) => {
                    &&& e == StoreError::MissingBlock
                    &&& start > self.spec_committed() || (end matches Some(k) && k
                        > self.spec_committed())
                },
            },
    {
        let finish: u32 = match end {
            Some(k) => {
                if (k as u64) > self.blocks.len() as u64 {
                    return Err(StoreError::MissingBlock);
                }
                k
            },
            None => self.blocks.len() as u32,
        };
        if (start as u64) > self.blocks.len() as u64 {
            return Err(StoreError::MissingBlock);
        }
        if start <= finish {
            let diff = self.collect_segment(start, finish);
            Ok((finish, diff))
        } else {
            let forward = self.collect_segment(finish, start);
            let mut diff: Vec<(u32, AccountUpdate)> = Vec::new();
            let total = forward.len();
            let mut i: usize = 0;
            while i < total
                invariant
                    total == forward@.len(),
                    i <= total,
                    diff@.len() == i,
                    forall|j: int|
                        0 <= j < i ==> #[trigger] diff@[j] == (
                        forward@[total - 1 - j].0,
                        crate::update::inverse_update_s(forward@[total - 1 - j].1),
                        ),
                decreases total - i,
            {
                let (id, u) = (forward[total - 1 - i].0, &forward[total - 1 - i].1);
                let inv = reversed_update(u);
                diff.push((id, inv));
                i += 1;
            }
            proof {
                assert(diff@ =~= inverse_updates_s(
                    segment_updates(self.blocks@, finish as int, start as int),
                ));
            }
            Ok((finish, diff))
        }
    }

    /// Both directions of a committed range replay cleanly: folding the
    /// forward diff onto the state at `a` yields the state at `b`, and
    /// folding the backward diff onto the state at `b` restores `a`.
    pub proof fn lemma_diff_round_trip(&self, a: int, b: int)
        requires
            self.wf(),
            0 <= a <= b <= self.spec_committed(),
        ensures
            apply_updates_s(self.state_at(a), segment_updates(self.blocks@, a, b)) == self.state_at(
                b,
            ),
            apply_updates_s(
                self.state_at(b),
                inverse_updates_s(segment_updates(self.blocks@, a, b)),
            ) == self.state_at(a),
    {
        lemma_segment_split(self.blocks@, 0, a, b);
        lemma_apply_append(
            empty_state(),
            segment_updates(self.blocks@, 0, a),
            segment_updates(self.blocks@, a, b),
        );
        self.lemma_segment_coherent(a, b);
        self.lemma_state_total(a);
        lemma_updates_inverse(self.state_at(a), segment_updates(self.blocks@, a, b));
    }

    /// A segment is coherent with the state it starts from.
    pub proof fn lemma_segment_coherent(&self, a: int, b: int)
        requires
            self.wf(),
            0 <= a <= b <= self.spec_committed(),
        ensures
            updates_coherent(self.state_at(a), segment_updates(self.blocks@, a, b)),
        decreases b - a,
    {
        if a == b {
            assert(segment_updates(self.blocks@, a, b) =~= Seq::<(u32, AccountUpdate)>::empty());
        } else {
            self.lemma_segment_coherent(a, b - 1);
            lemma_segment_split(self.blocks@, 0, a, b - 1);
            lemma_apply_append(
                empty_state(),
                segment_updates(self.blocks@, 0, a),
                segment_updates(self.blocks@, a, b - 1),
            );
            lemma_apply_append(
                self.state_at(a),
                segment_updates(self.blocks@, a, b - 1),
                self.blocks@[b - 1].updates@,
            );
        }
    }

    /// Every reachable state is a total ledger model.
    pub proof fn lemma_state_total(&self, n: int)
        requires
            self.wf(),
            0 <= n <= self.spec_committed(),
        ensures
            state_total(self.state_at(n)),
    {
        self.lemma_segment_coherent(0, n);
        lemma_apply_updates_preserves_total(empty_state(), segment_updates(self.blocks@, 0, n));
    }

    /// Copies the updates of blocks `a + 1 ..= b`, in order.
    fn collect_segment(&self, a: u32, b: u32) -> (r: Vec<(u32, AccountUpdate)>)
        requires
            a <= b <= self.blocks@.len(),
        ensures
            r@ == segment_updates(self.blocks@, a as int, b as int),
    {
        let mut r: Vec<(u32, AccountUpdate)> = Vec::new();
        proof {
            assert(r@ =~= segment_updates(self.blocks@, a as int, a as int));
        }
        let mut j: u32 = a;
        while j < b
            invariant
                a <= j <= b <= self.blocks@.len(),
                r@ == segment_updates(self.blocks@, a as int, j as int),
            decreases b - j,
        {
            let block_updates = &self.blocks[j as usize].updates;
            let m = block_updates.len();
            let mut i: usize = 0;
            while i < m
                invariant
                    a <= j < b <= self.blocks@.len(),
                    m == block_updates@.len(),
                    block_updates@ == self.blocks@[j as int].updates@,
                    i <= m,
                    r@ == segment_updates(self.blocks@, a as int, j as int)
                        + block_updates@.subrange(0, i as int),
                decreases m - i,
            {
                r.push((block_updates[i].0, block_updates[i].1));
                proof {
                    assert(block_updates@[i as int] == (
                        block_updates@[i as int].0,
                        block_updates@[i as int].1,
                    ));
                    assert(r@ =~= segment_updates(self.blocks@, a as int, j as int)
                        + block_updates@.subrange(0, i + 1));
                }
                i += 1;
            }
            proof {
                assert(block_updates@.subrange(0, m as int) =~= block_updates@);
                lemma_segment_one(self.blocks@, j as int);
                lemma_segment_split(self.blocks@, a as int, j as int, j + 1);
            }
            j += 1;
        }
        r
    }

    /// Folds the log from genesis through height `k`.
    fn fold_to(&self, k: u32) -> (r: AccountMap)
        requires
            self.wf(),
            k <= self.spec_committed(),
        ensures
            r.wf(),
            r@ == self.state_at(k as int),
    {
        let mut state = AccountMap::new();
        proof {
            assert(segment_updates(self.blocks@, 0, 0) =~= Seq::<(u32, AccountUpdate)>::empty());
            assert(state@ =~= empty_state());
        }
        let mut j: u32 = 0;
        while j < k
            invariant
                self.wf(),
                j <= k <= self.spec_committed(),
                state.wf(),
                state@ == self.state_at(j as int),
            decreases k - j,
        {
            proof {
                self.lemma_segment_coherent(j as int, j + 1);
                lemma_segment_one(self.blocks@, j as int);
            }
            let applied = apply_account_updates(&mut state, &self.blocks[j as usize].updates);
            proof {
                lemma_segment_split(self.blocks@, 0, j as int, j + 1);
                lemma_apply_append(
                    empty_state(),
                    segment_updates(self.blocks@, 0, j as int),
                    segment_updates(self.blocks@, j as int, j + 1),
                );
            }
            if applied.is_err() {
                proof {
                    assert(false);
                }
            }
            j += 1;
        }
        state
    }
}

} // verus!
