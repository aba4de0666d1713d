use rollup_core::errors::StoreError;
use rollup_core::state::ZkSyncState;
use rollup_core::store::StateStore;
use rollup_core::tx::{MintNFT, TimeRange};
use rollup_core::types::{Address, ContentHash};
use rollup_core::update::{apply_account_updates, AccountUpdate};

fn addr(b: u8) -> Address {
    Address { bytes: [b; 20] }
}

fn hash(b: u8) -> ContentHash {
    ContentHash { bytes: [b; 32] }
}

/// A sequencer with a live ledger and a store; block 1 creates the two
/// accounts, and every later block mints one NFT.
struct Harness {
    ledger: ZkSyncState,
    store: StateStore,
}

impl Harness {
    fn new() -> Harness {
        let mut h = Harness { ledger: ZkSyncState::new(), store: StateStore::new() };
        let creations = vec![
            (1u32, AccountUpdate::Create { address: addr(0x01), nonce: 0 }),
            (2u32, AccountUpdate::Create { address: addr(0x02), nonce: 0 }),
        ];
        apply_account_updates(&mut h.ledger.accounts, &creations).expect("creations apply");
        h.store.commit(1, creations, 1000).expect("genesis block commits");
        h
    }

    fn mint_block(&mut self, block: u32, content: u8, nonce: u32) {
        let tx = MintNFT::new(
            1,
            addr(0x01),
            hash(content),
            addr(0x02),
            0,
            0,
            nonce,
            TimeRange::new(0, u64::MAX),
        );
        let success = self.ledger.apply_tx(tx).expect("mint applies");
        self.store
            .commit(block, success.updates, 1000 + block as u64)
            .expect("commit in order");
    }
}

/// Committed states load back height by height.
#[test]
fn low_level_commit_verify_state() {
    let mut h = Harness::new();
    h.mint_block(2, 0x11, 0);
    h.mint_block(3, 0x12, 1);
    h.mint_block(4, 0x13, 2);

    let (height, state2) = h.store.load_committed_state(Some(2)).unwrap();
    assert_eq!(height, 2);
    let (_, state4) = h.store.load_committed_state(Some(4)).unwrap();
    let (latest_height, latest) = h.store.load_committed_state(None).unwrap();
    assert_eq!(latest_height, 4);
    assert!(latest.same_view(&state4));
    assert!(!latest.same_view(&state2));

    // Verifying promotes the verified state height by height.
    h.store.verify(1).unwrap();
    h.store.verify(2).unwrap();
    let (vh, verified) = h.store.load_verified_state();
    assert_eq!(vh, 2);
    assert!(verified.same_view(&state2));

    h.store.verify(3).unwrap();
    h.store.verify(4).unwrap();
    let (vh, verified) = h.store.load_verified_state();
    assert_eq!(vh, 4);
    assert!(verified.same_view(&state4));
}

/// Folding `load_state_diff(a, b)` onto the state at `a` yields the state
/// at `b`, and the reverse diff rolls it back, in both directions.
#[test]
fn state_diff_round_trip() {
    let mut h = Harness::new();
    for (i, content) in [0x21u8, 0x22, 0x23, 0x24, 0x25].iter().enumerate() {
        h.mint_block(i as u32 + 2, *content, i as u32);
    }

    for (start, end) in [(1u32, 2u32), (2, 3), (1, 3), (0, 6), (3, 6)] {
        let (height, diff) = h.store.load_state_diff(start, Some(end)).unwrap();
        assert_eq!(height, end);
        let (_, mut obtained) = h.store.load_committed_state(Some(start)).unwrap();
        apply_account_updates(&mut obtained, &diff).expect("forward diff applies");
        let (_, expected) = h.store.load_committed_state(Some(end)).unwrap();
        assert!(obtained.same_view(&expected));
    }

    // Backward ranges yield inverse updates that roll the ledger back.
    for (start, end) in [(2u32, 1u32), (3, 1), (6, 0), (6, 3)] {
        let (height, diff) = h.store.load_state_diff(start, Some(end)).unwrap();
        assert_eq!(height, end);
        let (_, mut obtained) = h.store.load_committed_state(Some(start)).unwrap();
        apply_account_updates(&mut obtained, &diff).expect("reverse diff applies");
        let (_, expected) = h.store.load_committed_state(Some(end)).unwrap();
        assert!(obtained.same_view(&expected));
    }

    // An omitted end means "latest committed".
    let (height, diff) = h.store.load_state_diff(1, None).unwrap();
    assert_eq!(height, 6);
    let (_, mut obtained) = h.store.load_committed_state(Some(1)).unwrap();
    apply_account_updates(&mut obtained, &diff).expect("diff to latest applies");
    let (_, expected) = h.store.load_committed_state(None).unwrap();
    assert!(obtained.same_view(&expected));
}

/// `commit(2, ...)` before `commit(1, ...)` on an empty store fails with a
/// sequencing error and the state stays at height zero.
#[test]
fn out_of_order_commit_rejected() {
    let mut store = StateStore::new();
    let r = store.commit(2, Vec::new(), 1000);
    assert_eq!(r, Err(StoreError::CommitOutOfOrder));
    assert_eq!(store.committed_height(), 0);

    store.commit(1, Vec::new(), 1000).unwrap();
    // A repeated block number is likewise rejected.
    let r = store.commit(1, Vec::new(), 1001);
    assert_eq!(r, Err(StoreError::CommitOutOfOrder));
    assert_eq!(store.committed_height(), 1);
}

/// `verify(n)` twice fails the second call with an ordering error, never a
/// silent success.
#[test]
fn repeated_verify_rejected() {
    let mut h = Harness::new();
    h.mint_block(2, 0x31, 0);

    h.store.verify(1).unwrap();
    assert_eq!(h.store.verify(1), Err(StoreError::VerifyOutOfOrder));
    assert_eq!(h.store.verify(4), Err(StoreError::VerifyOutOfOrder));
    // Verification cannot run ahead of the committed chain.
    h.store.verify(2).unwrap();
    assert_eq!(h.store.verify(3), Err(StoreError::VerifyAheadOfCommit));
}

/// A diff or load naming an uncommitted height is a missing-block failure.
#[test]
fn missing_block_rejected() {
    let mut h = Harness::new();
    h.mint_block(2, 0x41, 0);
    assert!(matches!(
        h.store.load_committed_state(Some(9)),
        Err(StoreError::MissingBlock)
    ));
    assert!(matches!(
        h.store.load_state_diff(9, Some(1)),
        Err(StoreError::MissingBlock)
    ));
    assert!(matches!(
        h.store.load_state_diff(0, Some(9)),
        Err(StoreError::MissingBlock)
    ));
}

/// Updates that do not fit the committed state are refused at commit.
#[test]
fn incoherent_commit_rejected() {
    let mut h = Harness::new();
    let success = {
        let tx = MintNFT::new(
            1,
            addr(0x01),
            hash(0x51),
            addr(0x02),
            0,
            0,
            0,
            TimeRange::new(0, u64::MAX),
        );
        h.ledger.apply_tx(tx).expect("mint applies")
    };
    h.store.commit(2, success.updates.clone(), 1000).unwrap();
    // Replaying the same block's updates cannot fit the new state.
    let r = h.store.commit(3, success.updates, 1001);
    assert_eq!(r, Err(StoreError::CommitIncoherent));
    assert_eq!(h.store.committed_height(), 2);
}
