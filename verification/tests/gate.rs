use rollup_core::api::{decode_hash, executed_tx_status, get_sign_bytes, L2Status};
use rollup_core::fee_source::VolumeCache;
use rollup_core::hexutil::{hex_decode, hex_encode, HexError};
use rollup_core::mempool::MempoolSchema;
use rollup_core::scenario::{ScenarioExecutor, TestPhase};
use rollup_core::tx::{MintNFT, TimeRange};
use rollup_core::types::{Address, ContentHash};

fn tx_with_content(content: u8) -> MintNFT {
    MintNFT::new(
        1,
        Address { bytes: [0x01; 20] },
        ContentHash { bytes: [content; 32] },
        Address { bytes: [0x02; 20] },
        0,
        0,
        0,
        TimeRange::new(0, u64::MAX),
    )
}

/// A pending transaction whose hash appears in the executed-transactions
/// index is absent from `load_txs` after the next garbage-collection pass.
#[test]
fn garbage_collection_removes_executed() {
    let mut pool = MempoolSchema::new();
    let tx1 = tx_with_content(0x11);
    let tx2 = tx_with_content(0x22);
    pool.insert_tx(&tx1);
    pool.insert_tx(&tx2);
    assert_eq!(pool.load_txs(), vec![tx1, tx2]);

    let executed = vec![MempoolSchema::hash_tx(&tx1)];
    pool.collect_garbage(&executed);
    assert_eq!(pool.load_txs(), vec![tx2]);

    // Idempotent: a second pass with the same executed set changes nothing.
    pool.collect_garbage(&executed);
    assert_eq!(pool.load_txs(), vec![tx2]);
}

#[test]
fn contains_tx_by_hash() {
    let mut pool = MempoolSchema::new();
    let tx1 = tx_with_content(0x41);
    let tx2 = tx_with_content(0x42);
    pool.insert_tx(&tx1);
    assert!(pool.contains_tx(&MempoolSchema::hash_tx(&tx1)));
    assert!(!pool.contains_tx(&MempoolSchema::hash_tx(&tx2)));
}

#[test]
fn remove_tx_by_hash() {
    let mut pool = MempoolSchema::new();
    let tx1 = tx_with_content(0x31);
    let tx2 = tx_with_content(0x32);
    pool.insert_tx(&tx1);
    pool.insert_tx(&tx2);

    pool.remove_tx(&MempoolSchema::hash_tx(&tx2));
    assert_eq!(pool.load_txs(), vec![tx1]);
    // Removing an absent hash is a no-op.
    pool.remove_tx(&MempoolSchema::hash_tx(&tx2));
    assert_eq!(pool.load_txs(), vec![tx1]);
}

#[test]
fn decode_hash_accepts_prefixes() {
    assert_eq!(decode_hash("deadbeef"), Ok(vec![0xDE, 0xAD, 0xBE, 0xEF]));
    assert_eq!(decode_hash("0xdeadbeef"), Ok(vec![0xDE, 0xAD, 0xBE, 0xEF]));
    assert_eq!(decode_hash("sync-tx:00ff"), Ok(vec![0x00, 0xFF]));
    assert_eq!(decode_hash("0xDEADBEEF"), Ok(vec![0xDE, 0xAD, 0xBE, 0xEF]));
    assert_eq!(decode_hash("abc"), Err(HexError::OddLength));
    assert_eq!(
        decode_hash("0xzz"),
        Err(HexError::InvalidCharacter { character: 'z', index: 0 })
    );
}

#[test]
fn hex_wrappers_round_trip() {
    let bytes = vec![0x00u8, 0x7F, 0xFF];
    let text = hex_encode(&bytes);
    assert_eq!(text, "007fff");
    let back = hex_decode(&text.into_bytes()).unwrap();
    assert_eq!(back, bytes);
}

#[test]
fn sign_bytes_rendering() {
    assert_eq!(get_sign_bytes(&vec![0xAB, 0x01]), "0xab01");
}

#[test]
fn executed_tx_status_rule() {
    assert_eq!(executed_tx_status(false, false), L2Status::Rejected);
    assert_eq!(executed_tx_status(false, true), L2Status::Rejected);
    assert_eq!(executed_tx_status(true, false), L2Status::Committed);
    assert_eq!(executed_tx_status(true, true), L2Status::Finalized);
}

/// A fresh quote wins and refreshes the cache; a failed fetch degrades to
/// the cached value; with neither, the request fails.
#[test]
fn market_volume_cache_fallback() {
    let mut cache = VolumeCache::new();
    assert!(cache.resolve_market_volume(3, None).is_err());
    assert_eq!(cache.resolve_market_volume(3, Some(900)), Ok(900));
    assert_eq!(cache.resolve_market_volume(3, None), Ok(900));
    assert_eq!(cache.resolve_market_volume(3, Some(1200)), Ok(1200));
    assert_eq!(cache.resolve_market_volume(3, None), Ok(1200));
    assert!(cache.resolve_market_volume(4, None).is_err());
}

#[test]
fn scenario_phases_in_order() {
    let mut exec = ScenarioExecutor::new();
    assert_eq!(exec.phase, TestPhase::Init);
    assert!(!exec.advance());
    assert_eq!(exec.phase, TestPhase::Deposit);
    assert!(!exec.advance());
    assert_eq!(exec.phase, TestPhase::InitialTransfer);
    assert!(!exec.advance());
    assert_eq!(exec.phase, TestPhase::FundsRotation);
    assert!(!exec.advance());
    assert_eq!(exec.phase, TestPhase::CollectingFunds);
    assert!(!exec.advance());
    assert_eq!(exec.phase, TestPhase::Withdraw);
    assert!(exec.advance());
    assert_eq!(exec.phase, TestPhase::Withdraw);
}
