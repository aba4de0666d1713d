use parity_crypto::Keccak256;

use rollup_core::account::Nft;
use rollup_core::errors::{FatalError, TxFailure, TxValidationError};
use rollup_core::params::{MIN_NFT_TOKEN_ID, NFT_STORAGE_ACCOUNT_ID, NFT_TOKEN_ID};
use rollup_core::state::ZkSyncState;
use rollup_core::tx::{MintNFT, TimeRange};
use rollup_core::types::{Address, ContentHash, PubKeyHash};
use rollup_core::update::{apply_account_updates, AccountUpdate};

fn addr(b: u8) -> Address {
    Address { bytes: [b; 20] }
}

fn hash(b: u8) -> ContentHash {
    ContentHash { bytes: [b; 32] }
}

fn mint_tx(creator_id: u32, creator: Address, content: ContentHash, recipient: Address, fee: u128, nonce: u32) -> MintNFT {
    MintNFT::new(
        creator_id,
        creator,
        content,
        recipient,
        fee,
        0,
        nonce,
        TimeRange::new(0, u64::MAX),
    )
}

/// Creator account id 5, recipient holding no NFTs, global counter at C:
/// minting yields token id C + 1, recipient balance 1 for it, creator nonce
/// bumped, and the NFT address derived from keccak-256.
#[test]
fn mint_scenario_with_preset_counter() {
    let mut state = ZkSyncState::new();
    let creator_addr = addr(0xAA);
    let recipient_addr = addr(0xCC);
    state.accounts.create_account_with_nonce(5, creator_addr, 0);
    state.accounts.create_account_with_nonce(7, recipient_addr, 0);
    state
        .accounts
        .create_account_with_nonce(NFT_STORAGE_ACCOUNT_ID, addr(0xFE), 0);
    let counter: u128 = 100_000;
    state
        .accounts
        .apply_balance_update(NFT_STORAGE_ACCOUNT_ID, NFT_TOKEN_ID, counter, 0);

    let content = hash(0x42);
    let tx = mint_tx(5, creator_addr, content, recipient_addr, 10, 0);
    let success = state.apply_tx(tx).expect("mint should apply");

    let fee = success.fee.expect("mint collects a fee");
    assert_eq!(fee.token, 0);
    assert_eq!(fee.amount, 10);
    assert_eq!(success.updates.len(), 4);

    let new_token_id = (counter + 1) as u32;
    assert_eq!(
        state.accounts.balance_of(NFT_STORAGE_ACCOUNT_ID, NFT_TOKEN_ID),
        counter + 1
    );
    assert_eq!(state.accounts.balance_of(7, new_token_id), 1);
    assert_eq!(state.accounts.nonce_of(5), 1);

    let nft: Nft = state
        .accounts
        .nft_of(5, new_token_id)
        .expect("creator records the minted NFT");
    assert_eq!(nft.id, new_token_id);
    assert_eq!(nft.serial_id, 1);
    assert_eq!(nft.creator_id, 5);
    assert_eq!(nft.content_hash, content);

    // The emitted updates, in order: counter bump, creator serial-and-nonce
    // bump, NFT record, recipient credit.
    assert_eq!(
        success.updates[0],
        (
            NFT_STORAGE_ACCOUNT_ID,
            AccountUpdate::UpdateBalance {
                token: NFT_TOKEN_ID,
                old_balance: counter,
                new_balance: counter + 1,
                old_nonce: 0,
                new_nonce: 0,
            }
        )
    );
    assert_eq!(
        success.updates[1],
        (
            5,
            AccountUpdate::UpdateBalance {
                token: NFT_TOKEN_ID,
                old_balance: 0,
                new_balance: 1,
                old_nonce: 0,
                new_nonce: 1,
            }
        )
    );
    assert_eq!(success.updates[2], (5, AccountUpdate::MintNFT { token: nft }));
    assert_eq!(
        success.updates[3],
        (
            7,
            AccountUpdate::UpdateBalance {
                token: new_token_id,
                old_balance: 0,
                new_balance: 1,
                old_nonce: 0,
                new_nonce: 0,
            }
        )
    );

    // The NFT address is the last 20 bytes of keccak256(creator_id, serial
    // id, content hash), cross-checked against the crypto crate directly.
    let mut preimage: Vec<u8> = Vec::new();
    preimage.extend_from_slice(&5u32.to_be_bytes());
    preimage.extend_from_slice(&1u32.to_be_bytes());
    preimage.extend_from_slice(&content.bytes);
    let digest: [u8; 32] = preimage.keccak256();
    let mut expected = [0u8; 20];
    expected.copy_from_slice(&digest[12..]);
    assert_eq!(nft.address.bytes, expected);

    // And the transaction's own address derivation agrees.
    assert_eq!(tx.calculate_address(1).bytes, expected);
}

/// The first mint creates the reserved counter account lazily, seeded at
/// the least NFT token id, so the first minted id follows the seed.
#[test]
fn first_mint_creates_counter_account() {
    let mut state = ZkSyncState::new();
    let creator_addr = addr(0x01);
    let recipient_addr = addr(0x02);
    state.accounts.create_account_with_nonce(1, creator_addr, 0);
    state.accounts.create_account_with_nonce(2, recipient_addr, 0);

    let tx = mint_tx(1, creator_addr, hash(0x11), recipient_addr, 0, 0);
    let success = state.apply_tx(tx).expect("first mint should apply");
    assert_eq!(success.updates.len(), 6);
    // Lazy creation leads the sequence: the reserved account appears at the
    // protocol address and its counter slot is seeded.
    assert_eq!(
        success.updates[0],
        (
            NFT_STORAGE_ACCOUNT_ID,
            AccountUpdate::Create { address: Address { bytes: [0xFE; 20] }, nonce: 0 }
        )
    );
    assert_eq!(
        success.updates[1],
        (
            NFT_STORAGE_ACCOUNT_ID,
            AccountUpdate::UpdateBalance {
                token: NFT_TOKEN_ID,
                old_balance: 0,
                new_balance: MIN_NFT_TOKEN_ID as u128,
                old_nonce: 0,
                new_nonce: 0,
            }
        )
    );
    assert_eq!(
        state.accounts.balance_of(NFT_STORAGE_ACCOUNT_ID, NFT_TOKEN_ID),
        (MIN_NFT_TOKEN_ID as u128) + 1
    );
    assert_eq!(state.accounts.balance_of(2, MIN_NFT_TOKEN_ID + 1), 1);
}

/// NFT token ids strictly increase across successive mints.
#[test]
fn token_ids_strictly_increase() {
    let mut state = ZkSyncState::new();
    let creator_addr = addr(0x01);
    let recipient_addr = addr(0x02);
    state.accounts.create_account_with_nonce(1, creator_addr, 0);
    state.accounts.create_account_with_nonce(2, recipient_addr, 0);

    let first = state
        .apply_tx(mint_tx(1, creator_addr, hash(0x11), recipient_addr, 0, 0))
        .expect("first mint");
    let second = state
        .apply_tx(mint_tx(1, creator_addr, hash(0x12), recipient_addr, 0, 1))
        .expect("second mint");
    let id_of = |s: &rollup_core::state::OpSuccess| {
        s.updates
            .iter()
            .find_map(|(account, u)| match u {
                rollup_core::update::AccountUpdate::MintNFT { token } => {
                    assert_eq!(*account, 1);
                    Some(token.id)
                }
                _ => None,
            })
            .expect("mint update present")
    };
    assert!(id_of(&second) > id_of(&first));
}

/// Replaying an already-applied MintNFT update against a ledger where the
/// recipient already holds balance 1 for that token id fails fatally and
/// never silently overwrites.
#[test]
fn replayed_mint_update_fails_fatally() {
    let mut state = ZkSyncState::new();
    let creator_addr = addr(0x01);
    let recipient_addr = addr(0x02);
    state.accounts.create_account_with_nonce(1, creator_addr, 0);
    state.accounts.create_account_with_nonce(2, recipient_addr, 0);

    let success = state
        .apply_tx(mint_tx(1, creator_addr, hash(0x11), recipient_addr, 0, 0))
        .expect("mint should apply");

    // The recipient now holds balance 1 for the minted id; replaying the
    // same updates must be rejected as incoherent, not absorbed.
    let replay = apply_account_updates(&mut state.accounts, &success.updates);
    assert_eq!(replay, Err(FatalError::IncoherentUpdate));
}

/// A second mint re-using the same token id on the recipient is the fatal
/// recipient-already-owns case inside the handler.
#[test]
fn recipient_already_holding_token_is_fatal() {
    let mut state = ZkSyncState::new();
    let creator_addr = addr(0x01);
    let recipient_addr = addr(0x02);
    state.accounts.create_account_with_nonce(1, creator_addr, 0);
    state.accounts.create_account_with_nonce(2, recipient_addr, 0);
    state
        .accounts
        .create_account_with_nonce(NFT_STORAGE_ACCOUNT_ID, addr(0xFE), 0);
    state
        .accounts
        .apply_balance_update(NFT_STORAGE_ACCOUNT_ID, NFT_TOKEN_ID, 70_000, 0);
    // Pre-plant a balance for the id the mint will produce.
    state.accounts.apply_balance_update(2, 70_001, 1, 0);

    let r = state.apply_tx(mint_tx(1, creator_addr, hash(0x11), recipient_addr, 0, 0));
    assert!(matches!(
        r,
        Err(TxFailure::Fatal(FatalError::TokenAlreadyInAccount))
    ));
    // The failure left the ledger untouched: the creator's nonce is still 0.
    assert_eq!(state.accounts.nonce_of(1), 0);
}

/// A global counter at the top of the token-id range cannot mint another
/// id; that is ledger corruption, not a user error.
#[test]
fn counter_overflow_is_fatal() {
    let mut state = ZkSyncState::new();
    let creator_addr = addr(0x01);
    let recipient_addr = addr(0x02);
    state.accounts.create_account_with_nonce(1, creator_addr, 0);
    state.accounts.create_account_with_nonce(2, recipient_addr, 0);
    state
        .accounts
        .create_account_with_nonce(NFT_STORAGE_ACCOUNT_ID, addr(0xFE), 0);
    state.accounts.apply_balance_update(
        NFT_STORAGE_ACCOUNT_ID,
        NFT_TOKEN_ID,
        u32::MAX as u128,
        0,
    );

    let r = state.apply_tx(mint_tx(1, creator_addr, hash(0x11), recipient_addr, 0, 0));
    assert!(matches!(r, Err(TxFailure::Fatal(FatalError::TokenIdOverflow))));
    assert_eq!(state.accounts.nonce_of(1), 0);
}

#[test]
fn create_op_validation_errors() {
    let mut state = ZkSyncState::new();
    let creator_addr = addr(0x01);
    state.accounts.create_account_with_nonce(1, creator_addr, 0);

    let bad_token = MintNFT::new(
        1,
        creator_addr,
        hash(0x11),
        addr(0x02),
        0,
        70_000,
        0,
        TimeRange::new(0, u64::MAX),
    );
    assert_eq!(
        state.create_op(bad_token),
        Err(TxValidationError::FeeTokenNotSupported)
    );

    let zero_recipient = mint_tx(1, creator_addr, hash(0x11), Address { bytes: [0; 20] }, 0, 0);
    assert_eq!(
        state.create_op(zero_recipient),
        Err(TxValidationError::RecipientAddressIsZero)
    );

    let unknown_recipient = mint_tx(1, creator_addr, hash(0x11), addr(0x03), 0, 0);
    assert_eq!(
        state.create_op(unknown_recipient),
        Err(TxValidationError::RecipientAccountNotFound)
    );
    assert_eq!(
        state.create_op(unknown_recipient).unwrap_err().describe(),
        "Recipient account does not exist"
    );
}

/// The recovered signer passes only when it equals the registered key.
#[test]
fn signer_comparison() {
    let mut state = ZkSyncState::new();
    state.accounts.create_account_with_nonce(1, addr(0x01), 0);
    let registered = PubKeyHash { bytes: [0x55; 20] };
    let change = vec![(
        1u32,
        AccountUpdate::ChangePubKeyHash {
            old_pub_key_hash: PubKeyHash { bytes: [0; 20] },
            new_pub_key_hash: registered,
            old_nonce: 0,
            new_nonce: 1,
        },
    )];
    apply_account_updates(&mut state.accounts, &change).expect("key change applies");

    assert!(state.signer_matches_account(1, &registered));
    assert!(!state.signer_matches_account(1, &PubKeyHash { bytes: [0x66; 20] }));
}

#[test]
fn apply_op_validation_errors() {
    let mut state = ZkSyncState::new();
    let creator_addr = addr(0x01);
    let recipient_addr = addr(0x02);
    state.accounts.create_account_with_nonce(2, recipient_addr, 0);

    // Creator account 1 does not exist.
    let r = state.apply_tx(mint_tx(1, creator_addr, hash(0x11), recipient_addr, 0, 0));
    assert!(matches!(
        r,
        Err(TxFailure::Validation(TxValidationError::CreatorAccountNotFound))
    ));

    state.accounts.create_account_with_nonce(1, creator_addr, 0);
    let r = state.apply_tx(mint_tx(1, creator_addr, hash(0x11), recipient_addr, 0, 9));
    assert!(matches!(
        r,
        Err(TxFailure::Validation(TxValidationError::NonceMismatch))
    ));
}
