use rollup_core::fee::{is_fee_amount_packable, pack_fee_amount, unpack_fee_amount, FEE_MAX_PACKABLE};
use rollup_core::op::{MintNFTOp, MintNFTParsingError, MINT_NFT_PUBDATA_BYTES};
use rollup_core::tx::{MintNFT, TimeRange};
use rollup_core::types::{Address, ContentHash};

fn sample_op() -> MintNFTOp {
    let tx = MintNFT::new(
        0x01020304,
        Address { bytes: [0xAA; 20] },
        ContentHash { bytes: [0xBB; 32] },
        Address { bytes: [0xCC; 20] },
        500,
        3,
        77,
        TimeRange::new(5, 99),
    );
    MintNFTOp {
        tx,
        creator_account_id: 0x01020304,
        recipient_account_id: 0x0A0B0C0D,
    }
}

/// Decode is the exact left inverse of encode for every field pubdata
/// carries; the nonce and time range are not carried and come back
/// defaulted, the documented asymmetry of the format.
#[test]
fn pubdata_round_trip() {
    let op = sample_op();
    let data = op.get_public_data();
    assert_eq!(data.len(), MINT_NFT_PUBDATA_BYTES);
    let back = MintNFTOp::from_public_data(&data).expect("well-formed record");
    assert_eq!(back.creator_account_id, op.creator_account_id);
    assert_eq!(back.recipient_account_id, op.recipient_account_id);
    assert_eq!(back.tx.creator_id, op.tx.creator_id);
    assert_eq!(back.tx.creator_address, op.tx.creator_address);
    assert_eq!(back.tx.content_hash, op.tx.content_hash);
    assert_eq!(back.tx.recipient, op.tx.recipient);
    assert_eq!(back.tx.fee, op.tx.fee);
    assert_eq!(back.tx.fee_token, op.tx.fee_token);
    // Defaulted on decode: not present in pubdata.
    assert_eq!(back.tx.nonce, 0);
    assert_eq!(back.tx.time_range, TimeRange::new(0, u64::MAX));
}

#[test]
fn pubdata_layout() {
    let op = sample_op();
    let data = op.get_public_data();
    assert_eq!(data[0], 0x09);
    assert_eq!(&data[1..5], &[0x01, 0x02, 0x03, 0x04]);
    assert_eq!(&data[5..9], &[0x0A, 0x0B, 0x0C, 0x0D]);
    assert_eq!(&data[9..29], &[0xAA; 20]);
    assert_eq!(&data[29..61], &[0xBB; 32]);
    assert_eq!(&data[61..81], &[0xCC; 20]);
    // 500 packs as mantissa 500, exponent 0: bytes 0b00000_001, 0b11110100.
    assert_eq!(&data[81..83], &[0x01, 0xF4]);
    assert_eq!(&data[83..87], &[0, 0, 0, 3]);
    assert_eq!(&data[87..90], &[0, 0, 0]);
}

#[test]
fn pubdata_wrong_length_rejected() {
    let data = vec![0u8; MINT_NFT_PUBDATA_BYTES - 1];
    assert_eq!(
        MintNFTOp::from_public_data(&data),
        Err(MintNFTParsingError::WrongNumberOfBytes)
    );
    assert_eq!(
        MintNFTParsingError::WrongNumberOfBytes.describe(),
        "Wrong number of bytes"
    );
}

#[test]
fn fee_packing_round_trip() {
    let (b0, b1) = pack_fee_amount(500);
    assert_eq!((b0, b1), (0x01, 0xF4));
    assert_eq!(unpack_fee_amount(b0, b1), 500);

    let (b0, b1) = pack_fee_amount(0);
    assert_eq!(unpack_fee_amount(b0, b1), 0);

    let (b0, b1) = pack_fee_amount(2047);
    assert_eq!(unpack_fee_amount(b0, b1), 2047);

    let (b0, b1) = pack_fee_amount(FEE_MAX_PACKABLE);
    assert_eq!(unpack_fee_amount(b0, b1), FEE_MAX_PACKABLE);
}

#[test]
fn fee_packability() {
    assert!(is_fee_amount_packable(0));
    assert!(is_fee_amount_packable(2047));
    assert!(is_fee_amount_packable(2040));
    assert!(is_fee_amount_packable(20470));
    assert!(is_fee_amount_packable(FEE_MAX_PACKABLE));
    // 2048 is between representable values: packing rounds it down to 2040.
    assert!(!is_fee_amount_packable(2048));
    assert!(!is_fee_amount_packable(FEE_MAX_PACKABLE + 1));
    assert!(!is_fee_amount_packable(u128::MAX));

    let (b0, b1) = pack_fee_amount(2048);
    assert_eq!(unpack_fee_amount(b0, b1), 2040);
}

#[test]
fn sign_bytes_layout() {
    let tx = MintNFT::new(
        1,
        Address { bytes: [0xAA; 20] },
        ContentHash { bytes: [0xBB; 32] },
        Address { bytes: [0xCC; 20] },
        0,
        0,
        7,
        TimeRange::new(0, u64::MAX),
    );
    let bytes = tx.get_bytes();
    let mut expected: Vec<u8> = Vec::new();
    expected.push(9);
    expected.extend_from_slice(&[0, 0, 0, 1]);
    expected.extend_from_slice(&[0xAA; 20]);
    expected.extend_from_slice(&[0xBB; 32]);
    expected.extend_from_slice(&[0xCC; 20]);
    expected.extend_from_slice(&[0, 0]);
    expected.extend_from_slice(&[0, 0, 0, 0]);
    expected.extend_from_slice(&[0, 0, 0, 7]);
    expected.extend_from_slice(&[0; 8]);
    expected.extend_from_slice(&[0xFF; 8]);
    assert_eq!(bytes, expected);
}

#[test]
fn check_correctness_rules() {
    let good = MintNFT::new(
        1,
        Address { bytes: [0xAA; 20] },
        ContentHash { bytes: [0xBB; 32] },
        Address { bytes: [0xCC; 20] },
        500,
        0,
        0,
        TimeRange::new(0, u64::MAX),
    );
    assert!(good.check_correctness());

    let mut unpackable_fee = good;
    unpackable_fee.fee = 2048;
    assert!(!unpackable_fee.check_correctness());

    let mut bad_creator = good;
    bad_creator.creator_id = 20_000_000;
    assert!(!bad_creator.check_correctness());

    let mut bad_fee_token = good;
    bad_fee_token.fee_token = 70_000;
    assert!(!bad_fee_token.check_correctness());

    let mut bad_range = good;
    bad_range.time_range = TimeRange::new(10, 5);
    assert!(!bad_range.check_correctness());
}
