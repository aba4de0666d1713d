use rollup_core::msg::{format_units, u128_to_string};
use rollup_core::tx::{MintNFT, TimeRange};
use rollup_core::types::{Address, ContentHash};

#[test]
fn decimal_rendering() {
    assert_eq!(u128_to_string(0), "0");
    assert_eq!(u128_to_string(7), "7");
    assert_eq!(u128_to_string(10), "10");
    assert_eq!(u128_to_string(120340), "120340");
    assert_eq!(u128_to_string(u128::MAX), "340282366920938463463374607431768211455");
}

#[test]
fn unit_formatting() {
    assert_eq!(format_units(12345, 3), "12.345");
    assert_eq!(format_units(5, 3), "0.005");
    assert_eq!(format_units(100, 2), "1.00");
    assert_eq!(format_units(12345, 0), "12345.0");
    assert_eq!(format_units(0, 2), "0.00");
    assert_eq!(format_units(10, 18), "0.000000000000000010");
}

fn message_tx(fee: u128) -> MintNFT {
    let mut content = [0u8; 32];
    content[0] = 0x01;
    content[1] = 0x02;
    content[30] = 0x1F;
    content[31] = 0x20;
    let mut recipient = [0x11u8; 20];
    recipient[18] = 0x23;
    recipient[19] = 0x24;
    MintNFT::new(
        5,
        Address { bytes: [0xAA; 20] },
        ContentHash { bytes: content },
        Address { bytes: recipient },
        fee,
        0,
        5,
        TimeRange::new(0, u64::MAX),
    )
}

/// The wallet-visible message shows the content hash and recipient
/// abbreviated, the fee in token units, and closes with the nonce.
#[test]
fn ethereum_sign_message() {
    let tx = message_tx(10);
    assert_eq!(
        tx.get_ethereum_sign_message_part("ETH", 1),
        "MintNFT 0x0102\u{2026}1f20 for: 0x1111\u{2026}2324\nFee: 1.0 ETH"
    );
    assert_eq!(
        tx.get_ethereum_sign_message("ETH", 1),
        "MintNFT 0x0102\u{2026}1f20 for: 0x1111\u{2026}2324\nFee: 1.0 ETH\nNonce: 5"
    );
}

/// A zero fee leaves the fee line out.
#[test]
fn ethereum_sign_message_without_fee() {
    let tx = message_tx(0);
    assert_eq!(
        tx.get_ethereum_sign_message_part("ETH", 1),
        "MintNFT 0x0102\u{2026}1f20 for: 0x1111\u{2026}2324"
    );
    assert_eq!(
        tx.get_ethereum_sign_message("ETH", 1),
        "MintNFT 0x0102\u{2026}1f20 for: 0x1111\u{2026}2324\nNonce: 5"
    );
}
