//! Fixed-width byte values used throughout the core: chain addresses,
//! content hashes and public-key hashes.

use vstd::prelude::*;

use crate::params::{ADDRESS_BYTES, NFT_STORAGE_ACCOUNT_ADDRESS_BYTE};

verus! {

/// The reserved address of the NFT counter storage account: one protocol
/// byte repeated through all twenty positions.
pub open spec fn nft_storage_address_seq() -> Seq<u8> {
    Seq::new(ADDRESS_BYTES as nat, |i: int| NFT_STORAGE_ACCOUNT_ADDRESS_BYTE)
}

/// A 20-byte chain address.
#[derive(Clone, Copy, Debug, PartialEq, Eq, Hash)]
pub struct Address {
    pub bytes: [u8; 20],
}

/// A 32-byte hash (the content hash carried by an NFT).
#[derive(Clone, Copy, Debug, PartialEq, Eq, Hash)]
pub struct ContentHash {
    pub bytes: [u8; 32],
}

/// A 20-byte hash of an account's registered public key.
#[derive(Clone, Copy, Debug, PartialEq, Eq, Hash)]
pub struct PubKeyHash {
    pub bytes: [u8; 20],
}

impl View for Address {
    type V = Seq<u8>;

    open spec fn view(&self) -> Seq<u8> {
        self.bytes@
    }
}

impl View for ContentHash {
    type V = Seq<u8>;

    open spec fn view(&self) -> Seq<u8> {
        self.bytes@
    }
}

impl View for PubKeyHash {
    type V = Seq<u8>;

    open spec fn view(&self) -> Seq<u8> {
        self.bytes@
    }
}

impl Address {
    /// The all-zero address, which no account may use as its own.
    pub fn zero() -> (r: Address)
        ensures
            r@ == Seq::new(ADDRESS_BYTES as nat, |i: int| 0u8),
    {
        let r = Address { bytes: [0u8; 20] };
        proof {
            assert(r@ =~= Seq::new(ADDRESS_BYTES as nat, |i: int| 0u8));
        }
        r
    }

    /// Whether this is the all-zero address.
    pub fn is_zero(&self) -> (r: bool)
        ensures
            r == (self@ == Seq::new(ADDRESS_BYTES as nat, |i: int| 0u8)),
    {
        let mut i: usize = 0;
        while i < 20
            invariant
                i <= 20,
                forall|j: int| 0 <= j < i ==> self.bytes@[j] == 0u8,
            decreases 20 - i,
        {
            if self.bytes[i] != 0 {
                proof {
                    assert(self@[i as int] != 0u8);
                    assert(self@ != Seq::new(ADDRESS_BYTES as nat, |k: int| 0u8)) by {
                        assert(Seq::new(ADDRESS_BYTES as nat, |k: int| 0u8)[i as int] == 0u8);
                    }
                }
                return false;
            }
            i += 1;
        }
        proof {
            assert(self@ =~= Seq::new(ADDRESS_BYTES as nat, |k: int| 0u8));
        }
        true
    }

    /// Byte-wise equality of two addresses.
    pub fn same_as(&self, other: &Address) -> (r: bool)
        ensures
            r == (self@ == other@),
    {
        let mut i: usize = 0;
        while i < 20
            invariant
                i <= 20,
                forall|j: int| 0 <= j < i ==> self.bytes@[j] == other.bytes@[j],
            decreases 20 - i,
        {
            if self.bytes[i] != other.bytes[i] {
                proof {
                    assert(self@[i as int] != other@[i as int]);
                }
                return false;
            }
            i += 1;
        }
        proof {
            assert(self@ =~= other@);
        }
        true
    }

    /// The reserved address of the NFT counter storage account.
    pub fn nft_storage_account_address() -> (r: Address)
        ensures
            r@ == nft_storage_address_seq(),
    {
        let r = Address { bytes: [NFT_STORAGE_ACCOUNT_ADDRESS_BYTE; 20] };
        proof {
            assert(r@ =~= nft_storage_address_seq());
        }
        r
    }
}

impl ContentHash {
    /// Byte-wise equality of two content hashes.
    pub fn same_as(&self, other: &ContentHash) -> (r: bool)
        ensures
            r == (self@ == other@),
    {
        let mut i: usize = 0;
        while i < 32
            invariant
                i <= 32,
                forall|j: int| 0 <= j < i ==> self.bytes@[j] == other.bytes@[j],
            decreases 32 - i,
        {
            if self.bytes[i] != other.bytes[i] {
                proof {
                    assert(self@[i as int] != other@[i as int]);
                }
                return false;
            }
            i += 1;
        }
        proof {
            assert(self@ =~= other@);
        }
        true
    }
}

impl PubKeyHash {
    /// Byte-wise equality of two public-key hashes.
    pub fn same_as(&self, other: &PubKeyHash) -> (r: bool)
        ensures
            r == (self@ == other@),
    {
        let mut i: usize = 0;
        while i < 20
            invariant
                i <= 20,
                forall|j: int| 0 <= j < i ==> self.bytes@[j] == other.bytes@[j],
            decreases 20 - i,
        {
            if self.bytes[i] != other.bytes[i] {
                proof {
                    assert(self@[i as int] != other@[i as int]);
                }
                return false;
            }
            i += 1;
        }
        proof {
            assert(self@ =~= other@);
        }
        true
    }

    /// The all-zero public-key hash carried by fresh accounts.
    pub fn zero() -> (r: PubKeyHash)
        ensures
            r@ == Seq::new(ADDRESS_BYTES as nat, |i: int| 0u8),
    {
        let r = PubKeyHash { bytes: [0u8; 20] };
        proof {
            assert(r@ =~= Seq::new(ADDRESS_BYTES as nat, |i: int| 0u8));
        }
        r
    }
}

} // verus!
