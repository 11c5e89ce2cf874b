//! The runtime type binding: the set of ledger-specific primitive types a
//! module schema is generic over. A binding carries no state; it only names
//! types, and is fixed once per client configuration.

use crate::codec::Encodable;
use vstd::prelude::*;

verus! {

/// The capability set every module schema draws its primitive types from.
/// Argument structs that carry an account or a content hash are generic over
/// a binding; the encodable bounds are what lets an envelope's payload be
/// serialized without knowing the concrete ledger.
pub trait System {
    type Index;

    type BlockNumber;

    type Hash: Encodable;

    type Hashing;

    type AccountId: Encodable;

    type Address;

    type Header;
}

/// A 256-bit content hash, kept as its raw bytes. Encodes as exactly those
/// 32 bytes, with no length prefix.
#[derive(Debug, Clone, Copy, PartialEq, Eq)]
pub struct Hash256 {
    pub bytes: [u8; 32],
}

impl Hash256 {
    pub fn new(bytes: [u8; 32]) -> (r: Hash256)
        ensures
            r.bytes == bytes,
    {
        Hash256 { bytes }
    }
}

impl Encodable for Hash256 {
    open spec fn enc(&self) -> Seq<u8> {
        self.bytes@
    }

    fn encode_to(&self, out: &mut Vec<u8>) {
        let mut i: usize = 0;
        proof {
            assert(out@ =~= old(out)@ + self.bytes@.take(0));
        }
        while i < 32
            invariant
                i <= 32,
                out@ == old(out)@ + self.bytes@.take(i as int),
        decreases 32 - i,
        {
            out.push(self.bytes[i]);
            proof {
                assert(out@ =~= old(out)@ + self.bytes@.take(i + 1));
            }
            i = i + 1;
        }
        proof {
            assert(self.bytes@.take(32) =~= self.bytes@);
        }
    }
}

/// A 32-byte account identifier, kept as its raw bytes. Encodes as exactly
/// those 32 bytes.
#[derive(Debug, Clone, Copy, PartialEq, Eq)]
pub struct AccountId32 {
    pub bytes: [u8; 32],
}

impl AccountId32 {
    pub fn new(bytes: [u8; 32]) -> (r: AccountId32)
        ensures
            r.bytes == bytes,
    {
        AccountId32 { bytes }
    }
}

impl Encodable for AccountId32 {
    open spec fn enc(&self) -> Seq<u8> {
        self.bytes@
    }

    fn encode_to(&self, out: &mut Vec<u8>) {
        let mut i: usize = 0;
        proof {
            assert(out@ =~= old(out)@ + self.bytes@.take(0));
        }
        while i < 32
            invariant
                i <= 32,
                out@ == old(out)@ + self.bytes@.take(i as int),
        decreases 32 - i,
        {
            out.push(self.bytes[i]);
            proof {
                assert(out@ =~= old(out)@ + self.bytes@.take(i + 1));
            }
            i = i + 1;
        }
        proof {
            assert(self.bytes@.take(32) =~= self.bytes@);
        }
    }
}

/// Tag for the 256-bit hashing algorithm a default ledger uses. Only names
/// the algorithm; nothing here computes a digest.
#[derive(Debug, Clone, Copy, PartialEq, Eq)]
pub struct BlakeTwo256;

/// A transaction's sender: either a full account identifier or a compact
/// account index.
#[derive(Debug, Clone, PartialEq, Eq)]
pub enum Address<AccountId, AccountIndex> {
    Id(AccountId),
    Index(AccountIndex),
}

/// The part of a block header a client of this layer may carry around.
#[derive(Debug, Clone, PartialEq, Eq)]
pub struct Header<BlockNumber, Hash> {
    pub parent_hash: Hash,
    pub number: BlockNumber,
    pub state_root: Hash,
    pub extrinsics_root: Hash,
}

} // verus!
