//! Addresses: the digests of public keys.

use vstd::prelude::*;
use vstd::std_specs::cmp::PartialEqSpecImpl;
use crate::keys::{bytes_equal, PublicKey};

verus! {

/// The BLAKE3 digest of a byte string.
pub uninterp spec fn blake3_digest(data: Seq<u8>) -> Seq<u8>;

/// The owner of an output, named by the digest of the owner's public key.
#[derive(Clone, Copy, Debug, Eq)]
pub struct Address {
    pub bytes: [u8; 32],
}

impl View for Address {
    type V = Seq<u8>;

    open spec fn view(&self) -> Seq<u8> {
        self.bytes@
    }
}

impl PartialEq for Address {
    fn eq(&self, other: &Self) -> (equal: bool) {
        bytes_equal(&self.bytes, &other.bytes)
    }
}

impl PartialEqSpecImpl for Address {
    open spec fn obeys_eq_spec() -> bool {
        true
    }

    open spec fn eq_spec(&self, other: &Self) -> bool {
        self@ == other@
    }
}

/// Calls `blake3::hash`. The contract names the digest and claims that the
/// bytes returned are the digest of the bytes given.
#[verifier::external_body]
fn hash(data: &[u8; 32]) -> (digest: [u8; 32])
    ensures
        digest@ == blake3_digest(data@),
{
    blake3::hash(data).into()
}

/// The bytes of the address that a public key owns.
pub open spec fn address_bytes(public_key: PublicKey) -> Seq<u8> {
    blake3_digest(public_key@)
}

/// The address that a public key owns: the digest of the key's encoding.
pub fn get_address(public_key: &PublicKey) -> (address: Address)
    ensures
        address@ == address_bytes(*public_key),
{
    Address { bytes: hash(&public_key.bytes) }
}

} // verus!
