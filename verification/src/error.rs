//! The ways in which authorizing or verifying can fail.

use vstd::prelude::*;
use crate::address::Address;

verus! {

/// The error of bincode, carried through unread.
#[verifier::external_type_specification]
#[verifier::external_body]
pub struct ExBincodeErrorKind(bincode::ErrorKind);

/// Why a transaction was not authorized, or a body not verified.
#[derive(Debug)]
pub enum Error {
    /// A keypair was given for an address that its public key does not own.
    WrongKeypairForAddress { address: Address, hash_public_key: Address },
    /// The signature scheme refused a key.
    DalekError(ed25519_dalek::SignatureError),
    /// A transaction has no canonical encoding.
    BincodeError(bincode::Error),
}

} // verus!
