//! The proof that one input of a transaction was authorized.

use vstd::prelude::*;
use vstd::std_specs::cmp::PartialEqSpecImpl;
use crate::address::{address_bytes, get_address, Address};
use crate::error::Error;
use crate::keys::{PublicKey, Signature};
use crate::transaction::Transaction;

verus! {

/// A public key and a signature made with its secret key on the canonical
/// bytes of a transaction.
#[derive(Clone, Copy, Debug, Eq)]
pub struct Authorization {
    pub public_key: PublicKey,
    pub signature: Signature,
}

impl View for Authorization {
    type V = (Seq<u8>, Seq<u8>);

    open spec fn view(&self) -> (Seq<u8>, Seq<u8>) {
        (self.public_key@, self.signature@)
    }
}

impl PartialEq for Authorization {
    fn eq(&self, other: &Self) -> (equal: bool) {
        self.public_key == other.public_key && self.signature == other.signature
    }
}

impl PartialEqSpecImpl for Authorization {
    open spec fn obeys_eq_spec() -> bool {
        true
    }

    open spec fn eq_spec(&self, other: &Self) -> bool {
        self@ == other@
    }
}

impl Authorization {
    /// Whether the signature is accepted on `message` under the public key.
    pub open spec fn accepts(self, message: Seq<u8>) -> bool {
        self.public_key.accepts(message, self.signature)
    }

    /// What an attempt to sign yields for the input it was made for: the
    /// signature together with the signer's public key, or the error of the
    /// attempt as `DalekError`.
    pub fn from_signed(
        public_key: PublicKey,
        signed: Result<Signature, ed25519_dalek::SignatureError>,
    ) -> (authorization: Result<Authorization, Error>)
        ensures
            match (signed, authorization) {
                (Ok(signature), Ok(made)) => made == (Authorization { public_key, signature }),
                (Err(error), Err(Error::DalekError(carried))) => carried == error,
                _ => false,
            },
    {
        match signed {
            Ok(signature) => Ok(Authorization { public_key, signature }),
            Err(error) => Err(Error::DalekError(error)),
        }
    }

    /// The address whose inputs this authorization can authorize.
    pub fn get_address(&self) -> (address: Address)
        ensures
            address@ == address_bytes(self.public_key),
    {
        get_address(&self.public_key)
    }

    /// Checks the signature against a message.
    pub fn verify(&self, message: &[u8]) -> (accepted: bool)
        ensures
            accepted == self.accepts(message@),
    {
        self.public_key.verify(message, &self.signature).is_ok()
    }
}

/// A transaction together with one authorization for each of its inputs, in
/// the order of the inputs.
#[derive(Clone, Debug, PartialEq, Eq)]
pub struct AuthorizedTransaction {
    pub transaction: Transaction,
    pub authorizations: Vec<Authorization>,
}

impl AuthorizedTransaction {
    /// Every input has its authorization, and there is no other.
    pub open spec fn is_well_formed(self) -> bool {
        self.authorizations@.len() == self.transaction.inputs@.len()
    }
}

} // verus!
