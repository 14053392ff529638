//! Authorizing a transaction: one signature for each of its inputs.

use vstd::prelude::*;
use crate::address::{address_bytes, get_address, Address};
use crate::authorization::{Authorization, AuthorizedTransaction};
use crate::error::Error;
use crate::keys::Keypair;
use crate::layout::{lemma_single_transaction, verifies};
use crate::transaction::Transaction;

verus! {

/// Whether the keypair's public key owns the address it was given for.
pub open spec fn owns_address(pair: (Address, &Keypair)) -> bool {
    pair.0@ == address_bytes(pair.1.public)
}

/// Whether a pair yields an authorization for `message`: the key owns the
/// address, and the keypair signs.
pub open spec fn passes(pair: (Address, &Keypair), message: Seq<u8>) -> bool {
    owns_address(pair) && pair.1.signature_on(message) is Some
}

/// Whether `f` is the first position whose pair yields no authorization.
pub open spec fn first_refused(pairs: Seq<(Address, &Keypair)>, message: Seq<u8>, f: int) -> bool {
    &&& 0 <= f < pairs.len()
    &&& !passes(pairs[f], message)
    &&& forall|j: int| 0 <= j < f ==> passes(#[trigger] pairs[j], message)
}

/// Whether `authorizations` are what the pairs yield for `message`: one for
/// each pair, in order, holding the pair's public key and the signature that
/// the pair's keypair makes on the message.
pub open spec fn authorized_by(
    pairs: Seq<(Address, &Keypair)>,
    message: Seq<u8>,
    authorizations: Seq<Authorization>,
) -> bool {
    &&& authorizations.len() == pairs.len()
    &&& forall|i: int|
        0 <= i < pairs.len() ==> {
            &&& passes(#[trigger] pairs[i], message)
            &&& authorizations[i].public_key@ == pairs[i].1.public@
            &&& pairs[i].1.signature_on(message) == Some(authorizations[i].signature@)
        }
}

/// Whether every keypair holds the public key that belongs to its secret key.
pub open spec fn all_consistent(pairs: Seq<(Address, &Keypair)>) -> bool {
    forall|i: int| 0 <= i < pairs.len() ==> (#[trigger] pairs[i]).1.is_consistent()
}

/// Whether every keypair's public key owns the address it was given for.
pub open spec fn all_own_addresses(pairs: Seq<(Address, &Keypair)>) -> bool {
    forall|i: int| 0 <= i < pairs.len() ==> owns_address(#[trigger] pairs[i])
}

/// Decides whether a keypair may authorize for `address`, given the address
/// that its public key owns: it may if the two are the same.
pub fn check_address(address: Address, hash_public_key: Address) -> (checked: Result<(), Error>)
    ensures
        match checked {
            Ok(_) => address@ == hash_public_key@,
            Err(Error::WrongKeypairForAddress { address: claimed, hash_public_key: owned }) => {
                &&& address@ != hash_public_key@
                &&& claimed == address
                &&& owned == hash_public_key
            },
            Err(_) => false,
        },
{
    if address != hash_public_key {
        Err(Error::WrongKeypairForAddress { address, hash_public_key })
    } else {
        Ok(())
    }
}

/// Signs `message` with each keypair in turn, after checking that its public
/// key owns the address it was given for.
///
/// The pairs are taken in order: the first whose public key does not own its
/// address ends the work with `WrongKeypairForAddress`, and the first whose
/// keypair makes no signature ends it with `DalekError`; no authorization is
/// returned then. Consistent keypairs always sign, and every authorization
/// they yield accepts the message.
pub fn authorize_message(addresses_keypairs: &[(Address, &Keypair)], message: &[u8]) -> (signed:
    Result<Vec<Authorization>, Error>)
    ensures
        match signed {
            Ok(authorizations) => {
                &&& authorized_by(addresses_keypairs@, message@, authorizations@)
                &&& all_consistent(addresses_keypairs@) ==> forall|i: int|
                    0 <= i < authorizations@.len() ==> (#[trigger] authorizations@[i]).accepts(
                        message@,
                    )
            },
            Err(Error::WrongKeypairForAddress { address, hash_public_key }) => exists|f: int|
                {
                    &&& #[trigger] first_refused(addresses_keypairs@, message@, f)
                    &&& !owns_address(addresses_keypairs@[f])
                    &&& address == addresses_keypairs@[f].0
                    &&& hash_public_key@ == address_bytes(addresses_keypairs@[f].1.public)
                },
            Err(Error::DalekError(_)) => exists|f: int|
                {
                    &&& #[trigger] first_refused(addresses_keypairs@, message@, f)
                    &&& owns_address(addresses_keypairs@[f])
                },
            Err(Error::BincodeError(_)) => false,
        },
        all_consistent(addresses_keypairs@) ==> (signed is Ok <==> all_own_addresses(
            addresses_keypairs@,
        )),
        all_consistent(addresses_keypairs@) && !all_own_addresses(addresses_keypairs@)
            ==> signed matches Err(Error::WrongKeypairForAddress { .. }),
{
    let mut authorizations: Vec<Authorization> = Vec::with_capacity(addresses_keypairs.len());
    let mut i: usize = 0;
    while i < addresses_keypairs.len()
        invariant
            i <= addresses_keypairs@.len(),
            authorizations@.len() == i,
            forall|j: int|
                0 <= j < i ==> {
                    &&& passes(#[trigger] addresses_keypairs@[j], message@)
                    &&& authorizations@[j].public_key@ == addresses_keypairs@[j].1.public@
                    &&& addresses_keypairs@[j].1.signature_on(message@) == Some(
                        authorizations@[j].signature@,
                    )
                    &&& addresses_keypairs@[j].1.is_consistent() ==> authorizations@[j].accepts(
                        message@,
                    )
                },
        decreases addresses_keypairs@.len() - i,
    {
        let (address, keypair) = addresses_keypairs[i];
        match check_address(address, get_address(&keypair.public)) {
            Ok(_) => {},
            Err(error) => {
                assert(first_refused(addresses_keypairs@, message@, i as int));
                return Err(error);
            },
        }
        match Authorization::from_signed(keypair.public, keypair.sign(message)) {
            Ok(authorization) => {
                authorizations.push(authorization);
            },
            Err(error) => {
                assert(first_refused(addresses_keypairs@, message@, i as int));
                return Err(error);
            },
        }
        i += 1;
    }
    proof {
        if all_consistent(addresses_keypairs@) {
            assert forall|j: int| 0 <= j < authorizations@.len() implies (
            #[trigger] authorizations@[j]).accepts(message@) by {
                assert(addresses_keypairs@[j].1.is_consistent());
            }
        }
    }
    Ok(authorizations)
}

/// Authorizes a transaction with one keypair for each input, given in the
/// order of the inputs, each with the address that owns the input.
///
/// The transaction is encoded once, and every keypair signs those bytes: a
/// transaction without canonical bytes ends the work with `BincodeError`.
/// The pairs are then taken in order, as `authorize_message` says.
/// Consistent keypairs authorize an encodable transaction if each owns its
/// address, and are refused with `WrongKeypairForAddress` if one does not.
/// Where there is one of them for each input, the authorized transaction
/// verifies.
pub fn authorize(addresses_keypairs: &[(Address, &Keypair)], transaction: Transaction) -> (authorized:
    Result<AuthorizedTransaction, Error>)
    ensures
        match authorized {
            Ok(authorized) => {
                &&& transaction.is_encodable()
                &&& authorized.transaction == transaction
                &&& authorized_by(
                    addresses_keypairs@,
                    transaction.message(),
                    authorized.authorizations@,
                )
                &&& authorized.is_well_formed() <==> addresses_keypairs@.len()
                    == transaction.inputs@.len()
                &&& all_consistent(addresses_keypairs@) ==> forall|i: int|
                    0 <= i < authorized.authorizations@.len() ==> (
                    #[trigger] authorized.authorizations@[i]).accepts(transaction.message())
            },
            Err(Error::BincodeError(_)) => !transaction.is_encodable(),
            Err(Error::WrongKeypairForAddress { address, hash_public_key }) => {
                &&& transaction.is_encodable()
                &&& exists|f: int|
                    {
                        &&& #[trigger] first_refused(addresses_keypairs@, transaction.message(), f)
                        &&& !owns_address(addresses_keypairs@[f])
                        &&& address == addresses_keypairs@[f].0
                        &&& hash_public_key@ == address_bytes(addresses_keypairs@[f].1.public)
                    }
            },
            Err(Error::DalekError(_)) => {
                &&& transaction.is_encodable()
                &&& exists|f: int|
                    {
                        &&& #[trigger] first_refused(addresses_keypairs@, transaction.message(), f)
                        &&& owns_address(addresses_keypairs@[f])
                    }
            },
        },
        transaction.is_encodable() && all_consistent(addresses_keypairs@) ==> (authorized is Ok
            <==> all_own_addresses(addresses_keypairs@)),
        transaction.is_encodable() && all_consistent(addresses_keypairs@) && !all_own_addresses(
            addresses_keypairs@,
        ) ==> authorized matches Err(Error::WrongKeypairForAddress { .. }),
        authorized matches Ok(authorized) ==> (all_consistent(addresses_keypairs@)
            && addresses_keypairs@.len() == transaction.inputs@.len() ==> verifies(
            seq![authorized.transaction],
            authorized.authorizations@,
        )),
{
    let message = match transaction.serialize() {
        Ok(message) => message,
        Err(error) => {
            return Err(Error::BincodeError(error));
        },
    };
    let authorizations = match authorize_message(addresses_keypairs, message.as_slice()) {
        Ok(authorizations) => authorizations,
        Err(error) => {
            return Err(error);
        },
    };
    proof {
        lemma_single_transaction(transaction, authorizations@);
    }
    Ok(AuthorizedTransaction { transaction, authorizations })
}

} // verus!
