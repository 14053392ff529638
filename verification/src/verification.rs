//! Verifying the authorizations of a body.

use vstd::prelude::*;
use crate::body::Body;
use crate::error::Error;
use crate::layout::{
    all_encodable, authorizes, first_input, input_owners, lemma_owned_position_in_range,
    lemma_owner_unique, messages_of, owns,
};
use crate::transaction::Transaction;

verus! {

/// The canonical bytes of each transaction, in order. The first transaction
/// that has none ends the work.
pub fn serialize_transactions(transactions: &Vec<Transaction>) -> (serialized: Result<
    Vec<Vec<u8>>,
    Error,
>)
    ensures
        match serialized {
            Ok(messages) => {
                &&& all_encodable(transactions@)
                &&& messages@.len() == transactions@.len()
                &&& forall|t: int|
                    0 <= t < transactions@.len() ==> (#[trigger] messages@[t])@
                        == transactions@[t].message()
            },
            Err(Error::BincodeError(_)) => !all_encodable(transactions@),
            Err(_) => false,
        },
{
    let mut messages: Vec<Vec<u8>> = Vec::with_capacity(transactions.len());
    let mut t: usize = 0;
    while t < transactions.len()
        invariant
            t <= transactions@.len(),
            messages@.len() == t,
            forall|s: int|
                0 <= s < t ==> (#[trigger] transactions@[s]).is_encodable() && messages@[s]@
                    == transactions@[s].message(),
        decreases transactions@.len() - t,
    {
        match transactions[t].serialize() {
            Ok(message) => {
                messages.push(message);
            },
            Err(error) => {
                return Err(Error::BincodeError(error));
            },
        }
        t += 1;
    }
    Ok(messages)
}

/// For each authorization of the body, in order, the index of the
/// transaction whose canonical bytes it has to accept; `None` where the body
/// does not carry one authorization for each input.
pub fn authorization_owners(body: &Body) -> (assigned: Option<Vec<usize>>)
    ensures
        assigned is Some <==> body.has_flat_layout(),
        assigned matches Some(owners) ==> {
            &&& owners@.len() == body.authorizations@.len()
            &&& forall|k: int|
                0 <= k < owners@.len() ==> owns(body.transactions@, #[trigger] owners@[k] as int, k)
        },
{
    let owners = input_owners(&body.transactions);
    if owners.len() == body.authorizations.len() {
        Some(owners)
    } else {
        None
    }
}

/// Checks the authorizations of the body against the given messages, one
/// for each transaction: whether the body carries one authorization for each
/// input, laid out transaction by transaction in the order of the inputs,
/// and each of them accepts the message of its input's transaction.
pub fn verify_messages(body: &Body, messages: &Vec<Vec<u8>>) -> (accepted: bool)
    ensures
        accepted == authorizes(
            body.transactions@,
            messages@.map_values(|message: Vec<u8>| message@),
            body.authorizations@,
        ),
{
    if messages.len() != body.transactions.len() {
        return false;
    }
    let owners = match authorization_owners(body) {
        Some(owners) => owners,
        None => {
            return false;
        },
    };
    let ghost given = messages@.map_values(|message: Vec<u8>| message@);
    let mut k: usize = 0;
    while k < owners.len()
        invariant
            k <= owners@.len(),
            owners@.len() == body.authorizations@.len(),
            body.has_flat_layout(),
            messages@.len() == body.transactions@.len(),
            given == messages@.map_values(|message: Vec<u8>| message@),
            forall|j: int|
                0 <= j < owners@.len() ==> owns(body.transactions@, #[trigger] owners@[j] as int, j),
            forall|j: int|
                0 <= j < k ==> (#[trigger] body.authorizations@[j]).accepts(
                    given[owners@[j] as int],
                ),
        decreases owners@.len() - k,
    {
        let t: usize = owners[k];
        if !body.authorizations[k].verify(messages[t].as_slice()) {
            proof {
                let i = k - first_input(body.transactions@, t as int);
                assert(!body.authorizations@[first_input(body.transactions@, t as int) + i].accepts(
                    given[t as int],
                ));
            }
            return false;
        }
        k += 1;
    }
    proof {
        let transactions = body.transactions@;
        assert forall|t: int, i: int|
            0 <= t < transactions.len() && 0 <= i < transactions[t].inputs@.len() implies (
        #[trigger] body.authorizations@[first_input(transactions, t) + i]).accepts(given[t]) by {
            let j = first_input(transactions, t) + i;
            lemma_owned_position_in_range(transactions, t, j);
            lemma_owner_unique(transactions, owners@[j] as int, t, j);
        }
    }
    true
}

/// Verifies that every input of every transaction of the body is authorized.
///
/// All the transactions are encoded first: one without canonical bytes ends
/// the work with `BincodeError` before any signature is checked. The result
/// is then `true` exactly when the body carries one authorization for each
/// input, laid out transaction by transaction in the order of the inputs,
/// and each of them accepts the canonical bytes of its input's transaction.
pub fn verify_authorizations(body: &Body) -> (verified: Result<bool, Error>)
    ensures
        match verified {
            Ok(accepted) => all_encodable(body.transactions@) && accepted == body.verifies(),
            Err(Error::BincodeError(_)) => !all_encodable(body.transactions@),
            Err(_) => false,
        },
{
    let messages = serialize_transactions(&body.transactions)?;
    proof {
        assert(messages@.map_values(|message: Vec<u8>| message@) =~= messages_of(
            body.transactions@,
        ));
    }
    Ok(verify_messages(body, &messages))
}

} // verus!
