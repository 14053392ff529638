//! Bodies: transactions that are verified together, with their
//! authorizations in one flat list.

use vstd::prelude::*;
use crate::authorization::{Authorization, AuthorizedTransaction};
use crate::layout::{input_count, verifies};
use crate::transaction::{Output, Transaction};

verus! {

/// The transactions of a block, the authorizations of all their inputs, and
/// the outputs that the block creates without spending any.
#[derive(Clone, Debug, PartialEq, Eq)]
pub struct Body {
    pub coinbase: Vec<Output>,
    pub transactions: Vec<Transaction>,
    pub authorizations: Vec<Authorization>,
}

/// The transactions of a list of authorized transactions, in order.
pub open spec fn transactions_of(authorized: Seq<AuthorizedTransaction>) -> Seq<Transaction> {
    authorized.map_values(|entry: AuthorizedTransaction| entry.transaction)
}

/// The authorizations of a list of authorized transactions, those of the
/// first transaction first.
pub open spec fn flat_authorizations(authorized: Seq<AuthorizedTransaction>) -> Seq<Authorization>
    decreases authorized.len(),
{
    if authorized.len() == 0 {
        Seq::empty()
    } else {
        flat_authorizations(authorized.drop_last()) + authorized.last().authorizations@
    }
}

/// Whether each transaction of the list has one authorization for each of
/// its inputs.
pub open spec fn all_well_formed(authorized: Seq<AuthorizedTransaction>) -> bool {
    forall|t: int| 0 <= t < authorized.len() ==> (#[trigger] authorized[t]).is_well_formed()
}

impl Body {
    /// There is one authorization for each input of each transaction.
    pub open spec fn has_flat_layout(self) -> bool {
        self.authorizations@.len() == input_count(self.transactions@)
    }

    /// Whether the authorizations authorize the transactions.
    pub open spec fn verifies(self) -> bool {
        verifies(self.transactions@, self.authorizations@)
    }

    /// The body of the given authorized transactions: their transactions in
    /// order, and their authorizations in one list, those of the first
    /// transaction first.
    pub fn new(authorized: Vec<AuthorizedTransaction>, coinbase: Vec<Output>) -> (body: Body)
        ensures
            body.coinbase == coinbase,
            body.transactions@ == transactions_of(authorized@),
            body.authorizations@ == flat_authorizations(authorized@),
            all_well_formed(authorized@) ==> body.has_flat_layout(),
    {
        let ghost given = authorized@;
        let mut transactions: Vec<Transaction> = Vec::with_capacity(authorized.len());
        let mut authorizations: Vec<Authorization> = Vec::new();
        for entry in entries: authorized.into_iter()
            invariant
                entries.seq() == given,
                transactions@ == transactions_of(given.take(entries.index())),
                authorizations@ == flat_authorizations(given.take(entries.index())),
        {
            let ghost done = entries.index();
            let AuthorizedTransaction { transaction, authorizations: mut own } = entry;
            transactions.push(transaction);
            authorizations.append(&mut own);
            proof {
                assert(given.take(done + 1).drop_last() =~= given.take(done));
            }
        }
        proof {
            assert(given.take(given.len() as int) =~= given);
            if all_well_formed(given) {
                lemma_flat_layout_length(given);
            }
        }
        Body { coinbase, transactions, authorizations }
    }
}

/// Leaving out the last of a list of well-formed authorized transactions
/// leaves a list of well-formed ones.
pub proof fn lemma_well_formed_without_last(authorized: Seq<AuthorizedTransaction>)
    requires
        all_well_formed(authorized),
        authorized.len() > 0,
    ensures
        all_well_formed(authorized.drop_last()),
{
    let before = authorized.drop_last();
    assert forall|t: int| 0 <= t < before.len() implies (#[trigger] before[t]).is_well_formed() by {
        assert(authorized[t].is_well_formed());
    }
}

/// Well-formed authorized transactions have as many authorizations together
/// as inputs.
pub proof fn lemma_flat_layout_length(authorized: Seq<AuthorizedTransaction>)
    requires
        all_well_formed(authorized),
    ensures
        flat_authorizations(authorized).len() == input_count(transactions_of(authorized)),
    decreases authorized.len(),
{
    if authorized.len() > 0 {
        let before = authorized.drop_last();
        lemma_well_formed_without_last(authorized);
        lemma_flat_layout_length(before);
        assert(transactions_of(authorized).drop_last() =~= transactions_of(before));
    }
}

} // verus!
