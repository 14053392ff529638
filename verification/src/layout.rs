//! The flat layout of a body's authorizations: those of the first
//! transaction, in the order of its inputs, then those of the second, and so
//! on.

use vstd::prelude::*;
use crate::authorization::Authorization;
use crate::transaction::Transaction;

verus! {

/// The number of inputs of all the transactions together.
pub open spec fn input_count(transactions: Seq<Transaction>) -> nat
    decreases transactions.len(),
{
    if transactions.len() == 0 {
        0
    } else {
        input_count(transactions.drop_last()) + transactions.last().inputs@.len()
    }
}

/// The flat position of the first input of transaction `t`: the number of
/// inputs of the transactions before it.
pub open spec fn first_input(transactions: Seq<Transaction>, t: int) -> nat {
    input_count(transactions.take(t))
}

/// Whether the flat position `k` belongs to an input of transaction `t`.
pub open spec fn owns(transactions: Seq<Transaction>, t: int, k: int) -> bool {
    &&& 0 <= t < transactions.len()
    &&& first_input(transactions, t) <= k < first_input(transactions, t)
        + transactions[t].inputs@.len()
}

/// Whether every transaction has canonical bytes.
pub open spec fn all_encodable(transactions: Seq<Transaction>) -> bool {
    forall|t: int| 0 <= t < transactions.len() ==> (#[trigger] transactions[t]).is_encodable()
}

/// The canonical bytes of each transaction, in order.
pub open spec fn messages_of(transactions: Seq<Transaction>) -> Seq<Seq<u8>> {
    transactions.map_values(|transaction: Transaction| transaction.message())
}

/// Whether the authorizations authorize the transactions, where `messages`
/// holds the message of each transaction: there is one authorization for
/// each input and no other, and the authorization at the flat position of an
/// input accepts the message of the input's transaction.
pub open spec fn authorizes(
    transactions: Seq<Transaction>,
    messages: Seq<Seq<u8>>,
    authorizations: Seq<Authorization>,
) -> bool {
    &&& messages.len() == transactions.len()
    &&& authorizations.len() == input_count(transactions)
    &&& forall|t: int, i: int|
        0 <= t < transactions.len() && 0 <= i < transactions[t].inputs@.len()
            ==> (#[trigger] authorizations[first_input(transactions, t) + i]).accepts(messages[t])
}

/// Whether the authorizations authorize the transactions: every transaction
/// has canonical bytes, there is one authorization for each input and no
/// other, and the authorization at the flat position of an input accepts the
/// canonical bytes of the input's transaction.
pub open spec fn verifies(transactions: Seq<Transaction>, authorizations: Seq<Authorization>) -> bool {
    &&& all_encodable(transactions)
    &&& authorizes(transactions, messages_of(transactions), authorizations)
}

/// The inputs before a transaction and its own are the inputs before the
/// next one.
pub proof fn lemma_first_input_step(transactions: Seq<Transaction>, t: int)
    requires
        0 <= t < transactions.len(),
    ensures
        first_input(transactions, t + 1) == first_input(transactions, t)
            + transactions[t].inputs@.len(),
{
    let next = transactions.take(t + 1);
    assert(next.drop_last() =~= transactions.take(t));
}

/// The first transaction starts at position 0, and the position after the
/// last transaction is the number of all inputs.
pub proof fn lemma_first_input_ends(transactions: Seq<Transaction>)
    ensures
        first_input(transactions, 0) == 0,
        first_input(transactions, transactions.len() as int) == input_count(transactions),
{
    assert(transactions.take(transactions.len() as int) =~= transactions);
}

/// Transactions further on start further on.
pub proof fn lemma_first_input_monotonic(transactions: Seq<Transaction>, s: int, t: int)
    requires
        0 <= s <= t <= transactions.len(),
    ensures
        first_input(transactions, s) <= first_input(transactions, t),
    decreases t - s,
{
    if s < t {
        lemma_first_input_monotonic(transactions, s, t - 1);
        lemma_first_input_step(transactions, t - 1);
    }
}

/// The inputs of a transaction lie within the flat list.
pub proof fn lemma_owned_position_in_range(transactions: Seq<Transaction>, t: int, k: int)
    requires
        owns(transactions, t, k),
    ensures
        0 <= k < input_count(transactions),
{
    lemma_first_input_step(transactions, t);
    lemma_first_input_monotonic(transactions, t + 1, transactions.len() as int);
    lemma_first_input_ends(transactions);
}

/// A flat position belongs to one transaction only.
pub proof fn lemma_owner_unique(transactions: Seq<Transaction>, s: int, t: int, k: int)
    requires
        owns(transactions, s, k),
        owns(transactions, t, k),
    ensures
        s == t,
{
    if s < t {
        lemma_first_input_step(transactions, s);
        lemma_first_input_monotonic(transactions, s + 1, t);
    }
    if t < s {
        lemma_first_input_step(transactions, t);
        lemma_first_input_monotonic(transactions, t + 1, s);
    }
}

/// A transaction alone has its own inputs and no other.
pub proof fn lemma_input_count_single(transaction: Transaction)
    ensures
        input_count(seq![transaction]) == transaction.inputs@.len(),
{
    reveal_with_fuel(input_count, 2);
}

/// A transaction alone verifies exactly when it has canonical bytes and its
/// inputs have one authorization each, which accepts those bytes.
pub proof fn lemma_single_transaction(transaction: Transaction, authorizations: Seq<Authorization>)
    ensures
        verifies(seq![transaction], authorizations) <==> {
            &&& transaction.is_encodable()
            &&& authorizations.len() == transaction.inputs@.len()
            &&& forall|i: int|
                0 <= i < authorizations.len() ==> (#[trigger] authorizations[i]).accepts(
                    transaction.message(),
                )
        },
{
    let alone = seq![transaction];
    lemma_first_input_ends(alone);
    lemma_input_count_single(transaction);
    if verifies(alone, authorizations) {
        assert forall|i: int| 0 <= i < authorizations.len() implies (
        #[trigger] authorizations[i]).accepts(transaction.message()) by {
            assert(authorizations[first_input(alone, 0) + i].accepts(alone[0].message()));
        }
    }
}

/// The inputs of two lists of transactions, laid end to end, are counted
/// together.
pub proof fn lemma_input_count_concat(front: Seq<Transaction>, back: Seq<Transaction>)
    ensures
        input_count(front + back) == input_count(front) + input_count(back),
    decreases back.len(),
{
    if back.len() > 0 {
        lemma_input_count_concat(front, back.drop_last());
        assert((front + back).drop_last() =~= front + back.drop_last());
    }
}

/// Where a transaction starts when two lists are laid end to end: those of
/// the front list stay in place, and those of the back list move on by the
/// number of inputs of the front list.
pub proof fn lemma_first_input_concat(front: Seq<Transaction>, back: Seq<Transaction>, t: int)
    requires
        0 <= t <= front.len() + back.len(),
    ensures
        t <= front.len() ==> first_input(front + back, t) == first_input(front, t),
        t >= front.len() ==> first_input(front + back, t) == input_count(front) + first_input(
            back,
            t - front.len(),
        ),
{
    if t <= front.len() {
        assert((front + back).take(t) =~= front.take(t));
    }
    if t >= front.len() {
        assert((front + back).take(t) =~= front + back.take(t - front.len()));
        lemma_input_count_concat(front, back.take(t - front.len()));
    }
}

/// For each flat position, in order, the index of the transaction that the
/// position belongs to: a transaction's index is repeated once for each of
/// its inputs.
pub fn input_owners(transactions: &Vec<Transaction>) -> (owners: Vec<usize>)
    ensures
        owners@.len() == input_count(transactions@),
        forall|k: int| 0 <= k < owners@.len() ==> owns(transactions@, #[trigger] owners@[k] as int, k),
{
    let mut owners: Vec<usize> = Vec::new();
    let mut t: usize = 0;
    proof {
        lemma_first_input_ends(transactions@);
    }
    while t < transactions.len()
        invariant
            t <= transactions@.len(),
            owners@.len() == first_input(transactions@, t as int),
            forall|k: int|
                0 <= k < owners@.len() ==> owns(transactions@, #[trigger] owners@[k] as int, k),
        decreases transactions@.len() - t,
    {
        let n: usize = transactions[t].inputs.len();
        let mut i: usize = 0;
        while i < n
            invariant
                t < transactions@.len(),
                n == transactions@[t as int].inputs@.len(),
                i <= n,
                owners@.len() == first_input(transactions@, t as int) + i,
                forall|k: int|
                    0 <= k < owners@.len() ==> owns(
                        transactions@,
                        #[trigger] owners@[k] as int,
                        k,
                    ),
            decreases n - i,
        {
            owners.push(t);
            i += 1;
        }
        proof {
            lemma_first_input_step(transactions@, t as int);
        }
        t += 1;
    }
    proof {
        lemma_first_input_ends(transactions@);
    }
    owners
}

} // verus!
