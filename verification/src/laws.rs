//! What holds of authorizing and verifying together.

use vstd::prelude::*;
use crate::authorization::{Authorization, AuthorizedTransaction};
use crate::body::{
    all_well_formed, flat_authorizations, lemma_flat_layout_length,
    lemma_well_formed_without_last, transactions_of, Body,
};
use crate::layout::{
    first_input, input_count, lemma_first_input_concat, lemma_input_count_concat,
    lemma_input_count_single, lemma_owned_position_in_range, lemma_owner_unique, owns, verifies,
};
use crate::transaction::Transaction;

verus! {

/// Laying two lists of transactions end to end, and their authorizations end
/// to end, gives a list that verifies exactly when both lists verify,
/// provided the front list has one authorization for each of its inputs.
pub proof fn lemma_concatenation(
    front: Seq<Transaction>,
    front_authorizations: Seq<Authorization>,
    back: Seq<Transaction>,
    back_authorizations: Seq<Authorization>,
)
    requires
        front_authorizations.len() == input_count(front),
    ensures
        verifies(front + back, front_authorizations + back_authorizations) <==> verifies(
            front,
            front_authorizations,
        ) && verifies(back, back_authorizations),
{
    let joined = front + back;
    let authorizations = front_authorizations + back_authorizations;
    lemma_input_count_concat(front, back);
    if verifies(joined, authorizations) {
        assert forall|t: int| 0 <= t < front.len() implies (#[trigger] front[t]).is_encodable() by {
            assert(joined[t].is_encodable());
        }
        assert forall|t: int| 0 <= t < back.len() implies (#[trigger] back[t]).is_encodable() by {
            assert(joined[front.len() + t].is_encodable());
        }
        assert forall|t: int, i: int|
            0 <= t < front.len() && 0 <= i < front[t].inputs@.len() implies (
        #[trigger] front_authorizations[first_input(front, t) + i]).accepts(front[t].message()) by {
            lemma_first_input_concat(front, back, t);
            lemma_owned_position_in_range(front, t, first_input(front, t) + i);
            assert(authorizations[first_input(joined, t) + i].accepts(joined[t].message()));
        }
        assert forall|t: int, i: int|
            0 <= t < back.len() && 0 <= i < back[t].inputs@.len() implies (
        #[trigger] back_authorizations[first_input(back, t) + i]).accepts(back[t].message()) by {
            let s = front.len() + t;
            lemma_first_input_concat(front, back, s);
            lemma_owned_position_in_range(back, t, first_input(back, t) + i);
            assert(authorizations[first_input(joined, s) + i].accepts(joined[s].message()));
        }
    }
    if verifies(front, front_authorizations) && verifies(back, back_authorizations) {
        assert forall|t: int| 0 <= t < joined.len() implies (#[trigger] joined[t]).is_encodable() by {
            if t >= front.len() {
                assert(back[t - front.len()].is_encodable());
            }
        }
        assert forall|t: int, i: int|
            0 <= t < joined.len() && 0 <= i < joined[t].inputs@.len() implies (
        #[trigger] authorizations[first_input(joined, t) + i]).accepts(joined[t].message()) by {
            lemma_first_input_concat(front, back, t);
            if t < front.len() {
                lemma_owned_position_in_range(front, t, first_input(front, t) + i);
            } else {
                let s = t - front.len();
                lemma_owned_position_in_range(back, s, first_input(back, s) + i);
            }
        }
    }
}

/// A body made of two bodies laid end to end verifies exactly when both
/// verify, provided the first has one authorization for each of its inputs.
pub proof fn lemma_concatenated_bodies(first: Body, second: Body, joined: Body)
    requires
        first.has_flat_layout(),
        joined.transactions@ == first.transactions@ + second.transactions@,
        joined.authorizations@ == first.authorizations@ + second.authorizations@,
    ensures
        joined.verifies() <==> first.verifies() && second.verifies(),
{
    lemma_concatenation(
        first.transactions@,
        first.authorizations@,
        second.transactions@,
        second.authorizations@,
    );
}

/// The body of one authorized transaction holds that transaction alone, with
/// its authorizations: it verifies exactly when the transaction verifies
/// alone.
pub proof fn lemma_body_of_one(entry: AuthorizedTransaction)
    ensures
        transactions_of(seq![entry]) == seq![entry.transaction],
        flat_authorizations(seq![entry]) == entry.authorizations@,
{
    reveal_with_fuel(flat_authorizations, 2);
}

/// The body of well-formed authorized transactions verifies exactly when
/// each of them verifies alone.
pub proof fn lemma_body_of_authorized(authorized: Seq<AuthorizedTransaction>)
    requires
        all_well_formed(authorized),
    ensures
        verifies(transactions_of(authorized), flat_authorizations(authorized)) <==> forall|t: int|
            0 <= t < authorized.len() ==> verifies(
                seq![(#[trigger] authorized[t]).transaction],
                authorized[t].authorizations@,
            ),
    decreases authorized.len(),
{
    if authorized.len() > 0 {
        let before = authorized.drop_last();
        let last = authorized.last();
        lemma_well_formed_without_last(authorized);
        lemma_body_of_authorized(before);
        lemma_flat_layout_length(before);
        lemma_concatenation(
            transactions_of(before),
            flat_authorizations(before),
            seq![last.transaction],
            last.authorizations@,
        );
        assert(transactions_of(authorized) =~= transactions_of(before) + seq![last.transaction]);
        if verifies(transactions_of(authorized), flat_authorizations(authorized)) {
            assert forall|t: int| 0 <= t < authorized.len() implies verifies(
                seq![(#[trigger] authorized[t]).transaction],
                authorized[t].authorizations@,
            ) by {
                if t < before.len() {
                    assert(before[t] == authorized[t]);
                }
            }
        }
        if forall|t: int|
            0 <= t < authorized.len() ==> verifies(
                seq![(#[trigger] authorized[t]).transaction],
                authorized[t].authorizations@,
            ) {
            assert forall|t: int| 0 <= t < before.len() implies verifies(
                seq![(#[trigger] before[t]).transaction],
                before[t].authorizations@,
            ) by {
                assert(before[t] == authorized[t]);
            }
        }
    }
}

/// Verification recomputes the bytes that were signed. Let one transaction
/// of a body with a flat layout be replaced by another, and the
/// authorizations be left as they were. If the replacement has another
/// number of inputs, or if the authorization of one of its inputs does not
/// accept the replacement's canonical bytes, the changed body does not
/// verify.
pub proof fn lemma_changed_transaction_rejected(
    transactions: Seq<Transaction>,
    authorizations: Seq<Authorization>,
    t: int,
    replacement: Transaction,
    i: int,
)
    requires
        authorizations.len() == input_count(transactions),
        0 <= t < transactions.len(),
        replacement.inputs@.len() == transactions[t].inputs@.len() ==> 0 <= i
            < replacement.inputs@.len() && !authorizations[first_input(transactions, t)
            + i].accepts(replacement.message()),
    ensures
        !verifies(transactions.update(t, replacement), authorizations),
{
    let changed = transactions.update(t, replacement);
    let front = transactions.take(t);
    let back = transactions.skip(t + 1);
    assert(transactions =~= front + seq![transactions[t]] + back);
    assert(changed =~= front + seq![replacement] + back);
    lemma_input_count_concat(front + seq![transactions[t]], back);
    lemma_input_count_concat(front, seq![transactions[t]]);
    lemma_input_count_concat(front + seq![replacement], back);
    lemma_input_count_concat(front, seq![replacement]);
    lemma_input_count_single(transactions[t]);
    lemma_input_count_single(replacement);
    if replacement.inputs@.len() == transactions[t].inputs@.len() {
        assert(changed.take(t) =~= front);
        assert(!authorizations[first_input(changed, t) + i].accepts(changed[t].message()));
    }
}

/// The authorizations of a body in which those of transactions `s` and `t`,
/// which have the same number of inputs, have changed places.
pub open spec fn cross_wired(
    transactions: Seq<Transaction>,
    authorizations: Seq<Authorization>,
    s: int,
    t: int,
) -> Seq<Authorization> {
    Seq::new(
        authorizations.len(),
        |k: int|
            if owns(transactions, s, k) {
                authorizations[k - first_input(transactions, s) + first_input(transactions, t)]
            } else if owns(transactions, t, k) {
                authorizations[k - first_input(transactions, t) + first_input(transactions, s)]
            } else {
                authorizations[k]
            },
    )
}

/// An authorization is checked against the transaction at whose place it
/// lies. Let the authorizations of two different transactions with the same
/// number of inputs change places in a body with a flat layout. If one of
/// those that came from `s` does not accept the canonical bytes of `t`, the
/// cross-wired body does not verify.
pub proof fn lemma_cross_wired_rejected(
    transactions: Seq<Transaction>,
    authorizations: Seq<Authorization>,
    s: int,
    t: int,
    i: int,
)
    requires
        authorizations.len() == input_count(transactions),
        0 <= s < transactions.len(),
        0 <= t < transactions.len(),
        s != t,
        transactions[s].inputs@.len() == transactions[t].inputs@.len(),
        0 <= i < transactions[s].inputs@.len(),
        !authorizations[first_input(transactions, s) + i].accepts(transactions[t].message()),
    ensures
        !verifies(transactions, cross_wired(transactions, authorizations, s, t)),
{
    let k = first_input(transactions, t) + i;
    let swapped = cross_wired(transactions, authorizations, s, t);
    lemma_owned_position_in_range(transactions, t, k);
    lemma_owned_position_in_range(transactions, s, first_input(transactions, s) + i);
    if owns(transactions, s, k) {
        lemma_owner_unique(transactions, s, t, k);
    }
    assert(swapped[k] == authorizations[first_input(transactions, s) + i]);
}

/// In the flat list of well-formed authorized transactions, the
/// authorization of input `i` of transaction `t` lies `i` positions after the
/// first input of `t`.
pub proof fn lemma_flat_layout_position(authorized: Seq<AuthorizedTransaction>, t: int, i: int)
    requires
        all_well_formed(authorized),
        0 <= t < authorized.len(),
        0 <= i < authorized[t].authorizations@.len(),
    ensures
        first_input(transactions_of(authorized), t) + i < flat_authorizations(authorized).len(),
        flat_authorizations(authorized)[first_input(transactions_of(authorized), t) + i]
            == authorized[t].authorizations@[i],
    decreases authorized.len(),
{
    let before = authorized.drop_last();
    let transactions = transactions_of(authorized);
    lemma_well_formed_without_last(authorized);
    lemma_flat_layout_length(before);
    if t == authorized.len() - 1 {
        assert(transactions.take(t) =~= transactions_of(before));
    } else {
        lemma_flat_layout_position(before, t, i);
        assert(transactions.take(t) =~= transactions_of(before).take(t));
    }
}

/// Verification does not depend on the order of the transactions: two lists
/// of well-formed authorized transactions that hold the same entries give
/// bodies that verify together or not at all.
pub proof fn lemma_order_independent(
    one: Seq<AuthorizedTransaction>,
    other: Seq<AuthorizedTransaction>,
)
    requires
        all_well_formed(one),
        all_well_formed(other),
        forall|entry: AuthorizedTransaction| one.contains(entry) <==> other.contains(entry),
    ensures
        verifies(transactions_of(one), flat_authorizations(one)) <==> verifies(
            transactions_of(other),
            flat_authorizations(other),
        ),
{
    lemma_body_of_authorized(one);
    lemma_body_of_authorized(other);
    if verifies(transactions_of(one), flat_authorizations(one)) {
        assert forall|t: int| 0 <= t < other.len() implies verifies(
            seq![(#[trigger] other[t]).transaction],
            other[t].authorizations@,
        ) by {
            assert(one.contains(other[t]));
        }
    }
    if verifies(transactions_of(other), flat_authorizations(other)) {
        assert forall|t: int| 0 <= t < one.len() implies verifies(
            seq![(#[trigger] one[t]).transaction],
            one[t].authorizations@,
        ) by {
            assert(other.contains(one[t]));
        }
    }
}

} // verus!
