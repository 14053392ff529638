use sdk_authorization_ed25519_dalek::{
    authorization_owners, authorize, authorize_message, get_address, input_owners,
    serialize_transactions, verify_authorizations, verify_messages, Address, Authorization,
    AuthorizedTransaction, Body, Keypair, OutPoint, Output, Signature, Transaction,
};

fn payment(inputs: usize, outputs: usize, tag: u8) -> Transaction {
    Transaction {
        inputs: (0..inputs).map(|i| OutPoint { txid: [tag; 32], vout: i as u32 }).collect(),
        outputs: (0..outputs)
            .map(|i| Output { address: Address { bytes: [tag; 32] }, content: vec![tag, i as u8] })
            .collect(),
    }
}

fn signed(transaction: Transaction, secrets: &[u8]) -> AuthorizedTransaction {
    let keypairs: Vec<Keypair> = secrets.iter().map(|s| Keypair::from_secret([*s; 32])).collect();
    let pairs: Vec<(Address, &Keypair)> =
        keypairs.iter().map(|keypair| (get_address(&keypair.public), keypair)).collect();
    authorize(&pairs, transaction).unwrap()
}

fn authorization_of(secret: u8, transaction: &Transaction) -> Authorization {
    let keypair = Keypair::from_secret([secret; 32]);
    let message = transaction.serialize().unwrap();
    Authorization { public_key: keypair.public, signature: keypair.sign(&message).unwrap() }
}

#[test]
fn one_input_two_outputs() {
    let authorized = signed(payment(1, 2, 1), &[1]);
    let mut body = Body::new(vec![authorized], vec![]);
    assert_eq!(body.transactions.len(), 1);
    assert_eq!(body.authorizations.len(), 1);
    assert!(verify_authorizations(&body).unwrap());
    body.authorizations[0].signature.bytes[10] ^= 1;
    assert!(!verify_authorizations(&body).unwrap());
}

#[test]
fn every_flipped_signature_bit_is_refused() {
    let authorized = signed(payment(1, 2, 1), &[1]);
    let body = Body::new(vec![authorized], vec![]);
    for position in 0..64 {
        for bit in 0..8 {
            let mut changed = body.clone();
            changed.authorizations[0].signature.bytes[position] ^= 1 << bit;
            assert!(!verify_authorizations(&changed).unwrap());
        }
    }
}

#[test]
fn authorized_transaction_verifies() {
    for inputs in 0..5usize {
        let secrets: Vec<u8> = (0..inputs).map(|i| 10 + i as u8).collect();
        let authorized = signed(payment(inputs, 2, 3), &secrets);
        let body = Body::new(vec![authorized], vec![]);
        assert!(verify_authorizations(&body).unwrap());
    }
}

#[test]
fn empty_body_verifies() {
    let body = Body::new(vec![], vec![]);
    assert!(body.transactions.is_empty());
    assert!(body.authorizations.is_empty());
    assert!(verify_authorizations(&body).unwrap());
}

#[test]
fn coinbase_is_kept_and_not_verified() {
    let coinbase = vec![Output { address: Address { bytes: [5; 32] }, content: vec![1, 2, 3] }];
    let body = Body::new(vec![signed(payment(1, 1, 1), &[1])], coinbase.clone());
    assert_eq!(body.coinbase, coinbase);
    assert!(verify_authorizations(&body).unwrap());
}

#[test]
fn flat_layout_of_three_transactions() {
    let first = signed(payment(2, 1, 1), &[1, 2]);
    let second = signed(payment(0, 1, 2), &[]);
    let third = signed(payment(1, 1, 3), &[3]);
    let body = Body::new(vec![first.clone(), second.clone(), third.clone()], vec![]);
    assert_eq!(
        body.transactions,
        vec![first.transaction.clone(), second.transaction.clone(), third.transaction.clone()]
    );
    assert_eq!(
        body.authorizations,
        vec![first.authorizations[0], first.authorizations[1], third.authorizations[0]]
    );
    assert_eq!(input_owners(&body.transactions), vec![0, 0, 2]);
    assert!(verify_authorizations(&body).unwrap());
}

#[test]
fn other_number_of_authorizations_is_refused() {
    let first = signed(payment(2, 1, 1), &[1, 2]);
    let second = signed(payment(0, 1, 2), &[]);
    let third = signed(payment(1, 1, 3), &[3]);
    let body = Body::new(vec![first, second, third], vec![]);
    let mut short = body.clone();
    short.authorizations.pop();
    assert!(!verify_authorizations(&short).unwrap());
    let mut long = body.clone();
    long.authorizations.push(body.authorizations[2]);
    assert!(!verify_authorizations(&long).unwrap());
    let mut none = body.clone();
    none.authorizations.clear();
    assert!(!verify_authorizations(&none).unwrap());
}

#[test]
fn authorizations_without_inputs_are_refused() {
    let keypair = Keypair::from_secret([1; 32]);
    let transaction = payment(0, 1, 1);
    let body = Body {
        coinbase: vec![],
        transactions: vec![transaction.clone()],
        authorizations: vec![authorization_of(1, &transaction)],
    };
    assert!(authorization_of(1, &transaction).verify(&transaction.serialize().unwrap()));
    assert_eq!(keypair.public, body.authorizations[0].public_key);
    assert!(!verify_authorizations(&body).unwrap());
}

#[test]
fn too_few_keypairs_do_not_verify() {
    let keypair = Keypair::from_secret([1; 32]);
    let pairs = [(get_address(&keypair.public), &keypair)];
    let authorized = authorize(&pairs, payment(2, 1, 1)).unwrap();
    let body = Body::new(vec![authorized], vec![]);
    assert!(!verify_authorizations(&body).unwrap());
}

#[test]
fn input_owners_repeat_each_transaction() {
    assert_eq!(input_owners(&vec![]), Vec::<usize>::new());
    assert_eq!(input_owners(&vec![payment(0, 1, 1)]), Vec::<usize>::new());
    assert_eq!(input_owners(&vec![payment(3, 1, 1)]), vec![0, 0, 0]);
    assert_eq!(
        input_owners(&vec![payment(1, 0, 1), payment(2, 0, 2), payment(0, 0, 3), payment(1, 0, 4)]),
        vec![0, 1, 1, 3]
    );
}

#[test]
fn transactions_are_serialized_in_order() {
    let transactions = vec![payment(1, 1, 1), payment(0, 0, 2), payment(2, 1, 3)];
    let messages = serialize_transactions(&transactions).unwrap();
    assert_eq!(messages.len(), 3);
    for (message, transaction) in messages.iter().zip(&transactions) {
        assert_eq!(*message, transaction.serialize().unwrap());
    }
    assert_eq!(messages[1], vec![0u8; 16]);
}

#[test]
fn changed_content_is_refused() {
    let body = Body::new(vec![signed(payment(1, 2, 1), &[1]), signed(payment(2, 1, 2), &[2, 3])], vec![]);
    assert!(verify_authorizations(&body).unwrap());
    let mut changed = body.clone();
    changed.transactions[1].outputs[0].content[0] ^= 1;
    assert!(!verify_authorizations(&changed).unwrap());
    let mut changed = body.clone();
    changed.transactions[0].outputs[1].address.bytes[31] ^= 0x80;
    assert!(!verify_authorizations(&changed).unwrap());
    let mut changed = body.clone();
    changed.transactions[0].outputs.pop();
    assert!(!verify_authorizations(&changed).unwrap());
}

#[test]
fn changed_inputs_are_refused() {
    let body = Body::new(vec![signed(payment(1, 2, 1), &[1]), signed(payment(2, 1, 2), &[2, 3])], vec![]);
    let mut changed = body.clone();
    changed.transactions[0].inputs[0].vout += 1;
    assert!(!verify_authorizations(&changed).unwrap());
    let mut changed = body.clone();
    changed.transactions[1].inputs[1].txid[0] ^= 1;
    assert!(!verify_authorizations(&changed).unwrap());
    let mut changed = body.clone();
    changed.transactions[1].inputs.swap(0, 1);
    assert!(!verify_authorizations(&changed).unwrap());
    let mut changed = body.clone();
    changed.transactions[1].inputs.pop();
    assert!(!verify_authorizations(&changed).unwrap());
    let mut changed = body.clone();
    changed.transactions[0].inputs.push(OutPoint { txid: [9; 32], vout: 0 });
    assert!(!verify_authorizations(&changed).unwrap());
}

#[test]
fn cross_wired_authorizations_are_refused() {
    let body = Body::new(vec![signed(payment(1, 1, 1), &[1]), signed(payment(1, 1, 2), &[2])], vec![]);
    assert!(verify_authorizations(&body).unwrap());
    let mut crossed = body.clone();
    crossed.authorizations.swap(0, 1);
    assert!(!verify_authorizations(&crossed).unwrap());
}

#[test]
fn cross_wired_authorizations_of_one_keypair_are_refused() {
    let body = Body::new(vec![signed(payment(2, 1, 1), &[1, 1]), signed(payment(2, 1, 2), &[1, 1])], vec![]);
    assert!(verify_authorizations(&body).unwrap());
    let mut crossed = body.clone();
    crossed.authorizations.swap(0, 2);
    crossed.authorizations.swap(1, 3);
    assert!(!verify_authorizations(&crossed).unwrap());
}

#[test]
fn authorizations_of_one_transaction_may_change_places() {
    let body = Body::new(vec![signed(payment(2, 1, 1), &[1, 2])], vec![]);
    let mut swapped = body.clone();
    swapped.authorizations.swap(0, 1);
    assert!(verify_authorizations(&swapped).unwrap());
}

#[test]
fn joined_bodies_verify_when_both_do() {
    let first = Body::new(vec![signed(payment(2, 1, 1), &[1, 2]), signed(payment(0, 1, 2), &[])], vec![]);
    let second = Body::new(vec![signed(payment(1, 2, 3), &[3])], vec![]);
    let mut broken = second.clone();
    broken.authorizations[0].signature = Signature { bytes: [0; 64] };
    let join = |front: &Body, back: &Body| Body {
        coinbase: vec![],
        transactions: [front.transactions.clone(), back.transactions.clone()].concat(),
        authorizations: [front.authorizations.clone(), back.authorizations.clone()].concat(),
    };
    assert!(verify_authorizations(&first).unwrap());
    assert!(verify_authorizations(&second).unwrap());
    assert!(!verify_authorizations(&broken).unwrap());
    assert!(verify_authorizations(&join(&first, &second)).unwrap());
    assert!(verify_authorizations(&join(&second, &first)).unwrap());
    assert!(!verify_authorizations(&join(&first, &broken)).unwrap());
    assert!(!verify_authorizations(&join(&broken, &first)).unwrap());
    assert!(!verify_authorizations(&join(&broken, &broken)).unwrap());
}

#[test]
fn body_of_authorized_transactions_is_their_join() {
    let one = signed(payment(2, 1, 1), &[1, 2]);
    let two = signed(payment(1, 2, 3), &[3]);
    let whole = Body::new(vec![one.clone(), two.clone()], vec![]);
    let front = Body::new(vec![one], vec![]);
    let back = Body::new(vec![two], vec![]);
    assert_eq!(whole.transactions, [front.transactions, back.transactions].concat());
    assert_eq!(whole.authorizations, [front.authorizations, back.authorizations].concat());
}

#[test]
fn authorization_by_another_key_is_accepted_as_signature() {
    let transaction = payment(1, 1, 1);
    let body = Body {
        coinbase: vec![],
        transactions: vec![transaction.clone()],
        authorizations: vec![authorization_of(42, &transaction)],
    };
    assert!(verify_authorizations(&body).unwrap());
}

#[test]
fn join_of_misaligned_bodies_may_verify() {
    let one = signed(payment(1, 1, 1), &[1]);
    let two = signed(payment(1, 1, 2), &[2]);
    let front = Body {
        coinbase: vec![],
        transactions: vec![one.transaction.clone()],
        authorizations: vec![one.authorizations[0], two.authorizations[0]],
    };
    let back = Body {
        coinbase: vec![],
        transactions: vec![two.transaction.clone()],
        authorizations: vec![],
    };
    let joined = Body {
        coinbase: vec![],
        transactions: [front.transactions.clone(), back.transactions.clone()].concat(),
        authorizations: [front.authorizations.clone(), back.authorizations.clone()].concat(),
    };
    assert!(!verify_authorizations(&front).unwrap());
    assert!(!verify_authorizations(&back).unwrap());
    assert!(verify_authorizations(&joined).unwrap());
}

#[test]
fn order_of_transactions_does_not_matter() {
    let one = signed(payment(2, 1, 1), &[1, 2]);
    let two = signed(payment(0, 1, 2), &[]);
    let three = signed(payment(1, 2, 3), &[3]);
    let mut broken = three.clone();
    broken.authorizations[0].signature.bytes[0] ^= 1;
    let orders: [[usize; 3]; 6] = [[0, 1, 2], [0, 2, 1], [1, 0, 2], [1, 2, 0], [2, 0, 1], [2, 1, 0]];
    for order in orders {
        let good = [one.clone(), two.clone(), three.clone()];
        let bad = [one.clone(), two.clone(), broken.clone()];
        let body = Body::new(order.iter().map(|t| good[*t].clone()).collect(), vec![]);
        assert!(verify_authorizations(&body).unwrap());
        let body = Body::new(order.iter().map(|t| bad[*t].clone()).collect(), vec![]);
        assert!(!verify_authorizations(&body).unwrap());
    }
}

#[test]
fn owners_are_assigned_to_flat_bodies_only() {
    let first = signed(payment(2, 1, 1), &[1, 2]);
    let second = signed(payment(1, 1, 2), &[3]);
    let body = Body::new(vec![first, second], vec![]);
    assert_eq!(authorization_owners(&body), Some(vec![0, 0, 1]));
    let mut short = body.clone();
    short.authorizations.pop();
    assert_eq!(authorization_owners(&short), None);
    let mut long = body.clone();
    long.authorizations.push(body.authorizations[0]);
    assert_eq!(authorization_owners(&long), None);
    assert_eq!(authorization_owners(&Body::new(vec![], vec![])), Some(vec![]));
}

#[test]
fn identity_key_authorizes_changed_transactions_too() {
    let mut identity = [0u8; 32];
    identity[0] = 1;
    let mut bytes = [0u8; 64];
    bytes[0] = 1;
    let authorization = Authorization {
        public_key: sdk_authorization_ed25519_dalek::PublicKey { bytes: identity },
        signature: Signature { bytes },
    };
    let body = Body {
        coinbase: vec![],
        transactions: vec![payment(1, 1, 1)],
        authorizations: vec![authorization],
    };
    assert!(verify_authorizations(&body).unwrap());
    let mut changed = body.clone();
    changed.transactions[0].outputs[0].content[0] ^= 1;
    assert!(verify_authorizations(&changed).unwrap());
}

fn signing(message: &[u8], secrets: &[u8]) -> Vec<Authorization> {
    let keypairs: Vec<Keypair> = secrets.iter().map(|s| Keypair::from_secret([*s; 32])).collect();
    let pairs: Vec<(Address, &Keypair)> =
        keypairs.iter().map(|keypair| (get_address(&keypair.public), keypair)).collect();
    authorize_message(&pairs, message).unwrap()
}

#[test]
fn given_messages_are_checked_transaction_by_transaction() {
    let body = Body {
        coinbase: vec![],
        transactions: vec![payment(2, 0, 1), payment(0, 0, 2), payment(1, 0, 3)],
        authorizations: [signing(b"first", &[1, 2]), signing(b"third", &[3])].concat(),
    };
    let messages = vec![b"first".to_vec(), b"second".to_vec(), b"third".to_vec()];
    assert!(verify_messages(&body, &messages));
    let messages = vec![b"first".to_vec(), b"third".to_vec(), b"third".to_vec()];
    assert!(verify_messages(&body, &messages));
    let messages = vec![b"third".to_vec(), b"second".to_vec(), b"first".to_vec()];
    assert!(!verify_messages(&body, &messages));
    let messages = vec![b"first".to_vec(), b"second".to_vec(), b"thirds".to_vec()];
    assert!(!verify_messages(&body, &messages));
    assert!(!verify_authorizations(&body).unwrap());
}

#[test]
fn one_message_for_each_transaction() {
    let body = Body {
        coinbase: vec![],
        transactions: vec![payment(1, 0, 1)],
        authorizations: signing(b"only", &[1]),
    };
    assert!(verify_messages(&body, &vec![b"only".to_vec()]));
    assert!(!verify_messages(&body, &vec![]));
    assert!(!verify_messages(&body, &vec![b"only".to_vec(), b"only".to_vec()]));
}

#[test]
fn messages_of_empty_body() {
    let body = Body::new(vec![], vec![]);
    assert!(verify_messages(&body, &vec![]));
    assert!(!verify_messages(&body, &vec![vec![]]));
}

#[test]
fn verifying_is_checking_the_serialized_transactions() {
    let body = Body::new(vec![signed(payment(2, 1, 1), &[1, 2]), signed(payment(1, 1, 2), &[3])], vec![]);
    let messages = serialize_transactions(&body.transactions).unwrap();
    assert!(verify_messages(&body, &messages));
    assert!(verify_authorizations(&body).unwrap());
}
