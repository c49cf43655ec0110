use offchain_signer::nonces::NonceStore;
use offchain_signer::offchain::{ForAll, ForAny, SignedPayload, Signer, SigningTypes};
use offchain_signer::pool::TransactionPool;
use offchain_signer::runtime::{
    DecliningCreator, FixedCallBuilder, PlainCreator, ValuePayload, ValuePayloadBuilder,
};
use offchain_signer::signers::LocalSigner;

fn wrapping_scheme_signature(public: u64, message: &[u8]) -> u64 {
    let mut acc = public;
    for b in message {
        acc = acc.wrapping_add(*b as u64);
    }
    acc
}

#[test]
fn for_all_returns_one_result_per_registered_key() {
    let env = LocalSigner::new(vec![10, 20, 30]);
    let signer = Signer::<ForAll>::all_accounts();
    let message = vec![1u8, 2, 3];
    let results = signer.sign_message(&env, &message);
    assert_eq!(results.len(), 3);
    for (i, (account, signature)) in results.iter().enumerate() {
        assert_eq!(account.index, i);
        assert!(env.verify(&message, account.public, *signature));
    }
    assert_eq!(results[0].0.public, 10);
    assert_eq!(results[1].0.public, 20);
    assert_eq!(results[2].0.public, 30);
    // byte sum of the message is 6, so the scheme signs key 10 with 16
    assert_eq!(results[0].1, 16);
    assert_eq!(results[1].1, 26);
}

#[test]
fn for_all_skips_keys_the_holder_cannot_sign_with() {
    let env = LocalSigner::new(vec![20]);
    let signer = Signer::<ForAll>::all_accounts().with_filter(vec![10, 20, 30]);
    let message = vec![9u8];
    let results = signer.sign_message(&env, &message);
    assert_eq!(results.len(), 1);
    assert_eq!(results[0].0.public, 20);
    assert_eq!(results[0].0.index, 1);
}

#[test]
fn for_any_returns_first_signable_account_and_stops() {
    // accounts ordered [A, B, C] where only B's signing succeeds
    let env = LocalSigner::new(vec![200]);
    let signer = Signer::<ForAny>::any_account().with_filter(vec![100, 200, 300]);
    let message = vec![5u8, 5];
    let result = signer.sign_message(&env, &message);
    let (account, signature) = result.expect("B can sign");
    assert_eq!(account.public, 200);
    assert_eq!(account.index, 1);
    assert!(env.verify(&message, 200, signature));
}

#[test]
fn for_any_returns_nothing_when_no_account_signs() {
    let env = LocalSigner::new(vec![]);
    let signer = Signer::<ForAny>::any_account().with_filter(vec![1, 2, 3]);
    assert!(signer.sign_message(&env, &[1u8, 2]).is_none());
}

#[test]
fn filter_restricts_results_to_filtered_keys() {
    // B (= 20) is registered but filtered out
    let env = LocalSigner::new(vec![10, 20, 30]);
    let signer = Signer::<ForAll>::all_accounts().with_filter(vec![10, 30]);
    let message = vec![7u8];
    let results = signer.sign_message(&env, &message);
    assert_eq!(results.len(), 2);
    for (account, _) in &results {
        assert_ne!(account.public, 20);
    }
    let any = Signer::<ForAny>::any_account().with_filter(vec![30]);
    let (account, _) = any.sign_message(&env, &message).expect("30 signs");
    assert_eq!(account.public, 30);
}

#[test]
fn empty_filter_produces_no_results() {
    let env = LocalSigner::new(vec![10]);
    let signer = Signer::<ForAll>::all_accounts().with_filter(vec![]);
    assert_eq!(signer.sign_message(&env, &[1u8]).len(), 0);
}

#[test]
fn sign_builds_and_signs_payloads_per_account() {
    let env = LocalSigner::new(vec![11, 22]);
    let signer = Signer::<ForAll>::all_accounts();
    let results = signer.sign(&env, ValuePayloadBuilder { value: 900 });
    assert_eq!(results.len(), 2);
    for (account, signature) in &results {
        let payload = ValuePayload { value: 900, public: account.public };
        assert!(payload.verify(&env, *signature));
    }
}

#[test]
fn signed_submissions_use_consecutive_nonces() {
    let env = LocalSigner::new(vec![77]);
    // three submissions for the same account, but room for only two
    let signer = Signer::<ForAll>::all_accounts().with_filter(vec![77, 77, 77]);
    let hook = PlainCreator {};
    let mut nonces = NonceStore::new();
    let mut pool = TransactionPool::new(2);
    let builder = FixedCallBuilder { call: vec![1u8, 2, 3] };
    let results = signer.send_signed_transaction(&env, &hook, &mut nonces, &mut pool, &builder);
    assert_eq!(results.len(), 3);
    assert_eq!(results[0].1, Ok(()));
    assert_eq!(results[1].1, Ok(()));
    assert_eq!(results[2].1, Err(()));
    // the two accepted extrinsics carry nonces 0 and 1: no repeats, no gaps
    assert_eq!(pool.len(), 2);
    assert_eq!(pool.get(0).signature.unwrap().nonce, 0);
    assert_eq!(pool.get(1).signature.unwrap().nonce, 1);
    // the failed hand-off did not consume a nonce value
    assert_eq!(nonces.get_nonce(77), 2);
}

#[test]
fn nonces_continue_across_passes() {
    let env = LocalSigner::new(vec![8]);
    let signer = Signer::<ForAll>::all_accounts();
    let hook = PlainCreator {};
    let mut nonces = NonceStore::new();
    nonces.set_nonce(8, 40);
    let mut pool = TransactionPool::new(10);
    let builder = FixedCallBuilder { call: vec![] };
    signer.send_signed_transaction(&env, &hook, &mut nonces, &mut pool, &builder);
    signer.send_signed_transaction(&env, &hook, &mut nonces, &mut pool, &builder);
    assert_eq!(nonces.get_nonce(8), 42);
    assert_eq!(pool.get(0).signature.unwrap().nonce, 40);
    assert_eq!(pool.get(1).signature.unwrap().nonce, 41);
}

#[test]
fn failed_handoff_leaves_nonce_untouched() {
    let env = LocalSigner::new(vec![5]);
    let signer = Signer::<ForAll>::all_accounts();
    let hook = PlainCreator {};
    let mut nonces = NonceStore::new();
    nonces.set_nonce(5, 9);
    let mut pool = TransactionPool::new(0);
    let builder = FixedCallBuilder { call: vec![1u8] };
    let results = signer.send_signed_transaction(&env, &hook, &mut nonces, &mut pool, &builder);
    assert_eq!(results.len(), 1);
    assert_eq!(results[0].1, Err(()));
    assert_eq!(nonces.get_nonce(5), 9);
    assert_eq!(pool.len(), 0);
}

#[test]
fn declined_construction_yields_no_result_and_no_handoff() {
    let env = LocalSigner::new(vec![1, 2, 3]);
    let signer = Signer::<ForAll>::all_accounts();
    let hook = DecliningCreator {};
    let mut nonces = NonceStore::new();
    nonces.set_nonce(2, 6);
    let mut pool = TransactionPool::new(10);
    let builder = FixedCallBuilder { call: vec![1u8] };
    let results = signer.send_signed_transaction(&env, &hook, &mut nonces, &mut pool, &builder);
    assert!(results.is_empty());
    assert_eq!(pool.len(), 0);
    assert_eq!(nonces.get_nonce(1), 0);
    assert_eq!(nonces.get_nonce(2), 6);

    let any = Signer::<ForAny>::any_account();
    let result = any.send_signed_transaction(&env, &hook, &mut nonces, &mut pool, &builder);
    assert!(result.is_none());
    assert_eq!(pool.len(), 0);
}

#[test]
fn any_signed_submission_stops_at_first_constructed() {
    let env = LocalSigner::new(vec![31, 32]);
    let signer = Signer::<ForAny>::any_account();
    let hook = PlainCreator {};
    let mut nonces = NonceStore::new();
    let mut pool = TransactionPool::new(10);
    let builder = FixedCallBuilder { call: vec![4u8] };
    let result = signer.send_signed_transaction(&env, &hook, &mut nonces, &mut pool, &builder);
    let (account, outcome) = result.expect("hook constructs");
    assert_eq!(account.public, 31);
    assert_eq!(outcome, Ok(()));
    assert_eq!(pool.len(), 1);
    assert_eq!(nonces.get_nonce(31), 1);
    assert_eq!(nonces.get_nonce(32), 0);
}

#[test]
fn unsigned_submissions_do_not_touch_nonces() {
    let env = LocalSigner::new(vec![50]);
    let signer = Signer::<ForAll>::all_accounts();
    let mut nonces = NonceStore::new();
    nonces.set_nonce(50, 13);
    let mut pool = TransactionPool::new(10);
    let builder = ValuePayloadBuilder { value: 1 };
    for _ in 0..4 {
        let results = signer.send_unsigned_transaction(&env, &mut pool, &builder);
        assert_eq!(results.len(), 1);
        assert_eq!(results[0].1, Ok(()));
    }
    assert_eq!(pool.len(), 4);
    assert_eq!(nonces.get_nonce(50), 13);
    // unsigned extrinsics carry no signature material
    for i in 0..4 {
        assert!(pool.get(i).signature.is_none());
    }
}

#[test]
fn unsigned_call_carries_payload_encoding_and_signature() {
    let env = LocalSigner::new(vec![3]);
    let signer = Signer::<ForAny>::any_account();
    let mut pool = TransactionPool::new(1);
    let builder = ValuePayloadBuilder { value: 256 };
    let (account, outcome) =
        signer.send_unsigned_transaction(&env, &mut pool, &builder).expect("3 signs");
    assert_eq!(account.public, 3);
    assert_eq!(outcome, Ok(()));
    let payload = ValuePayload { value: 256, public: 3 };
    let encoding = payload.encode();
    let signature = payload.sign(&env).expect("3 signs");
    let mut expected = encoding.clone();
    expected.extend_from_slice(&signature.to_le_bytes());
    assert_eq!(pool.get(0).call, expected);
}

#[test]
fn unsigned_handoff_failure_is_reported_per_account() {
    let env = LocalSigner::new(vec![3]);
    let signer = Signer::<ForAll>::all_accounts();
    let mut pool = TransactionPool::new(0);
    let builder = ValuePayloadBuilder { value: 2 };
    let results = signer.send_unsigned_transaction(&env, &mut pool, &builder);
    assert_eq!(results.len(), 1);
    assert_eq!(results[0].1, Err(()));
    assert_eq!(pool.len(), 0);
}

#[test]
fn filtered_submission_never_touches_other_accounts() {
    // 20 is registered but filtered out: no result, no nonce movement for it
    let env = LocalSigner::new(vec![10, 20]);
    let signer = Signer::<ForAll>::all_accounts().with_filter(vec![10]);
    let hook = PlainCreator {};
    let mut nonces = NonceStore::new();
    let mut pool = TransactionPool::new(10);
    let builder = FixedCallBuilder { call: vec![8u8] };
    let results = signer.send_signed_transaction(&env, &hook, &mut nonces, &mut pool, &builder);
    assert_eq!(results.len(), 1);
    assert_eq!(results[0].0.public, 10);
    assert_eq!(nonces.get_nonce(10), 1);
    assert_eq!(nonces.get_nonce(20), 0);
    assert_eq!(pool.len(), 1);
    assert_eq!(pool.get(0).signature.unwrap().signer, 10);
}

#[test]
fn round_trip_sign_then_verify() {
    let env = LocalSigner::new(vec![400]);
    let payload = ValuePayload { value: 123456, public: 400 };
    let signature = payload.sign(&env).expect("key registered");
    assert!(payload.verify(&env, signature));
    assert_eq!(signature, wrapping_scheme_signature(400, &payload.encode()));
}

#[test]
fn one_byte_change_makes_verification_fail() {
    let env = LocalSigner::new(vec![400]);
    let payload = ValuePayload { value: 123456, public: 400 };
    let signature = payload.sign(&env).expect("key registered");
    let encoding = payload.encode();
    for k in 0..encoding.len() {
        let mut mutated = encoding.clone();
        mutated[k] ^= 1;
        assert!(env.verify(&encoding, 400, signature));
        assert!(!env.verify(&mutated, 400, signature));
    }
}

#[test]
fn unsigned_any_returns_nothing_when_no_key_signs() {
    let env = LocalSigner::new(vec![]);
    let signer = Signer::<ForAny>::any_account().with_filter(vec![1, 2]);
    let mut pool = TransactionPool::new(5);
    let builder = ValuePayloadBuilder { value: 7 };
    assert!(signer.send_unsigned_transaction(&env, &mut pool, &builder).is_none());
    assert_eq!(pool.len(), 0);
}

#[test]
fn signing_an_unregistered_key_yields_nothing() {
    let env = LocalSigner::new(vec![1]);
    assert!(env.sign(&[1u8, 2], 2).is_none());
    let payload = ValuePayload { value: 0, public: 2 };
    assert!(payload.sign(&env).is_none());
}
