use offchain_signer::nonces::NonceStore;
use offchain_signer::offchain::{Account, SigningTypes};
use offchain_signer::params::{SignerParams, SignerType};
use offchain_signer::pool::{SubmitTransaction, TransactionPool, TxSignature};
use offchain_signer::scale::{scale_encode_u64, scale_encode_u64_pair};
use offchain_signer::signers::{LocalSigner, RemoteSigner};

#[test]
fn nonce_store_defaults_to_zero_and_keeps_last_write() {
    let mut nonces = NonceStore::new();
    assert_eq!(nonces.get_nonce(9), 0);
    nonces.set_nonce(9, 5);
    nonces.set_nonce(4, 1);
    nonces.set_nonce(9, 6);
    assert_eq!(nonces.get_nonce(9), 6);
    assert_eq!(nonces.get_nonce(4), 1);
    assert_eq!(nonces.get_nonce(5), 0);
}

#[test]
fn pool_accepts_until_capacity_and_keeps_order() {
    let mut pool = TransactionPool::new(2);
    assert_eq!(pool.capacity(), 2);
    let sig = TxSignature { signer: 1, signature: 2, nonce: 3 };
    assert_eq!(SubmitTransaction::submit_transaction(&mut pool, vec![1u8], Some(sig)), Ok(()));
    assert_eq!(SubmitTransaction::submit_unsigned_transaction(&mut pool, vec![2u8]), Ok(()));
    assert_eq!(SubmitTransaction::submit_unsigned_transaction(&mut pool, vec![3u8]), Err(()));
    assert_eq!(pool.len(), 2);
    assert_eq!(pool.get(0).call, vec![1u8]);
    assert_eq!(pool.get(0).signature.unwrap().nonce, 3);
    assert_eq!(pool.get(1).call, vec![2u8]);
    assert!(pool.get(1).signature.is_none());
}

#[test]
fn account_packs_its_pieces() {
    let account = Account::new(2, 7, 8);
    assert_eq!(account.index, 2);
    assert_eq!(account.id, 7);
    assert_eq!(account.public, 8);
}

#[test]
fn local_signer_enumerates_keys_in_insertion_order() {
    let env = LocalSigner::new(vec![5, 3, 5]);
    assert_eq!(env.supported_keys(), vec![5, 3, 5]);
    assert_eq!(env.into_account(3), 3);
}

#[test]
fn scale_encoding_is_little_endian() {
    assert_eq!(
        scale_encode_u64(0x0102030405060708),
        vec![8u8, 7, 6, 5, 4, 3, 2, 1],
    );
    assert_eq!(
        scale_encode_u64_pair(1, 256),
        vec![1u8, 0, 0, 0, 0, 0, 0, 0, 0, 1, 0, 0, 0, 0, 0, 0],
    );
}

#[test]
fn remote_signer_keeps_its_configuration() {
    let remote = RemoteSigner::new(String::from("signer.example"), 50051);
    assert_eq!(remote.host(), "signer.example");
    assert_eq!(remote.port(), 50051);
    let fallback = RemoteSigner::default();
    assert_eq!(fallback.host(), "");
    assert_eq!(fallback.port(), 0);
}

#[test]
fn signer_config_carries_every_parameter_over() {
    let params = SignerParams {
        signer_type: SignerType::RemoteClient,
        signer_host: Some(String::from("127.0.0.1")),
        signer_port: Some(50051),
    };
    let config = params.signer_config().expect("never rejected");
    assert_eq!(config.signer_type, SignerType::RemoteClient);
    assert_eq!(config.host.as_deref(), Some("127.0.0.1"));
    assert_eq!(config.port, Some(50051));

    let local = SignerParams { signer_type: SignerType::Local, signer_host: None, signer_port: None };
    let config = local.signer_config().expect("never rejected");
    assert_eq!(config.signer_type, SignerType::Local);
    assert!(config.host.is_none());
    assert!(config.port.is_none());
}
