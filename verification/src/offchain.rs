//! Module helpers for off-chain calls: account selection, payload signing,
//! and signed / unsigned transaction submission.
//!
//! A `Signer` is built with `all_accounts` (evaluate every candidate) or
//! `any_account` (stop at the first account that produces a result), and may
//! be narrowed to an explicit key list with `with_filter`. Each operation it
//! offers is specified against a functional model of the pass over the
//! selected accounts, so that what a pass returns, which extrinsics reach
//! the inclusion queue, and how each account's nonce moves are all pinned
//! down by the contracts.

use vstd::prelude::*;

use crate::nonces::{nonce_at, NonceStore};
use crate::pool::{ExtrinsicModel, SubmitTransaction, TransactionPool, TxSignature};

verus! {

/// Marker enum used to flag using all supported keys to sign a payload.
pub enum ForAll {
    All,
}

/// Marker enum used to flag using any of the supported keys to sign a payload.
pub enum ForAny {
    Any,
}

/// Account information used for signing payloads: the position within the
/// current selection, the account identity derived from the public key, and
/// the public key itself.
#[derive(Clone, Copy, PartialEq, Eq, Debug)]
pub struct Account {
    pub index: usize,
    pub id: u64,
    pub public: u64,
}

impl Account {
    /// Pack an enumeration index, a derived account identity and a public
    /// key into an account.
    pub fn new(index: usize, id: u64, public: u64) -> (account: Account)
        ensures
            account == (Account { index, id, public }),
    {
        Account { index, id, public }
    }
}

/// The types and key-holder access used for signing transactions in one
/// deployment. An implementation binds the framework to a key holder: which
/// keys of the app-specific type are registered, what signing a message with
/// a key yields (deterministic in the key and the message bytes), how a
/// signature is checked, and how a public key derives an account identity.
pub trait SigningTypes: Sized {
    /// The public keys of the app-specific key type currently registered
    /// with the key holder, in the key holder's enumeration order.
    spec fn registered_keys(&self) -> Seq<u64>;

    /// What signing `message` with `public` yields: `None` when the key
    /// holder cannot produce a signature for that key.
    spec fn key_signature(&self, public: u64, message: Seq<u8>) -> Option<u64>;

    /// Whether `signature` is a valid signature of `message` under `public`.
    spec fn signature_valid(&self, message: Seq<u8>, public: u64, signature: u64) -> bool;

    /// The account identity derived from a public key.
    spec fn account_of(&self, public: u64) -> u64;

    /// Enumerate every registered key of the app-specific key type.
    fn supported_keys(&self) -> (keys: Vec<u64>)
        ensures
            keys@ == self.registered_keys(),
    ;

    /// Sign `message` with `public` through the key holder; `None` when the
    /// key holder cannot produce a signature for that key.
    fn sign(&self, message: &[u8], public: u64) -> (r: Option<u64>)
        ensures
            r == self.key_signature(public, message@),
    ;

    /// Check `signature` against `message` and `public`.
    fn verify(&self, message: &[u8], public: u64, signature: u64) -> (r: bool)
        ensures
            r == self.signature_valid(message@, public, signature),
    ;

    /// Derive the account identity of `public`.
    fn into_account(&self, public: u64) -> (r: u64)
        ensures
            r == self.account_of(public),
    ;

    /// A signature the key holder produced is valid for the signed message:
    /// signing and verification agree.
    proof fn lemma_sign_verify(&self, message: Seq<u8>, public: u64, signature: u64)
        requires
            self.key_signature(public, message) == Some(signature),
        ensures
            self.signature_valid(message, public, signature),
    ;
}

/// The transaction-construction hook of the signed submission path: given an
/// encoded call, the signing key, the account identity and its current
/// nonce, it either builds the final call and the signature material of the
/// extrinsic, or declines.
pub trait CreateSignedTransaction: Sized {
    /// What the hook builds from the given pieces; `None` when it declines.
    spec fn transaction_of(&self, call: Seq<u8>, public: u64, account: u64, nonce: u64) -> Option<
        (Seq<u8>, TxSignature),
    >;

    /// Attempt to build the final call and signature material; `None` when
    /// the hook declines, in which case the attempt for this account yields
    /// no result.
    fn create_transaction(&self, call: Vec<u8>, public: u64, account: u64, nonce: u64) -> (r:
        Option<(Vec<u8>, TxSignature)>)
        ensures
            (match (r, self.transaction_of(call@, public, account, nonce)) {
                (Some((built, sig)), Some((built_model, sig_model))) => built@ == built_model
                    && sig == sig_model,
                (None, None) => true,
                _ => false,
            }),
    ;
}

/// A payload that can be signed and submitted on-chain: it encodes
/// deterministically and names the public key that must sign it. Signing
/// and verification run over the encoding.
pub trait SignedPayload: Sized {
    /// The deterministic encoding the signature is computed over.
    spec fn encoding(&self) -> Seq<u8>;

    /// The public key that must sign the payload.
    spec fn signer(&self) -> u64;

    /// Encode the payload.
    fn encode(&self) -> (r: Vec<u8>)
        ensures
            r@ == self.encoding(),
    ;

    /// The public key that must sign the payload.
    fn public(&self) -> (r: u64)
        ensures
            r == self.signer(),
    ;

    /// Sign the payload's encoding under its declared public key through
    /// the key holder; `None` when the key holder cannot sign with that key.
    fn sign<T: SigningTypes>(&self, env: &T) -> (r: Option<u64>)
        ensures
            r == env.key_signature(self.signer(), self.encoding()),
    {
        let message = self.encode();
        env.sign(message.as_slice(), self.public())
    }

    /// Recompute the encoding and check `signature` against it.
    fn verify<T: SigningTypes>(&self, env: &T, signature: u64) -> (r: bool)
        ensures
            r == env.signature_valid(self.encoding(), self.signer(), signature),
    {
        let message = self.encode();
        env.verify(message.as_slice(), self.public(), signature)
    }
}

/// Maps a selected account to the local call submitted on its behalf
/// (signed path).
pub trait CallBuilder: Sized {
    /// The encoded call built for `account`.
    spec fn call_of(&self, account: Account) -> Seq<u8>;

    /// Build the call for `account`.
    fn build_call(&self, account: &Account) -> (r: Vec<u8>)
        ensures
            r@ == self.call_of(*account),
    ;
}

/// Maps a selected account to the payload signed on its behalf.
pub trait PayloadBuilder: Sized {
    /// The payload type built per account.
    type Payload: SignedPayload;

    /// The payload built for `account`.
    spec fn payload_of(&self, account: Account) -> Self::Payload;

    /// Build the payload for `account`.
    fn build_payload(&self, account: &Account) -> (r: Self::Payload)
        ensures
            r == self.payload_of(*account),
    ;
}

/// Combines a signed payload and its signature into the call submitted as
/// an unsigned transaction.
pub trait UnsignedCallBuilder: PayloadBuilder {
    /// The encoded call built from a payload and its signature.
    spec fn call_of(&self, payload: Self::Payload, signature: u64) -> Seq<u8>;

    /// Build the call from a payload and its signature.
    fn build_call(&self, payload: Self::Payload, signature: u64) -> (r: Vec<u8>)
        ensures
            r@ == self.call_of(payload, signature),
    ;
}

/// A per-account operation evaluated by a selector pass: it either produces
/// a result for the account or yields nothing, in which case the account is
/// silently skipped.
pub trait AccountOperation<T: SigningTypes>: Sized {
    /// What the operation produces per account.
    type Output;

    /// The result the operation yields for `account`, if any.
    spec fn output_of(&self, env: T, account: Account) -> Option<Self::Output>;

    /// Evaluate the operation for `account`.
    fn apply(&self, env: &T, account: &Account) -> (r: Option<Self::Output>)
        ensures
            r == self.output_of(*env, *account),
    ;
}

/// The account built for the key at a given position of the selection.
pub open spec fn account_at<T: SigningTypes>(env: T, index: int, key: u64) -> Account {
    Account { index: index as usize, id: env.account_of(key), public: key }
}

/// The keys a signer pass enumerates: the explicit filter when one was
/// supplied, otherwise every key registered with the key holder.
pub open spec fn selected_keys<T: SigningTypes>(env: T, filter: Option<Seq<u64>>) -> Seq<u64> {
    match filter {
        Some(keys) => keys,
        None => env.registered_keys(),
    }
}

/// Result of a pass that applies `op` to every key of `keys` (the key at
/// position `i` getting enumeration index `index + i`), keeping, in
/// enumeration order, the accounts for which the operation produced a
/// result.
pub open spec fn for_all_model<T: SigningTypes, Op: AccountOperation<T>>(
    env: T,
    op: Op,
    keys: Seq<u64>,
    index: int,
) -> Seq<(Account, Op::Output)>
    decreases keys.len(),
{
    if keys.len() == 0 {
        Seq::empty()
    } else {
        let account = account_at(env, index, keys[0]);
        let rest = for_all_model(env, op, keys.drop_first(), index + 1);
        match op.output_of(env, account) {
            Some(res) => seq![(account, res)] + rest,
            None => rest,
        }
    }
}

/// Result of a pass that applies `op` to the keys of `keys` in order and
/// stops at the first account for which the operation produced a result;
/// `None` when no account did.
pub open spec fn for_any_model<T: SigningTypes, Op: AccountOperation<T>>(
    env: T,
    op: Op,
    keys: Seq<u64>,
    index: int,
) -> Option<(Account, Op::Output)>
    decreases keys.len(),
{
    if keys.len() == 0 {
        None
    } else {
        let account = account_at(env, index, keys[0]);
        match op.output_of(env, account) {
            Some(res) => Some((account, res)),
            None => for_any_model(env, op, keys.drop_first(), index + 1),
        }
    }
}

/// Signs a fixed message on behalf of each selected account.
pub struct SignMessageOp<'a> {
    pub message: &'a [u8],
}

impl<'a, T: SigningTypes> AccountOperation<T> for SignMessageOp<'a> {
    type Output = u64;

    open spec fn output_of(&self, env: T, account: Account) -> Option<u64> {
        env.key_signature(account.public, self.message@)
    }

    fn apply(&self, env: &T, account: &Account) -> (r: Option<u64>) {
        env.sign(self.message, account.public)
    }
}

/// Builds a payload per selected account and signs its encoding.
pub struct SignPayloadOp<B: PayloadBuilder> {
    pub builder: B,
}

impl<T: SigningTypes, B: PayloadBuilder> AccountOperation<T> for SignPayloadOp<B> {
    type Output = u64;

    open spec fn output_of(&self, env: T, account: Account) -> Option<u64> {
        env.key_signature(
            self.builder.payload_of(account).signer(),
            self.builder.payload_of(account).encoding(),
        )
    }

    fn apply(&self, env: &T, account: &Account) -> (r: Option<u64>) {
        let payload = self.builder.build_payload(account);
        payload.sign(env)
    }
}

/// Provides an implementation for signing transaction payloads.
///
/// Keys used for signing are defined when instantiating the signer object:
/// all supported keys in the key holder, any of the supported keys, or an
/// explicit list of keys supplied with `with_filter`. The signer can then
/// sign messages and payloads, submit signed transactions, and submit
/// unsigned transactions carrying a signed payload.
pub struct Signer<X = ForAny> {
    accounts: Option<Vec<u64>>,
    _phantom: core::marker::PhantomData<X>,
}

impl<X> Signer<X> {
    /// The explicit key filter, if one was supplied.
    pub closed spec fn filter_spec(&self) -> Option<Seq<u64>> {
        match self.accounts {
            Some(keys) => Some(keys@),
            None => None,
        }
    }

    /// A signer that evaluates the operation for every selected account.
    pub fn all_accounts() -> (signer: Signer<ForAll>)
        ensures
            signer.filter_spec() is None,
    {
        Signer { accounts: None, _phantom: core::marker::PhantomData }
    }

    /// A signer that stops at the first account for which the operation
    /// produced a result.
    pub fn any_account() -> (signer: Signer<ForAny>)
        ensures
            signer.filter_spec() is None,
    {
        Signer { accounts: None, _phantom: core::marker::PhantomData }
    }

    /// Narrow the signer to an explicit list of public keys, enumerated in
    /// the given order.
    pub fn with_filter(self, accounts: Vec<u64>) -> (signer: Self)
        ensures
            signer.filter_spec() == Some(accounts@),
    {
        Signer { accounts: Some(accounts), _phantom: core::marker::PhantomData }
    }

}

impl<X> Default for Signer<X> {
    /// A signer over every registered key, without an explicit filter.
    fn default() -> (signer: Self)
        ensures
            signer.filter_spec() is None,
    {
        Signer { accounts: None, _phantom: core::marker::PhantomData }
    }
}

/// Copy of a key list, so a borrowed filter can be enumerated.
fn copy_keys(keys: &Vec<u64>) -> (r: Vec<u64>)
    ensures
        r@ == keys@,
{
    let mut out: Vec<u64> = Vec::new();
    let mut i: usize = 0;
    while i < keys.len()
        invariant
            i <= keys@.len(),
            out@ == keys@.take(i as int),
        decreases keys@.len() - i,
    {
        out.push(keys[i]);
        proof {
            assert(out@ =~= keys@.take(i + 1));
        }
        i = i + 1;
    }
    proof {
        assert(keys@.take(keys@.len() as int) =~= keys@);
    }
    out
}

impl Signer<ForAll> {
    /// Apply `op` to every selected account, in enumeration order,
    /// collecting the `(account, result)` pairs of the accounts for which
    /// the operation produced a result. An account for which it produced
    /// nothing is silently skipped, never an error.
    pub fn for_all<T: SigningTypes, Op: AccountOperation<T>>(&self, env: &T, op: &Op) -> (r: Vec<
        (Account, Op::Output),
    >)
        ensures
            r@ == for_all_model(*env, *op, selected_keys(*env, self.filter_spec()), 0),
    {
        let keys: Vec<u64> = match &self.accounts {
            Some(list) => copy_keys(list),
            None => env.supported_keys(),
        };
        let ghost all = keys@;
        let mut out: Vec<(Account, Op::Output)> = Vec::new();
        let mut i: usize = 0;
        proof {
            assert(all.skip(0) =~= all);
            assert(out@ + for_all_model(*env, *op, all, 0) =~= for_all_model(*env, *op, all, 0));
        }
        while i < keys.len()
            invariant
                i <= all.len(),
                keys@ == all,
                all == selected_keys(*env, self.filter_spec()),
                for_all_model(*env, *op, all, 0) == out@ + for_all_model(
                    *env,
                    *op,
                    all.skip(i as int),
                    i as int,
                ),
            decreases all.len() - i,
        {
            let key = keys[i];
            let account = Account::new(i, env.into_account(key), key);
            let ghost tail = all.skip(i as int);
            proof {
                assert(tail[0] == all[i as int]);
                assert(tail.drop_first() =~= all.skip(i + 1));
                assert(account == account_at(*env, i as int, key));
            }
            let ghost out_before = out@;
            match op.apply(env, &account) {
                Some(res) => {
                    out.push((account, res));
                    proof {
                        let rest = for_all_model(*env, *op, all.skip(i + 1), i + 1);
                        assert(out@ =~= out_before + seq![(account, res)]);
                        assert(out_before + (seq![(account, res)] + rest) =~= (out_before + seq![
                            (account, res),
                        ]) + rest);
                    }
                },
                None => {},
            }
            i = i + 1;
        }
        proof {
            assert(all.skip(all.len() as int) =~= Seq::<u64>::empty());
            assert(out@ + Seq::<(Account, Op::Output)>::empty() =~= out@);
        }
        out
    }
}

impl Signer<ForAny> {
    /// Apply `op` to the selected accounts in enumeration order and return
    /// the first `(account, result)` pair for which the operation produced
    /// a result, short-circuiting the remaining accounts; `None` when no
    /// account produced one.
    pub fn for_any<T: SigningTypes, Op: AccountOperation<T>>(&self, env: &T, op: &Op) -> (r:
        Option<(Account, Op::Output)>)
        ensures
            r == for_any_model(*env, *op, selected_keys(*env, self.filter_spec()), 0),
    {
        let keys: Vec<u64> = match &self.accounts {
            Some(list) => copy_keys(list),
            None => env.supported_keys(),
        };
        let ghost all = keys@;
        let mut i: usize = 0;
        proof {
            assert(all.skip(0) =~= all);
        }
        while i < keys.len()
            invariant
                i <= all.len(),
                keys@ == all,
                all == selected_keys(*env, self.filter_spec()),
                for_any_model(*env, *op, all, 0) == for_any_model(
                    *env,
                    *op,
                    all.skip(i as int),
                    i as int,
                ),
            decreases all.len() - i,
        {
            let key = keys[i];
            let account = Account::new(i, env.into_account(key), key);
            let ghost tail = all.skip(i as int);
            proof {
                assert(tail[0] == all[i as int]);
                assert(tail.drop_first() =~= all.skip(i + 1));
                assert(account == account_at(*env, i as int, key));
            }
            match op.apply(env, &account) {
                Some(res) => {
                    return Some((account, res));
                },
                None => {},
            }
            i = i + 1;
        }
        proof {
            assert(all.skip(all.len() as int) =~= Seq::<u64>::empty());
        }
        None
    }
}

/// One consultation of the transaction-construction hook during a signed
/// pass: the account it was for, the nonce handed to it, and whether the
/// built extrinsic was accepted by the queue.
pub struct NonceUse {
    pub account: u64,
    pub nonce: u64,
    pub accepted: bool,
}

/// State reached by one signed submission attempt: the per-account result
/// (`None` when the hook declined), the nonce store, the queue contents,
/// and the nonce uses recorded for the attempt.
pub struct SignedStepOutcome {
    pub result: Option<Result<(), ()>>,
    pub nonces: Map<u64, u64>,
    pub pool: Seq<ExtrinsicModel>,
    pub used: Seq<NonceUse>,
}

/// One signed submission attempt for `account`: read its nonce, consult the
/// hook, and on construction hand the extrinsic to the queue, advancing the
/// nonce by exactly one on a successful hand-off and leaving it untouched on
/// a failed one.
pub open spec fn submit_signed_step<C: CreateSignedTransaction>(
    hook: C,
    account: Account,
    call: Seq<u8>,
    nonces: Map<u64, u64>,
    pool: Seq<ExtrinsicModel>,
    capacity: nat,
) -> SignedStepOutcome {
    let nonce = nonce_at(nonces, account.id);
    match hook.transaction_of(call, account.public, account.id, nonce) {
        None => SignedStepOutcome { result: None, nonces, pool, used: Seq::empty() },
        Some((built, sig)) => if pool.len() < capacity {
            SignedStepOutcome {
                result: Some(Ok(())),
                nonces: nonces.insert(account.id, (nonce + 1) as u64),
                pool: pool.push(ExtrinsicModel { call: built, signature: Some(sig) }),
                used: seq![NonceUse { account: account.id, nonce, accepted: true }],
            }
        } else {
            SignedStepOutcome {
                result: Some(Err(())),
                nonces,
                pool,
                used: seq![NonceUse { account: account.id, nonce, accepted: false }],
            }
        },
    }
}

/// State reached by a signed pass over a key selection.
pub struct SignedSendOutcome {
    pub results: Seq<(Account, Result<(), ()>)>,
    pub nonces: Map<u64, u64>,
    pub pool: Seq<ExtrinsicModel>,
    pub used: Seq<NonceUse>,
}

/// A signed pass that attempts a submission for every selected account in
/// enumeration order, collecting a result per account for which the hook
/// constructed a transaction.
pub open spec fn send_signed_all_model<
    T: SigningTypes,
    C: CreateSignedTransaction,
    B: CallBuilder,
>(
    env: T,
    hook: C,
    builder: B,
    keys: Seq<u64>,
    index: int,
    nonces: Map<u64, u64>,
    pool: Seq<ExtrinsicModel>,
    capacity: nat,
) -> SignedSendOutcome
    decreases keys.len(),
{
    if keys.len() == 0 {
        SignedSendOutcome { results: Seq::empty(), nonces, pool, used: Seq::empty() }
    } else {
        let account = account_at(env, index, keys[0]);
        let step = submit_signed_step(
            hook,
            account,
            builder.call_of(account),
            nonces,
            pool,
            capacity,
        );
        let rest = send_signed_all_model(
            env,
            hook,
            builder,
            keys.drop_first(),
            index + 1,
            step.nonces,
            step.pool,
            capacity,
        );
        SignedSendOutcome {
            results: (match step.result {
                Some(res) => seq![(account, res)] + rest.results,
                None => rest.results,
            }),
            nonces: rest.nonces,
            pool: rest.pool,
            used: step.used + rest.used,
        }
    }
}

/// State reached by a signed pass that stops at the first account for which
/// the hook constructed a transaction.
pub struct SignedAnyOutcome {
    pub result: Option<(Account, Result<(), ()>)>,
    pub nonces: Map<u64, u64>,
    pub pool: Seq<ExtrinsicModel>,
}

/// A signed pass that attempts submissions in enumeration order and stops at
/// the first account for which the hook constructed a transaction, whether
/// or not the hand-off then succeeded; `None` when the hook declined every
/// selected account.
pub open spec fn send_signed_any_model<
    T: SigningTypes,
    C: CreateSignedTransaction,
    B: CallBuilder,
>(
    env: T,
    hook: C,
    builder: B,
    keys: Seq<u64>,
    index: int,
    nonces: Map<u64, u64>,
    pool: Seq<ExtrinsicModel>,
    capacity: nat,
) -> SignedAnyOutcome
    decreases keys.len(),
{
    if keys.len() == 0 {
        SignedAnyOutcome { result: None, nonces, pool }
    } else {
        let account = account_at(env, index, keys[0]);
        let step = submit_signed_step(
            hook,
            account,
            builder.call_of(account),
            nonces,
            pool,
            capacity,
        );
        match step.result {
            Some(res) => SignedAnyOutcome {
                result: Some((account, res)),
                nonces: step.nonces,
                pool: step.pool,
            },
            None => send_signed_any_model(
                env,
                hook,
                builder,
                keys.drop_first(),
                index + 1,
                step.nonces,
                step.pool,
                capacity,
            ),
        }
    }
}

/// One unsigned hand-off: the call enters the queue exactly while the queue
/// has room; no account nonce is consulted or moved.
pub open spec fn submit_unsigned_step(
    call: Seq<u8>,
    pool: Seq<ExtrinsicModel>,
    capacity: nat,
) -> (Result<(), ()>, Seq<ExtrinsicModel>) {
    if pool.len() < capacity {
        (Ok(()), pool.push(ExtrinsicModel { call, signature: None }))
    } else {
        (Err(()), pool)
    }
}

/// State reached by an unsigned pass over a key selection.
pub struct UnsignedSendOutcome {
    pub results: Seq<(Account, Result<(), ()>)>,
    pub pool: Seq<ExtrinsicModel>,
}

/// An unsigned pass: for every selected account, build its payload and sign
/// it (an account the key holder cannot sign for is silently skipped), build
/// the call from payload and signature, and hand it to the queue unsigned.
pub open spec fn send_unsigned_all_model<T: SigningTypes, B: UnsignedCallBuilder>(
    env: T,
    builder: B,
    keys: Seq<u64>,
    index: int,
    pool: Seq<ExtrinsicModel>,
    capacity: nat,
) -> UnsignedSendOutcome
    decreases keys.len(),
{
    if keys.len() == 0 {
        UnsignedSendOutcome { results: Seq::empty(), pool }
    } else {
        let account = account_at(env, index, keys[0]);
        let payload = builder.payload_of(account);
        match env.key_signature(payload.signer(), payload.encoding()) {
            None => send_unsigned_all_model(
                env,
                builder,
                keys.drop_first(),
                index + 1,
                pool,
                capacity,
            ),
            Some(signature) => {
                let step = submit_unsigned_step(
                    builder.call_of(payload, signature),
                    pool,
                    capacity,
                );
                let rest = send_unsigned_all_model(
                    env,
                    builder,
                    keys.drop_first(),
                    index + 1,
                    step.1,
                    capacity,
                );
                UnsignedSendOutcome {
                    results: seq![(account, step.0)] + rest.results,
                    pool: rest.pool,
                }
            },
        }
    }
}

/// State reached by an unsigned pass that stops at the first account whose
/// payload could be signed.
pub struct UnsignedAnyOutcome {
    pub result: Option<(Account, Result<(), ()>)>,
    pub pool: Seq<ExtrinsicModel>,
}

/// An unsigned pass that stops at the first account whose payload the key
/// holder could sign, whether or not the hand-off then succeeded; `None`
/// when no selected account's payload could be signed.
pub open spec fn send_unsigned_any_model<T: SigningTypes, B: UnsignedCallBuilder>(
    env: T,
    builder: B,
    keys: Seq<u64>,
    index: int,
    pool: Seq<ExtrinsicModel>,
    capacity: nat,
) -> UnsignedAnyOutcome
    decreases keys.len(),
{
    if keys.len() == 0 {
        UnsignedAnyOutcome { result: None, pool }
    } else {
        let account = account_at(env, index, keys[0]);
        let payload = builder.payload_of(account);
        match env.key_signature(payload.signer(), payload.encoding()) {
            None => send_unsigned_any_model(
                env,
                builder,
                keys.drop_first(),
                index + 1,
                pool,
                capacity,
            ),
            Some(signature) => {
                let step = submit_unsigned_step(
                    builder.call_of(payload, signature),
                    pool,
                    capacity,
                );
                UnsignedAnyOutcome { result: Some((account, step.0)), pool: step.1 }
            },
        }
    }
}

impl<X> Signer<X> {
    /// One signed submission attempt for `account`: read its current nonce,
    /// ask the hook to construct the transaction (a declining hook yields no
    /// result and no hand-off), hand the built extrinsic to the queue, and
    /// advance the account's nonce by exactly one only when the hand-off
    /// succeeded.
    pub fn submit_signed_transaction<C: CreateSignedTransaction>(
        &self,
        hook: &C,
        nonces: &mut NonceStore,
        pool: &mut TransactionPool,
        account: &Account,
        call: Vec<u8>,
    ) -> (r: Option<Result<(), ()>>)
        requires
            nonce_at(old(nonces)@, account.id) < u64::MAX,
        ensures
            ({
                let step = submit_signed_step(
                    *hook,
                    *account,
                    call@,
                    old(nonces)@,
                    old(pool)@,
                    old(pool).capacity_spec(),
                );
                &&& r == step.result
                &&& final(nonces)@ == step.nonces
                &&& final(pool)@ == step.pool
                &&& final(pool).capacity_spec() == old(pool).capacity_spec()
            }),
    {
        let nonce = nonces.get_nonce(account.id);
        match hook.create_transaction(call, account.public, account.id, nonce) {
            None => None,
            Some((built, signature)) => {
                let res = SubmitTransaction::submit_transaction(pool, built, Some(signature));
                if res.is_ok() {
                    nonces.set_nonce(account.id, nonce + 1);
                }
                Some(res)
            },
        }
    }

    /// Hand `call` to the queue as an unsigned transaction; no account nonce
    /// is consulted or moved.
    pub fn submit_unsigned_transaction(&self, pool: &mut TransactionPool, call: Vec<u8>) -> (r:
        Option<Result<(), ()>>)
        ensures
            ({
                let step = submit_unsigned_step(call@, old(pool)@, old(pool).capacity_spec());
                &&& r == Some(step.0)
                &&& final(pool)@ == step.1
                &&& final(pool).capacity_spec() == old(pool).capacity_spec()
            }),
    {
        Some(SubmitTransaction::submit_unsigned_transaction(pool, call))
    }
}

impl Signer<ForAll> {
    /// Sign `message` on behalf of every selected account, collecting an
    /// `(account, signature)` pair for each key the key holder could sign
    /// with; an account it could not sign for is silently skipped.
    pub fn sign_message<T: SigningTypes>(&self, env: &T, message: &[u8]) -> (r: Vec<
        (Account, u64),
    >)
        ensures
            r@ == for_all_model(
                *env,
                (SignMessageOp { message }),
                selected_keys(*env, self.filter_spec()),
                0,
            ),
    {
        self.for_all(env, &(SignMessageOp { message }))
    }

    /// Build a payload for every selected account and sign its encoding,
    /// collecting an `(account, signature)` pair for each account whose
    /// payload the key holder could sign.
    pub fn sign<T: SigningTypes, B: PayloadBuilder>(&self, env: &T, builder: B) -> (r: Vec<
        (Account, u64),
    >)
        ensures
            r@ == for_all_model(
                *env,
                (SignPayloadOp { builder }),
                selected_keys(*env, self.filter_spec()),
                0,
            ),
    {
        self.for_all(env, &(SignPayloadOp { builder }))
    }

    /// Attempt a signed submission for every selected account: build its
    /// call, read its nonce, let the hook construct the transaction, and
    /// hand it to the queue, advancing the nonce by exactly one on each
    /// successful hand-off. An account the hook declines yields no entry; a
    /// failed hand-off yields an `Err` entry and leaves the nonce untouched.
    #[verifier::loop_isolation(false)]
    #[verifier::rlimit(60)]
    pub fn send_signed_transaction<T: SigningTypes, C: CreateSignedTransaction, B: CallBuilder>(
        &self,
        env: &T,
        hook: &C,
        nonces: &mut NonceStore,
        pool: &mut TransactionPool,
        builder: &B,
    ) -> (r: Vec<(Account, Result<(), ()>)>)
        requires
            (forall|k: u64|
                #[trigger] selected_keys(*env, self.filter_spec()).contains(k) ==> nonce_at(
                    old(nonces)@,
                    env.account_of(k),
                ) + selected_keys(*env, self.filter_spec()).len() <= u64::MAX),
        ensures
            ({
                let o = send_signed_all_model(
                    *env,
                    *hook,
                    *builder,
                    selected_keys(*env, self.filter_spec()),
                    0,
                    old(nonces)@,
                    old(pool)@,
                    old(pool).capacity_spec(),
                );
                &&& r@ == o.results
                &&& final(nonces)@ == o.nonces
                &&& final(pool)@ == o.pool
                &&& final(pool).capacity_spec() == old(pool).capacity_spec()
            }),
    {
        let keys: Vec<u64> = match &self.accounts {
            Some(list) => copy_keys(list),
            None => env.supported_keys(),
        };
        let ghost all = keys@;
        let ghost n0 = nonces@;
        let ghost p0 = pool@;
        let ghost cap = pool.capacity_spec();
        let mut out: Vec<(Account, Result<(), ()>)> = Vec::new();
        let mut i: usize = 0;
        proof {
            assert(all.skip(0) =~= all);
            assert(out@ + send_signed_all_model(*env, *hook, *builder, all, 0, n0, p0, cap).results
                =~= send_signed_all_model(*env, *hook, *builder, all, 0, n0, p0, cap).results);
            assert(all == selected_keys(*env, self.filter_spec()));
            assert forall|k: u64| #[trigger] all.contains(k) implies nonce_at(
                n0,
                env.account_of(k),
            ) + all.len() <= u64::MAX by {
                assert(selected_keys(*env, self.filter_spec()).contains(k));
            }
        }
        while i < keys.len()
            invariant
                i <= all.len(),
                keys@ == all,
                all == selected_keys(*env, self.filter_spec()),
                pool.capacity_spec() == cap,
                (forall|k: u64|
                    #[trigger] all.contains(k) ==> nonce_at(n0, env.account_of(k)) + all.len()
                        <= u64::MAX),
                (forall|a: u64| nonce_at(nonces@, a) <= nonce_at(n0, a) + i),
                ({
                    let m = send_signed_all_model(
                        *env,
                        *hook,
                        *builder,
                        all.skip(i as int),
                        i as int,
                        nonces@,
                        pool@,
                        cap,
                    );
                    let full = send_signed_all_model(*env, *hook, *builder, all, 0, n0, p0, cap);
                    &&& full.results == out@ + m.results
                    &&& full.nonces == m.nonces
                    &&& full.pool == m.pool
                }),
            decreases all.len() - i,
        {
            let ghost nonces_pre = nonces@;
            let ghost pool_pre = pool@;
            let key = keys[i];
            let account = Account::new(i, env.into_account(key), key);
            let ghost tail = all.skip(i as int);
            proof {
                assert(tail[0] == all[i as int]);
                assert(tail.drop_first() =~= all.skip(i + 1));
                assert(account == account_at(*env, i as int, key));
                assert(all.contains(key)) by {
                    assert(all[i as int] == key);
                }
            }
            let call = builder.build_call(&account);
            let ghost out_before = out@;
            let res = self.submit_signed_transaction(hook, nonces, pool, &account, call);
            proof {
                let step = submit_signed_step(
                    *hook,
                    account,
                    builder.call_of(account),
                    nonces_pre,
                    pool_pre,
                    cap,
                );
                let rest = send_signed_all_model(
                    *env,
                    *hook,
                    *builder,
                    all.skip(i + 1),
                    i + 1,
                    step.nonces,
                    step.pool,
                    cap,
                );
                match step.result {
                    Some(sres) => {
                        assert(out_before + (seq![(account, sres)] + rest.results) =~= (out_before
                            + seq![(account, sres)]) + rest.results);
                    },
                    None => {},
                }
            }
            match res {
                Some(result) => {
                    out.push((account, result));
                    proof {
                        assert(out@ =~= out_before + seq![(account, result)]);
                    }
                },
                None => {},
            }
            i = i + 1;
        }
        proof {
            assert(all.skip(all.len() as int) =~= Seq::<u64>::empty());
            assert(out@ + Seq::<(Account, Result<(), ()>)>::empty() =~= out@);
        }
        out
    }

    /// Attempt an unsigned submission for every selected account: build and
    /// sign its payload (an account the key holder cannot sign for is
    /// silently skipped), combine payload and signature into a call, and
    /// hand it to the queue unsigned. No account nonce is consulted or
    /// moved.
    #[verifier::loop_isolation(false)]
    pub fn send_unsigned_transaction<T: SigningTypes, B: UnsignedCallBuilder>(
        &self,
        env: &T,
        pool: &mut TransactionPool,
        builder: &B,
    ) -> (r: Vec<(Account, Result<(), ()>)>)
        ensures
            ({
                let o = send_unsigned_all_model(
                    *env,
                    *builder,
                    selected_keys(*env, self.filter_spec()),
                    0,
                    old(pool)@,
                    old(pool).capacity_spec(),
                );
                &&& r@ == o.results
                &&& final(pool)@ == o.pool
                &&& final(pool).capacity_spec() == old(pool).capacity_spec()
            }),
    {
        let keys: Vec<u64> = match &self.accounts {
            Some(list) => copy_keys(list),
            None => env.supported_keys(),
        };
        let ghost all = keys@;
        let ghost p0 = pool@;
        let ghost cap = pool.capacity_spec();
        let mut out: Vec<(Account, Result<(), ()>)> = Vec::new();
        let mut i: usize = 0;
        proof {
            assert(all.skip(0) =~= all);
            assert(out@ + send_unsigned_all_model(*env, *builder, all, 0, p0, cap).results
                =~= send_unsigned_all_model(*env, *builder, all, 0, p0, cap).results);
        }
        while i < keys.len()
            invariant
                i <= all.len(),
                keys@ == all,
                all == selected_keys(*env, self.filter_spec()),
                pool.capacity_spec() == cap,
                ({
                    let m = send_unsigned_all_model(
                        *env,
                        *builder,
                        all.skip(i as int),
                        i as int,
                        pool@,
                        cap,
                    );
                    let full = send_unsigned_all_model(*env, *builder, all, 0, p0, cap);
                    &&& full.results == out@ + m.results
                    &&& full.pool == m.pool
                }),
            decreases all.len() - i,
        {
            let ghost pool_pre = pool@;
            let key = keys[i];
            let account = Account::new(i, env.into_account(key), key);
            let ghost tail = all.skip(i as int);
            proof {
                assert(tail[0] == all[i as int]);
                assert(tail.drop_first() =~= all.skip(i + 1));
                assert(account == account_at(*env, i as int, key));
            }
            let payload = builder.build_payload(&account);
            let ghost out_before = out@;
            match payload.sign(env) {
                None => {},
                Some(signature) => {
                    let call = builder.build_call(payload, signature);
                    let res = self.submit_unsigned_transaction(pool, call);
                    proof {
                        let step = submit_unsigned_step(
                            builder.call_of(builder.payload_of(account), signature),
                            pool_pre,
                            cap,
                        );
                        let rest = send_unsigned_all_model(
                            *env,
                            *builder,
                            all.skip(i + 1),
                            i + 1,
                            step.1,
                            cap,
                        );
                        assert(out_before + (seq![(account, step.0)] + rest.results) =~= (out_before
                            + seq![(account, step.0)]) + rest.results);
                    }
                    match res {
                        Some(result) => {
                            out.push((account, result));
                            proof {
                                assert(out@ =~= out_before + seq![(account, result)]);
                            }
                        },
                        None => {},
                    }
                },
            }
            i = i + 1;
        }
        proof {
            assert(all.skip(all.len() as int) =~= Seq::<u64>::empty());
            assert(out@ + Seq::<(Account, Result<(), ()>)>::empty() =~= out@);
        }
        out
    }
}

impl Signer<ForAny> {
    /// Sign `message` with the first selected account the key holder can
    /// sign for, short-circuiting the remaining accounts; `None` when it can
    /// sign for no selected account.
    pub fn sign_message<T: SigningTypes>(&self, env: &T, message: &[u8]) -> (r: Option<
        (Account, u64),
    >)
        ensures
            r == for_any_model(
                *env,
                (SignMessageOp { message }),
                selected_keys(*env, self.filter_spec()),
                0,
            ),
    {
        self.for_any(env, &(SignMessageOp { message }))
    }

    /// Build and sign a payload for the first selected account the key
    /// holder can sign for, short-circuiting the remaining accounts.
    pub fn sign<T: SigningTypes, B: PayloadBuilder>(&self, env: &T, builder: B) -> (r: Option<
        (Account, u64),
    >)
        ensures
            r == for_any_model(
                *env,
                (SignPayloadOp { builder }),
                selected_keys(*env, self.filter_spec()),
                0,
            ),
    {
        self.for_any(env, &(SignPayloadOp { builder }))
    }

    /// Attempt signed submissions in enumeration order and stop at the first
    /// account for which the hook constructed a transaction, returning that
    /// account's hand-off outcome; `None` when the hook declined every
    /// selected account. Only the returned account's nonce can move, and
    /// only on a successful hand-off.
    #[verifier::loop_isolation(false)]
    pub fn send_signed_transaction<T: SigningTypes, C: CreateSignedTransaction, B: CallBuilder>(
        &self,
        env: &T,
        hook: &C,
        nonces: &mut NonceStore,
        pool: &mut TransactionPool,
        builder: &B,
    ) -> (r: Option<(Account, Result<(), ()>)>)
        requires
            (forall|k: u64|
                #[trigger] selected_keys(*env, self.filter_spec()).contains(k) ==> nonce_at(
                    old(nonces)@,
                    env.account_of(k),
                ) < u64::MAX),
        ensures
            ({
                let o = send_signed_any_model(
                    *env,
                    *hook,
                    *builder,
                    selected_keys(*env, self.filter_spec()),
                    0,
                    old(nonces)@,
                    old(pool)@,
                    old(pool).capacity_spec(),
                );
                &&& r == o.result
                &&& final(nonces)@ == o.nonces
                &&& final(pool)@ == o.pool
                &&& final(pool).capacity_spec() == old(pool).capacity_spec()
            }),
    {
        let keys: Vec<u64> = match &self.accounts {
            Some(list) => copy_keys(list),
            None => env.supported_keys(),
        };
        let ghost all = keys@;
        let ghost n0 = nonces@;
        let ghost p0 = pool@;
        let ghost cap = pool.capacity_spec();
        let mut i: usize = 0;
        proof {
            assert(all.skip(0) =~= all);
        }
        while i < keys.len()
            invariant
                i <= all.len(),
                keys@ == all,
                all == selected_keys(*env, self.filter_spec()),
                pool.capacity_spec() == cap,
                nonces@ == n0,
                pool@ == p0,
                (forall|k: u64|
                    #[trigger] all.contains(k) ==> nonce_at(n0, env.account_of(k)) < u64::MAX),
                send_signed_any_model(*env, *hook, *builder, all, 0, n0, p0, cap)
                    == send_signed_any_model(
                    *env,
                    *hook,
                    *builder,
                    all.skip(i as int),
                    i as int,
                    nonces@,
                    pool@,
                    cap,
                ),
            decreases all.len() - i,
        {
            let ghost nonces_pre = nonces@;
            let ghost pool_pre = pool@;
            let key = keys[i];
            let account = Account::new(i, env.into_account(key), key);
            let ghost tail = all.skip(i as int);
            proof {
                assert(tail[0] == all[i as int]);
                assert(tail.drop_first() =~= all.skip(i + 1));
                assert(account == account_at(*env, i as int, key));
                assert(all.contains(key)) by {
                    assert(all[i as int] == key);
                }
            }
            let call = builder.build_call(&account);
            let res = self.submit_signed_transaction(hook, nonces, pool, &account, call);
            match res {
                Some(result) => {
                    return Some((account, result));
                },
                None => {},
            }
            i = i + 1;
        }
        proof {
            assert(all.skip(all.len() as int) =~= Seq::<u64>::empty());
        }
        None
    }

    /// Attempt unsigned submissions in enumeration order and stop at the
    /// first account whose payload the key holder could sign, returning that
    /// account's hand-off outcome; `None` when it could sign for no selected
    /// account. No account nonce is consulted or moved.
    #[verifier::loop_isolation(false)]
    pub fn send_unsigned_transaction<T: SigningTypes, B: UnsignedCallBuilder>(
        &self,
        env: &T,
        pool: &mut TransactionPool,
        builder: &B,
    ) -> (r: Option<(Account, Result<(), ()>)>)
        ensures
            ({
                let o = send_unsigned_any_model(
                    *env,
                    *builder,
                    selected_keys(*env, self.filter_spec()),
                    0,
                    old(pool)@,
                    old(pool).capacity_spec(),
                );
                &&& r == o.result
                &&& final(pool)@ == o.pool
                &&& final(pool).capacity_spec() == old(pool).capacity_spec()
            }),
    {
        let keys: Vec<u64> = match &self.accounts {
            Some(list) => copy_keys(list),
            None => env.supported_keys(),
        };
        let ghost all = keys@;
        let ghost p0 = pool@;
        let ghost cap = pool.capacity_spec();
        let mut i: usize = 0;
        proof {
            assert(all.skip(0) =~= all);
        }
        while i < keys.len()
            invariant
                i <= all.len(),
                keys@ == all,
                all == selected_keys(*env, self.filter_spec()),
                pool.capacity_spec() == cap,
                pool@ == p0,
                send_unsigned_any_model(*env, *builder, all, 0, p0, cap)
                    == send_unsigned_any_model(
                    *env,
                    *builder,
                    all.skip(i as int),
                    i as int,
                    pool@,
                    cap,
                ),
            decreases all.len() - i,
        {
            let ghost pool_pre = pool@;
            let key = keys[i];
            let account = Account::new(i, env.into_account(key), key);
            let ghost tail = all.skip(i as int);
            proof {
                assert(tail[0] == all[i as int]);
                assert(tail.drop_first() =~= all.skip(i + 1));
                assert(account == account_at(*env, i as int, key));
            }
            let payload = builder.build_payload(&account);
            match payload.sign(env) {
                None => {},
                Some(signature) => {
                    let call = builder.build_call(payload, signature);
                    let res = self.submit_unsigned_transaction(pool, call);
                    match res {
                        Some(result) => {
                            return Some((account, result));
                        },
                        None => {},
                    }
                },
            }
            i = i + 1;
        }
        proof {
            assert(all.skip(all.len() as int) =~= Seq::<u64>::empty());
        }
        None
    }
}

} // verus!
