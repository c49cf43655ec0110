//! Concrete bindings of the submission framework: a transaction-construction
//! hook that accepts every request and one that always declines, a call
//! builder handing out a fixed encoded call, and a payload carrying a value
//! to be signed and submitted.

use vstd::prelude::*;

use crate::offchain::{
    Account, CallBuilder, CreateSignedTransaction, PayloadBuilder, SignedPayload,
    UnsignedCallBuilder,
};
use crate::pool::TxSignature;
use crate::scale::{scale_encode_u64, scale_encode_u64_pair, u64_le};
use crate::signers::{compute_signature, scheme_signature};

verus! {

/// Hook that constructs every requested transaction: the call passes
/// through unchanged, and the signature material carries the account, the
/// scheme signature of the call under the signing key, and the nonce the
/// transaction was built with.
pub struct PlainCreator {}

impl CreateSignedTransaction for PlainCreator {
    open spec fn transaction_of(&self, call: Seq<u8>, public: u64, account: u64, nonce: u64) -> Option<
        (Seq<u8>, TxSignature),
    > {
        Some(
            (call, TxSignature { signer: account, signature: scheme_signature(public, call), nonce }),
        )
    }

    fn create_transaction(&self, call: Vec<u8>, public: u64, account: u64, nonce: u64) -> (r:
        Option<(Vec<u8>, TxSignature)>) {
        let signature = compute_signature(public, call.as_slice());
        Some((call, TxSignature { signer: account, signature, nonce }))
    }
}

/// Hook that declines every construction, for deployments whose policy
/// rejects the call: a signed pass over it yields no result for any account
/// and attempts no hand-off.
pub struct DecliningCreator {}

impl CreateSignedTransaction for DecliningCreator {
    open spec fn transaction_of(&self, call: Seq<u8>, public: u64, account: u64, nonce: u64) -> Option<
        (Seq<u8>, TxSignature),
    > {
        None
    }

    fn create_transaction(&self, call: Vec<u8>, public: u64, account: u64, nonce: u64) -> (r:
        Option<(Vec<u8>, TxSignature)>) {
        None
    }
}

/// Copy of a byte vector.
pub(crate) fn copy_bytes(bytes: &Vec<u8>) -> (r: Vec<u8>)
    ensures
        r@ == bytes@,
{
    let mut out: Vec<u8> = Vec::new();
    let mut i: usize = 0;
    while i < bytes.len()
        invariant
            i <= bytes@.len(),
            out@ == bytes@.take(i as int),
        decreases bytes@.len() - i,
    {
        out.push(bytes[i]);
        proof {
            assert(out@ =~= bytes@.take(i + 1));
        }
        i = i + 1;
    }
    proof {
        assert(bytes@.take(bytes@.len() as int) =~= bytes@);
    }
    out
}

/// Append the bytes of `src` to `dst`.
fn append_bytes(dst: &mut Vec<u8>, src: &Vec<u8>)
    ensures
        final(dst)@ == old(dst)@ + src@,
{
    let ghost base = dst@;
    let mut i: usize = 0;
    proof {
        assert(base + src@.take(0) =~= base);
    }
    while i < src.len()
        invariant
            i <= src@.len(),
            dst@ == base + src@.take(i as int),
        decreases src@.len() - i,
    {
        dst.push(src[i]);
        proof {
            assert(src@.take(i as int).push(src@[i as int]) =~= src@.take(i + 1));
            assert(dst@ =~= base + src@.take(i + 1));
        }
        i = i + 1;
    }
    proof {
        assert(src@.take(src@.len() as int) =~= src@);
    }
}

/// Builder that submits the same encoded call on behalf of every selected
/// account.
pub struct FixedCallBuilder {
    pub call: Vec<u8>,
}

impl CallBuilder for FixedCallBuilder {
    open spec fn call_of(&self, account: Account) -> Seq<u8> {
        self.call@
    }

    fn build_call(&self, account: &Account) -> (r: Vec<u8>) {
        copy_bytes(&self.call)
    }
}

/// A payload carrying one value, signed by a declared key. It encodes as
/// the SCALE encoding of the pair of its value and its signing key, so the
/// same logical payload always encodes to the same bytes.
#[derive(Clone, Copy, PartialEq, Eq, Debug)]
pub struct ValuePayload {
    pub value: u64,
    pub public: u64,
}

impl SignedPayload for ValuePayload {
    open spec fn encoding(&self) -> Seq<u8> {
        u64_le(self.value) + u64_le(self.public)
    }

    open spec fn signer(&self) -> u64 {
        self.public
    }

    fn encode(&self) -> (r: Vec<u8>) {
        scale_encode_u64_pair(self.value, self.public)
    }

    fn public(&self) -> (r: u64) {
        self.public
    }
}

/// Builder of the unsigned path: for each account it builds a `ValuePayload`
/// carrying a fixed value under that account's key, and combines payload and
/// signature into the call submitted unsigned — the payload's encoding
/// followed by the signature's little-endian bytes.
pub struct ValuePayloadBuilder {
    pub value: u64,
}

impl PayloadBuilder for ValuePayloadBuilder {
    type Payload = ValuePayload;

    open spec fn payload_of(&self, account: Account) -> ValuePayload {
        ValuePayload { value: self.value, public: account.public }
    }

    fn build_payload(&self, account: &Account) -> (r: ValuePayload) {
        ValuePayload { value: self.value, public: account.public }
    }
}

impl UnsignedCallBuilder for ValuePayloadBuilder {
    open spec fn call_of(&self, payload: ValuePayload, signature: u64) -> Seq<u8> {
        payload.encoding() + u64_le(signature)
    }

    fn build_call(&self, payload: ValuePayload, signature: u64) -> (r: Vec<u8>) {
        let mut out = payload.encode();
        let sig_bytes = scale_encode_u64(signature);
        append_bytes(&mut out, &sig_bytes);
        out
    }
}

} // verus!
