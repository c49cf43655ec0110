//! Key-holder backends: an in-memory local store that signs with a
//! checksum-based scheme, and the configuration of a remote signing service
//! reached over the network.
//!
//! The local store binds the framework to concrete key material held in
//! memory: it enumerates its registered keys, signs deterministically from
//! the key and the message bytes, and verifies by recomputing. The scheme is
//! strong enough to be law-abiding — signing and verification agree, and a
//! one-byte change to a signed message is always rejected — while staying a
//! plain function of its inputs.

use vstd::prelude::*;

use vstd::arithmetic::div_mod::{
    lemma_add_mod_noop, lemma_fundamental_div_mod, lemma_small_mod,
};

use crate::offchain::SigningTypes;

verus! {

/// Sum of the bytes of a message.
pub open spec fn byte_sum(message: Seq<u8>) -> int
    decreases message.len(),
{
    if message.len() == 0 {
        0
    } else {
        byte_sum(message.drop_last()) + message.last()
    }
}

/// The signature the local scheme produces for `message` under `public`:
/// the byte sum offset by the key, reduced to 64 bits.
pub open spec fn scheme_signature(public: u64, message: Seq<u8>) -> u64 {
    ((public + byte_sum(message)) % 0x1_0000_0000_0000_0000) as u64
}

/// A byte sum lies between zero and 255 per byte.
pub proof fn lemma_byte_sum_bounds(message: Seq<u8>)
    ensures
        0 <= byte_sum(message) <= 255 * message.len(),
    decreases message.len(),
{
    if message.len() > 0 {
        lemma_byte_sum_bounds(message.drop_last());
    }
}

/// Compute the scheme signature of `message` under `public`.
pub(crate) fn compute_signature(public: u64, message: &[u8]) -> (r: u64)
    ensures
        r == scheme_signature(public, message@),
{
    let mut acc: u64 = public;
    let mut i: usize = 0;
    proof {
        assert(message@.take(0) =~= Seq::<u8>::empty());
        lemma_small_mod(public as nat, 0x1_0000_0000_0000_0000nat);
    }
    while i < message.len()
        invariant
            i <= message@.len(),
            acc == ((public + byte_sum(message@.take(i as int))) % 0x1_0000_0000_0000_0000) as u64,
        decreases message@.len() - i,
    {
        let b = message[i];
        let wide: u128 = (acc as u128) + (b as u128);
        let reduced: u128 = wide % 0x1_0000_0000_0000_0000u128;
        proof {
            let w = 0x1_0000_0000_0000_0000int;
            let sum = public + byte_sum(message@.take(i as int));
            lemma_byte_sum_bounds(message@.take(i as int));
            lemma_small_mod(b as nat, 0x1_0000_0000_0000_0000nat);
            lemma_add_mod_noop(sum, b as int, w);
            assert(message@.take(i + 1).drop_last() =~= message@.take(i as int));
            assert(message@.take(i + 1).last() == message@[i as int]);
            assert(byte_sum(message@.take(i + 1)) == byte_sum(message@.take(i as int)) + b);
            assert(reduced == (sum % w + b) % w);
            assert((sum % w + (b as int) % w) % w == (sum + b) % w);
        }
        acc = reduced as u64;
        i = i + 1;
    }
    proof {
        assert(message@.take(message@.len() as int) =~= message@);
    }
    acc
}

/// Two same-length messages that differ at exactly one position have byte
/// sums that differ by exactly that position's difference.
proof fn lemma_byte_sum_one_change(m1: Seq<u8>, m2: Seq<u8>, k: int)
    requires
        m1.len() == m2.len(),
        0 <= k < m1.len(),
        forall|j: int| 0 <= j < m1.len() && j != k ==> m1[j] == m2[j],
    ensures
        byte_sum(m1) - byte_sum(m2) == m1[k] - m2[k],
    decreases m1.len(),
{
    if k == m1.len() - 1 {
        assert(m1.drop_last() =~= m2.drop_last());
    } else {
        lemma_byte_sum_one_change(m1.drop_last(), m2.drop_last(), k);
        assert(m1.last() == m2.last());
        assert(m1.drop_last()[k] == m1[k] && m2.drop_last()[k] == m2[k]);
    }
}

/// Tampering is detected: a signature of one message is never a valid
/// signature of a message of the same length that differs from it in
/// exactly one byte.
pub proof fn lemma_one_byte_change_rejected(
    public: u64,
    m1: Seq<u8>,
    m2: Seq<u8>,
    k: int,
    signature: u64,
)
    requires
        m1.len() == m2.len(),
        0 <= k < m1.len(),
        m1[k] != m2[k],
        forall|j: int| 0 <= j < m1.len() && j != k ==> m1[j] == m2[j],
        signature == scheme_signature(public, m1),
    ensures
        signature != scheme_signature(public, m2),
{
    lemma_byte_sum_one_change(m1, m2, k);
    lemma_byte_sum_bounds(m1);
    lemma_byte_sum_bounds(m2);
    let w = 0x1_0000_0000_0000_0000int;
    let x1 = public + byte_sum(m1);
    let x2 = public + byte_sum(m2);
    assert(x1 != x2);
    assert(-255 <= x1 - x2 <= 255);
    if scheme_signature(public, m1) == scheme_signature(public, m2) {
        assert(x1 % w == x2 % w);
        lemma_fundamental_div_mod(x1, w);
        lemma_fundamental_div_mod(x2, w);
        let q1 = x1 / w;
        let q2 = x2 / w;
        assert(x1 - x2 == (q1 - q2) * w) by {
            assert(x1 == w * q1 + x1 % w);
            assert(x2 == w * q2 + x2 % w);
            assert(w * q1 - w * q2 == (q1 - q2) * w) by (nonlinear_arith);
        }
        if q1 == q2 {
            assert(x1 == x2);
        } else if q1 > q2 {
            assert((q1 - q2) * w >= w) by (nonlinear_arith)
                requires q1 - q2 >= 1 && w > 0,
            ;
        } else {
            assert((q1 - q2) * w <= -w) by (nonlinear_arith)
                requires q1 - q2 <= -1 && w > 0,
            ;
        }
        assert(false);
    }
}

/// Key holder backed by key material held in memory. Its registered keys
/// are enumerated in insertion order, and signing is a deterministic
/// function of the key and the message bytes; account identities coincide
/// with public keys.
pub struct LocalSigner {
    pub keys: Vec<u64>,
}

impl LocalSigner {
    /// A local key holder over the given key material.
    pub fn new(keys: Vec<u64>) -> (signer: LocalSigner)
        ensures
            signer.keys@ == keys@,
    {
        LocalSigner { keys }
    }

    /// Whether `public` is registered with this store.
    fn holds_key(&self, public: u64) -> (r: bool)
        ensures
            r == self.keys@.contains(public),
    {
        let mut i: usize = 0;
        while i < self.keys.len()
            invariant
                i <= self.keys@.len(),
                forall|j: int| 0 <= j < i ==> self.keys@[j] != public,
            decreases self.keys@.len() - i,
        {
            if self.keys[i] == public {
                return true;
            }
            i = i + 1;
        }
        false
    }
}

impl SigningTypes for LocalSigner {
    open spec fn registered_keys(&self) -> Seq<u64> {
        self.keys@
    }

    open spec fn key_signature(&self, public: u64, message: Seq<u8>) -> Option<u64> {
        if self.keys@.contains(public) {
            Some(scheme_signature(public, message))
        } else {
            None
        }
    }

    open spec fn signature_valid(&self, message: Seq<u8>, public: u64, signature: u64) -> bool {
        signature == scheme_signature(public, message)
    }

    open spec fn account_of(&self, public: u64) -> u64 {
        public
    }

    fn supported_keys(&self) -> (keys: Vec<u64>) {
        let mut out: Vec<u64> = Vec::new();
        let mut i: usize = 0;
        while i < self.keys.len()
            invariant
                i <= self.keys@.len(),
                out@ == self.keys@.take(i as int),
            decreases self.keys@.len() - i,
        {
            out.push(self.keys[i]);
            proof {
                assert(out@ =~= self.keys@.take(i + 1));
            }
            i = i + 1;
        }
        proof {
            assert(self.keys@.take(self.keys@.len() as int) =~= self.keys@);
        }
        out
    }

    fn sign(&self, message: &[u8], public: u64) -> (r: Option<u64>) {
        if self.holds_key(public) {
            Some(compute_signature(public, message))
        } else {
            None
        }
    }

    fn verify(&self, message: &[u8], public: u64, signature: u64) -> (r: bool) {
        let expected = compute_signature(public, message);
        expected == signature
    }

    fn into_account(&self, public: u64) -> (r: u64) {
        public
    }

    proof fn lemma_sign_verify(&self, message: Seq<u8>, public: u64, signature: u64) {
    }
}

/// Configuration of a key holder reached over the network: the signing
/// calls block until the remote service answers, and a connection failure
/// surfaces as the key being unavailable.
pub struct RemoteSigner {
    host: String,
    port: u32,
}

impl RemoteSigner {
    /// The configured host name.
    pub closed spec fn host_spec(&self) -> Seq<char> {
        self.host@
    }

    /// The configured port.
    pub closed spec fn port_spec(&self) -> u32 {
        self.port
    }

    /// Configuration of a remote signing service at `host`:`port`.
    pub fn new(host: String, port: u32) -> (signer: RemoteSigner)
        ensures
            signer.host_spec() == host@,
            signer.port_spec() == port,
    {
        RemoteSigner { host, port }
    }

    /// The configured host name.
    pub fn host(&self) -> (host: &String)
        ensures
            host@ == self.host_spec(),
    {
        &self.host
    }

    /// The configured port.
    pub fn port(&self) -> (port: u32)
        ensures
            port == self.port_spec(),
    {
        self.port
    }
}

impl Default for RemoteSigner {
    /// A remote-signer configuration with an empty host and port zero.
    fn default() -> (signer: RemoteSigner)
        ensures
            signer.host_spec() == Seq::<char>::empty(),
            signer.port_spec() == 0,
    {
        RemoteSigner { host: String::new(), port: 0 }
    }
}

} // verus!
