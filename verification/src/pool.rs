//! The inclusion queue that finished transactions are handed to.
//!
//! The queue is modeled as a bounded in-memory pool: a hand-off succeeds
//! exactly while the pool has room, and a rejected transaction leaves the
//! pool untouched. The framework treats any non-ok hand-off as a submission
//! failure for that account and does not retry.

use vstd::prelude::*;

verus! {

/// The signature material attached to a signed extrinsic: the signing
/// account, the signature produced for it, and the nonce it was built with.
#[derive(Clone, Copy, PartialEq, Eq, Debug)]
pub struct TxSignature {
    pub signer: u64,
    pub signature: u64,
    pub nonce: u64,
}

/// A transaction value submitted for inclusion: an encoded call, signed or
/// not.
pub struct Extrinsic {
    pub call: Vec<u8>,
    pub signature: Option<TxSignature>,
}

/// Abstraction of an extrinsic: the encoded call bytes and the optional
/// signature material.
pub struct ExtrinsicModel {
    pub call: Seq<u8>,
    pub signature: Option<TxSignature>,
}

impl View for Extrinsic {
    type V = ExtrinsicModel;

    open spec fn view(&self) -> ExtrinsicModel {
        ExtrinsicModel { call: self.call@, signature: self.signature }
    }
}

impl Extrinsic {
    /// Pack an encoded call and optional signature material into an
    /// extrinsic.
    pub fn new(call: Vec<u8>, signature: Option<TxSignature>) -> (xt: Extrinsic)
        ensures
            xt@ == (ExtrinsicModel { call: call@, signature }),
    {
        Extrinsic { call, signature }
    }
}

/// Bounded in-memory inclusion queue. It abstracts to the sequence of
/// accepted extrinsics, in hand-off order; a hand-off succeeds exactly while
/// fewer than `capacity` extrinsics were accepted.
pub struct TransactionPool {
    submitted: Vec<Extrinsic>,
    capacity: usize,
}

impl View for TransactionPool {
    type V = Seq<ExtrinsicModel>;

    closed spec fn view(&self) -> Seq<ExtrinsicModel> {
        self.submitted@.map_values(|xt: Extrinsic| xt@)
    }
}

impl TransactionPool {
    /// How many extrinsics the queue accepts in total.
    pub closed spec fn capacity_spec(&self) -> nat {
        self.capacity as nat
    }

    /// An empty queue that will accept `capacity` extrinsics.
    pub fn new(capacity: usize) -> (pool: TransactionPool)
        ensures
            pool@ == Seq::<ExtrinsicModel>::empty(),
            pool.capacity_spec() == capacity,
    {
        let pool = TransactionPool { submitted: Vec::new(), capacity };
        proof {
            assert(pool@ =~= Seq::<ExtrinsicModel>::empty());
        }
        pool
    }

    /// Hand an extrinsic to the queue. It is accepted exactly while the
    /// queue has room; a rejected extrinsic leaves the queue unchanged.
    pub fn submit(&mut self, xt: Extrinsic) -> (r: Result<(), ()>)
        ensures
            r == (if old(self)@.len() < old(self).capacity_spec() {
                Ok::<(), ()>(())
            } else {
                Err::<(), ()>(())
            }),
            r is Ok ==> final(self)@ == old(self)@.push(xt@),
            r is Err ==> final(self)@ == old(self)@,
            final(self).capacity_spec() == old(self).capacity_spec(),
    {
        if self.submitted.len() < self.capacity {
            let ghost prior = self@;
            let ghost model = xt@;
            self.submitted.push(xt);
            proof {
                assert(self@ =~= prior.push(model));
            }
            Ok(())
        } else {
            Err(())
        }
    }

    /// Number of extrinsics accepted so far.
    pub fn len(&self) -> (n: usize)
        ensures
            n == self@.len(),
    {
        self.submitted.len()
    }

    /// The `i`-th accepted extrinsic, in hand-off order.
    pub fn get(&self, i: usize) -> (xt: &Extrinsic)
        requires
            i < self@.len(),
        ensures
            xt@ == self@[i as int],
    {
        &self.submitted[i]
    }

    /// The configured capacity.
    pub fn capacity(&self) -> (n: usize)
        ensures
            n == self.capacity_spec(),
    {
        self.capacity
    }
}

/// Static hand-off helpers that package a call and hand it to the inclusion
/// queue, for both the signed and the unsigned path.
pub struct SubmitTransaction {}

impl SubmitTransaction {
    /// Build an extrinsic from `call` and optional signature material and
    /// hand it to the queue.
    pub fn submit_transaction(
        pool: &mut TransactionPool,
        call: Vec<u8>,
        signature: Option<TxSignature>,
    ) -> (r: Result<(), ()>)
        ensures
            r == (if old(pool)@.len() < old(pool).capacity_spec() {
                Ok::<(), ()>(())
            } else {
                Err::<(), ()>(())
            }),
            r is Ok ==> final(pool)@ == old(pool)@.push(ExtrinsicModel { call: call@, signature }),
            r is Err ==> final(pool)@ == old(pool)@,
            final(pool).capacity_spec() == old(pool).capacity_spec(),
    {
        let xt = Extrinsic::new(call, signature);
        pool.submit(xt)
    }

    /// Hand `call` to the queue as an unsigned transaction: no account nonce
    /// is consulted and no signature material is attached.
    pub fn submit_unsigned_transaction(pool: &mut TransactionPool, call: Vec<u8>) -> (r: Result<
        (),
        (),
    >)
        ensures
            r == (if old(pool)@.len() < old(pool).capacity_spec() {
                Ok::<(), ()>(())
            } else {
                Err::<(), ()>(())
            }),
            r is Ok ==> final(pool)@ == old(pool)@.push(ExtrinsicModel { call: call@, signature: None }),
            r is Err ==> final(pool)@ == old(pool)@,
            final(pool).capacity_spec() == old(pool).capacity_spec(),
    {
        Self::submit_transaction(pool, call, None)
    }
}

} // verus!
