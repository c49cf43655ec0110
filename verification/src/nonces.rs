//! Per-account sequence-counter (nonce) store.
//!
//! The chain state that holds each account's next transaction nonce is
//! injected into the submission path as an explicit store, so that a worker
//! pass reads a nonce, submits, and advances the counter by exactly one on a
//! successful hand-off. An account that was never written holds nonce zero.

use vstd::prelude::*;

verus! {

/// The nonce an account holds in a store snapshot; zero for an account that
/// was never written.
pub open spec fn nonce_at(nonces: Map<u64, u64>, account: u64) -> u64 {
    if nonces.contains_key(account) {
        nonces[account]
    } else {
        0
    }
}

/// Map described by a write log, later writes overriding earlier ones.
spec fn entries_map(s: Seq<(u64, u64)>) -> Map<u64, u64>
    decreases s.len(),
{
    if s.len() == 0 {
        Map::empty()
    } else {
        entries_map(s.drop_last()).insert(s.last().0, s.last().1)
    }
}

/// In-memory nonce store, kept as a write log where the last write to an
/// account wins. It abstracts to the map of each account's current nonce.
pub struct NonceStore {
    entries: Vec<(u64, u64)>,
}

impl View for NonceStore {
    type V = Map<u64, u64>;

    closed spec fn view(&self) -> Map<u64, u64> {
        entries_map(self.entries@)
    }
}

impl NonceStore {
    /// A store in which every account holds nonce zero.
    pub fn new() -> (store: NonceStore)
        ensures
            store@ == Map::<u64, u64>::empty(),
    {
        NonceStore { entries: Vec::new() }
    }

    /// Current nonce of `account`; zero if it was never written.
    pub fn get_nonce(&self, account: u64) -> (nonce: u64)
        ensures
            nonce == nonce_at(self@, account),
    {
        let mut j: usize = self.entries.len();
        proof {
            assert(self.entries@.take(j as int) =~= self.entries@);
        }
        while j > 0
            invariant
                j <= self.entries@.len(),
                nonce_at(self@, account) == nonce_at(
                    entries_map(self.entries@.take(j as int)),
                    account,
                ),
            decreases j,
        {
            j = j - 1;
            let (key, value) = self.entries[j];
            proof {
                assert(self.entries@.take(j + 1).drop_last() =~= self.entries@.take(j as int));
                assert(self.entries@.take(j + 1).last() == self.entries@[j as int]);
            }
            if key == account {
                return value;
            }
        }
        0
    }

    /// Record `nonce` as the current nonce of `account`.
    pub fn set_nonce(&mut self, account: u64, nonce: u64)
        ensures
            final(self)@ == old(self)@.insert(account, nonce),
    {
        self.entries.push((account, nonce));
        proof {
            assert(self.entries@.drop_last() =~= old(self).entries@);
            assert(self.entries@.last() == (account, nonce));
        }
    }
}

} // verus!
