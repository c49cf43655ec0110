//! Laws of the selector and submission passes, proved once over their
//! functional models: nonce monotonicity of the signed path, completeness of
//! an all-accounts pass, the first-success behaviour of an any-account pass,
//! filter restriction, and the inertness of a pass whose hook always
//! declines.

use vstd::prelude::*;

use crate::nonces::nonce_at;
use crate::offchain::{
    account_at, for_all_model, for_any_model, send_signed_all_model, send_signed_any_model,
    send_unsigned_all_model, Account, AccountOperation, CallBuilder, CreateSignedTransaction,
    NonceUse, PayloadBuilder, SignMessageOp, SignedPayload, SigningTypes, UnsignedCallBuilder,
};
use crate::pool::ExtrinsicModel;

verus! {

/// Number of nonce uses for `account` in a signed-pass audit trail whose
/// hand-off was accepted.
pub open spec fn accepted_uses(used: Seq<NonceUse>, account: u64) -> int
    decreases used.len(),
{
    if used.len() == 0 {
        0
    } else {
        (if used[0].account == account && used[0].accepted {
            1int
        } else {
            0int
        }) + accepted_uses(used.drop_first(), account)
    }
}

/// Accepted uses are at least none and at most all entries.
proof fn lemma_accepted_uses_bounds(used: Seq<NonceUse>, account: u64)
    ensures
        0 <= accepted_uses(used, account) <= used.len(),
    decreases used.len(),
{
    if used.len() > 0 {
        lemma_accepted_uses_bounds(used.drop_first(), account);
    }
}

/// Nonce monotonicity of the signed path. In a signed pass, every
/// consultation of the construction hook for `account` is handed the nonce
/// the account started with plus the number of its earlier accepted
/// hand-offs, and the stored nonce ends at the start value plus the number
/// of accepted hand-offs: the nonces used by successive successful
/// submissions for one account are consecutive, with no repeats and no
/// gaps, and a failed hand-off does not consume a nonce value.
pub proof fn lemma_nonce_monotonicity<T: SigningTypes, C: CreateSignedTransaction, B: CallBuilder>(
    env: T,
    hook: C,
    builder: B,
    keys: Seq<u64>,
    index: int,
    nonces: Map<u64, u64>,
    pool: Seq<ExtrinsicModel>,
    capacity: nat,
    account: u64,
)
    requires
        nonce_at(nonces, account) + keys.len() <= u64::MAX,
    ensures
        ({
            let o = send_signed_all_model(env, hook, builder, keys, index, nonces, pool, capacity);
            &&& nonce_at(o.nonces, account) == nonce_at(nonces, account) + accepted_uses(
                o.used,
                account,
            )
            &&& forall|j: int|
                0 <= j < o.used.len() && o.used[j].account == account ==> o.used[j].nonce
                    == nonce_at(nonces, account) + accepted_uses(o.used.take(j), account)
        }),
    decreases keys.len(),
{
    let o = send_signed_all_model(env, hook, builder, keys, index, nonces, pool, capacity);
    if keys.len() == 0 {
        assert(o.used.len() == 0);
    } else {
        let first = account_at(env, index, keys[0]);
        let step = crate::offchain::submit_signed_step(
            hook,
            first,
            builder.call_of(first),
            nonces,
            pool,
            capacity,
        );
        let rest = send_signed_all_model(
            env,
            hook,
            builder,
            keys.drop_first(),
            index + 1,
            step.nonces,
            step.pool,
            capacity,
        );
        lemma_accepted_uses_bounds(rest.used, account);
        match hook.transaction_of(builder.call_of(first), first.public, first.id, nonce_at(nonces, first.id)) {
            None => {
                lemma_nonce_monotonicity(
                    env,
                    hook,
                    builder,
                    keys.drop_first(),
                    index + 1,
                    nonces,
                    pool,
                    capacity,
                    account,
                );
                assert(o.used =~= rest.used);
                assert forall|j: int|
                    0 <= j < o.used.len() && o.used[j].account == account implies o.used[j].nonce
                    == nonce_at(nonces, account) + accepted_uses(o.used.take(j), account) by {
                    assert(o.used.take(j) =~= rest.used.take(j));
                }
            },
            Some(_) => {
                let use0 = step.used[0];
                lemma_nonce_monotonicity(
                    env,
                    hook,
                    builder,
                    keys.drop_first(),
                    index + 1,
                    step.nonces,
                    step.pool,
                    capacity,
                    account,
                );
                assert(o.used =~= seq![use0] + rest.used);
                assert(o.used.drop_first() =~= rest.used);
                let delta: int = if use0.account == account && use0.accepted {
                    1
                } else {
                    0
                };
                assert(nonce_at(step.nonces, account) == nonce_at(nonces, account) + delta);
                assert(accepted_uses(o.used, account) == delta + accepted_uses(
                    rest.used,
                    account,
                ));
                assert forall|j: int|
                    0 <= j < o.used.len() && o.used[j].account == account implies o.used[j].nonce
                    == nonce_at(nonces, account) + accepted_uses(o.used.take(j), account) by {
                    if j == 0 {
                        assert(o.used.take(0) =~= Seq::<NonceUse>::empty());
                    } else {
                        assert(o.used[j] == rest.used[j - 1]);
                        assert(o.used.take(j) =~= seq![use0] + rest.used.take(j - 1));
                        assert(o.used.take(j).drop_first() =~= rest.used.take(j - 1));
                        assert(accepted_uses(o.used.take(j), account) == delta + accepted_uses(
                            rest.used.take(j - 1),
                            account,
                        ));
                    }
                }
            },
        }
    }
}

/// Completeness of an all-accounts pass: when the operation produces a
/// result for every enumerated account, the pass returns exactly one entry
/// per key, in order, carrying that account and that result.
pub proof fn lemma_for_all_completeness<T: SigningTypes, Op: AccountOperation<T>>(
    env: T,
    op: Op,
    keys: Seq<u64>,
    index: int,
)
    requires
        forall|i: int|
            0 <= i < keys.len() ==> op.output_of(
                env,
                account_at(env, index + i, #[trigger] keys[i]),
            ) is Some,
    ensures
        for_all_model(env, op, keys, index).len() == keys.len(),
        forall|i: int|
            0 <= i < keys.len() ==> {
                let entry = #[trigger] for_all_model(env, op, keys, index)[i];
                entry.0 == account_at(env, index + i, keys[i]) && Some(entry.1) == op.output_of(
                    env,
                    entry.0,
                )
            },
    decreases keys.len(),
{
    if keys.len() > 0 {
        let tail = keys.drop_first();
        assert forall|i: int| 0 <= i < tail.len() implies op.output_of(
            env,
            account_at(env, (index + 1) + i, #[trigger] tail[i]),
        ) is Some by {
            assert(tail[i] == keys[i + 1]);
        }
        lemma_for_all_completeness(env, op, tail, index + 1);
        let r = for_all_model(env, op, keys, index);
        let rest = for_all_model(env, op, tail, index + 1);
        let first = account_at(env, index, keys[0]);
        let out = op.output_of(env, first);
        assert(r =~= seq![(first, out->0)] + rest);
        assert forall|i: int| 0 <= i < keys.len() implies {
            let entry = #[trigger] for_all_model(env, op, keys, index)[i];
            entry.0 == account_at(env, index + i, keys[i]) && Some(entry.1) == op.output_of(
                env,
                entry.0,
            )
        } by {
            if i > 0 {
                assert(r[i] == rest[i - 1]);
                assert(tail[i - 1] == keys[i]);
            }
        }
    }
}

/// Completeness of `sign_message` over all accounts: when the key holder
/// can sign the message with every enumerated key, the pass returns exactly
/// one `(account, signature)` pair per key, and each signature verifies
/// against the original message under that key.
pub proof fn lemma_sign_message_completeness<'a, T: SigningTypes>(
    env: T,
    message: &'a [u8],
    keys: Seq<u64>,
    index: int,
)
    requires
        forall|i: int|
            0 <= i < keys.len() ==> env.key_signature(#[trigger] keys[i], message@) is Some,
    ensures
        for_all_model(env, (SignMessageOp { message }), keys, index).len() == keys.len(),
        forall|i: int|
            0 <= i < keys.len() ==> {
                let entry = #[trigger] for_all_model(env, (SignMessageOp { message }), keys, index)[i];
                entry.0 == account_at(env, index + i, keys[i]) && env.signature_valid(
                    message@,
                    keys[i],
                    entry.1,
                )
            },
{
    let op = SignMessageOp { message };
    assert forall|i: int| 0 <= i < keys.len() implies op.output_of(
        env,
        account_at(env, index + i, #[trigger] keys[i]),
    ) is Some by {}
    lemma_for_all_completeness(env, op, keys, index);
    assert forall|i: int| 0 <= i < keys.len() implies {
        let entry = #[trigger] for_all_model(env, op, keys, index)[i];
        entry.0 == account_at(env, index + i, keys[i]) && env.signature_valid(
            message@,
            keys[i],
            entry.1,
        )
    } by {
        let entry = for_all_model(env, op, keys, index)[i];
        assert(Some(entry.1) == env.key_signature(keys[i], message@));
        env.lemma_sign_verify(message@, keys[i], entry.1);
    }
}

/// First-success behaviour of an any-account pass: the pass returns the
/// entry of the first enumerated account for which the operation produced a
/// result — every earlier account produced none, so no later account was
/// attempted — and returns nothing exactly when no account produced one.
pub proof fn lemma_for_any_first_success<T: SigningTypes, Op: AccountOperation<T>>(
    env: T,
    op: Op,
    keys: Seq<u64>,
    index: int,
)
    requires
        0 <= index,
        index + keys.len() <= usize::MAX,
    ensures
        ({
            let r = for_any_model(env, op, keys, index);
            match r {
                None => forall|i: int|
                    0 <= i < keys.len() ==> op.output_of(
                        env,
                        account_at(env, index + i, #[trigger] keys[i]),
                    ) is None,
                Some(entry) => {
                    let i = entry.0.index - index;
                    &&& 0 <= i < keys.len()
                    &&& entry.0 == account_at(env, index + i, keys[i])
                    &&& Some(entry.1) == op.output_of(env, entry.0)
                    &&& forall|j: int|
                        0 <= j < i ==> op.output_of(
                            env,
                            account_at(env, index + j, #[trigger] keys[j]),
                        ) is None
                },
            }
        }),
    decreases keys.len(),
{
    if keys.len() > 0 {
        let first = account_at(env, index, keys[0]);
        match op.output_of(env, first) {
            Some(res) => {
                assert(first.index == index as usize);
            },
            None => {
                lemma_for_any_first_success(env, op, keys.drop_first(), index + 1);
                let r = for_any_model(env, op, keys, index);
                match r {
                    None => {
                        assert forall|i: int| 0 <= i < keys.len() implies op.output_of(
                            env,
                            account_at(env, index + i, #[trigger] keys[i]),
                        ) is None by {
                            if i > 0 {
                                assert(keys[i] == keys.drop_first()[i - 1]);
                            }
                        }
                    },
                    Some(entry) => {
                        let i = entry.0.index - index;
                        assert(keys[i] == keys.drop_first()[i - 1]);
                        assert forall|j: int| 0 <= j < i implies op.output_of(
                            env,
                            account_at(env, index + j, #[trigger] keys[j]),
                        ) is None by {
                            if j > 0 {
                                assert(keys[j] == keys.drop_first()[j - 1]);
                            }
                        }
                    },
                }
            },
        }
    }
}

/// First-success behaviour of `sign_message` on the any-account policy: the
/// returned pair belongs to the first enumerated key the key holder can sign
/// with — every earlier key could not sign, so no later key was attempted —
/// its signature verifies against the message, and nothing is returned
/// exactly when no enumerated key can sign.
pub proof fn lemma_sign_message_first_success<'a, T: SigningTypes>(
    env: T,
    message: &'a [u8],
    keys: Seq<u64>,
    index: int,
)
    requires
        0 <= index,
        index + keys.len() <= usize::MAX,
    ensures
        ({
            let r = for_any_model(env, (SignMessageOp { message }), keys, index);
            match r {
                None => forall|i: int|
                    0 <= i < keys.len() ==> env.key_signature(
                        #[trigger] keys[i],
                        message@,
                    ) is None,
                Some(entry) => {
                    let i = entry.0.index - index;
                    &&& 0 <= i < keys.len()
                    &&& entry.0 == account_at(env, index + i, keys[i])
                    &&& Some(entry.1) == env.key_signature(keys[i], message@)
                    &&& env.signature_valid(message@, keys[i], entry.1)
                    &&& forall|j: int|
                        0 <= j < i ==> env.key_signature(#[trigger] keys[j], message@) is None
                },
            }
        }),
{
    let op = SignMessageOp { message };
    lemma_for_any_first_success(env, op, keys, index);
    let r = for_any_model(env, op, keys, index);
    match r {
        None => {},
        Some(entry) => {
            let i = entry.0.index - index;
            assert(Some(entry.1) == env.key_signature(keys[i], message@));
            env.lemma_sign_verify(message@, keys[i], entry.1);
        },
    }
}

/// A key sequence contains whatever its tail contains.
proof fn lemma_contains_from_tail(keys: Seq<u64>, public: u64)
    requires
        keys.len() > 0,
        keys.drop_first().contains(public),
    ensures
        keys.contains(public),
{
    let i = choose|i: int|
        0 <= i < keys.drop_first().len() && keys.drop_first()[i] == public;
    assert(keys[i + 1] == public);
}

/// Filter restriction of an all-accounts pass: every returned entry is for
/// one of the enumerated keys, so a pass narrowed by an explicit filter
/// never produces a result for a key outside it, registered or not.
pub proof fn lemma_filter_restriction<T: SigningTypes, Op: AccountOperation<T>>(
    env: T,
    op: Op,
    keys: Seq<u64>,
    index: int,
)
    ensures
        forall|j: int|
            0 <= j < for_all_model(env, op, keys, index).len() ==> keys.contains(
                (#[trigger] for_all_model(env, op, keys, index)[j]).0.public,
            ),
    decreases keys.len(),
{
    if keys.len() > 0 {
        let first = account_at(env, index, keys[0]);
        let rest = for_all_model(env, op, keys.drop_first(), index + 1);
        lemma_filter_restriction(env, op, keys.drop_first(), index + 1);
        assert forall|j: int|
            0 <= j < for_all_model(env, op, keys, index).len() implies keys.contains(
            (#[trigger] for_all_model(env, op, keys, index)[j]).0.public,
        ) by {
            let r = for_all_model(env, op, keys, index);
            match op.output_of(env, first) {
                Some(res) => {
                    if j == 0 {
                        assert(keys[0] == first.public);
                    } else {
                        assert(r[j] == rest[j - 1]);
                        lemma_contains_from_tail(keys, rest[j - 1].0.public);
                    }
                },
                None => {
                    lemma_contains_from_tail(keys, rest[j].0.public);
                },
            }
        }
    }
}

/// Filter restriction of an any-account pass: a returned entry is for one
/// of the enumerated keys.
pub proof fn lemma_filter_restriction_any<T: SigningTypes, Op: AccountOperation<T>>(
    env: T,
    op: Op,
    keys: Seq<u64>,
    index: int,
)
    ensures
        ({
            let r = for_any_model(env, op, keys, index);
            r matches Some(entry) ==> keys.contains(entry.0.public)
        }),
    decreases keys.len(),
{
    if keys.len() > 0 {
        let first = account_at(env, index, keys[0]);
        match op.output_of(env, first) {
            Some(res) => {
                assert(keys[0] == first.public);
            },
            None => {
                lemma_filter_restriction_any(env, op, keys.drop_first(), index + 1);
                let r = for_any_model(env, op, keys, index);
                match r {
                    Some(entry) => {
                        lemma_contains_from_tail(keys, entry.0.public);
                    },
                    None => {},
                }
            },
        }
    }
}

/// Filter restriction of a signed pass: every result entry is for one of
/// the enumerated keys.
pub proof fn lemma_filter_restriction_signed<
    T: SigningTypes,
    C: CreateSignedTransaction,
    B: CallBuilder,
>(
    env: T,
    hook: C,
    builder: B,
    keys: Seq<u64>,
    index: int,
    nonces: Map<u64, u64>,
    pool: Seq<ExtrinsicModel>,
    capacity: nat,
)
    ensures
        ({
            let o = send_signed_all_model(env, hook, builder, keys, index, nonces, pool, capacity);
            forall|j: int|
                0 <= j < o.results.len() ==> keys.contains(
                    (#[trigger] o.results[j]).0.public,
                )
        }),
    decreases keys.len(),
{
    if keys.len() > 0 {
        let o = send_signed_all_model(env, hook, builder, keys, index, nonces, pool, capacity);
        let first = account_at(env, index, keys[0]);
        let step = crate::offchain::submit_signed_step(
            hook,
            first,
            builder.call_of(first),
            nonces,
            pool,
            capacity,
        );
        let rest = send_signed_all_model(
            env,
            hook,
            builder,
            keys.drop_first(),
            index + 1,
            step.nonces,
            step.pool,
            capacity,
        );
        lemma_filter_restriction_signed(
            env,
            hook,
            builder,
            keys.drop_first(),
            index + 1,
            step.nonces,
            step.pool,
            capacity,
        );
        assert forall|j: int| 0 <= j < o.results.len() implies keys.contains(
            (#[trigger] o.results[j]).0.public,
        ) by {
            match step.result {
                Some(res) => {
                    if j == 0 {
                        assert(keys[0] == first.public);
                    } else {
                        assert(o.results[j] == rest.results[j - 1]);
                        lemma_contains_from_tail(keys, rest.results[j - 1].0.public);
                    }
                },
                None => {
                    lemma_contains_from_tail(keys, rest.results[j].0.public);
                },
            }
        }
    }
}

/// Filter restriction of an unsigned pass: every result entry is for one of
/// the enumerated keys.
pub proof fn lemma_filter_restriction_unsigned<T: SigningTypes, B: UnsignedCallBuilder>(
    env: T,
    builder: B,
    keys: Seq<u64>,
    index: int,
    pool: Seq<ExtrinsicModel>,
    capacity: nat,
)
    ensures
        ({
            let o = send_unsigned_all_model(env, builder, keys, index, pool, capacity);
            forall|j: int|
                0 <= j < o.results.len() ==> keys.contains(
                    (#[trigger] o.results[j]).0.public,
                )
        }),
    decreases keys.len(),
{
    if keys.len() > 0 {
        let o = send_unsigned_all_model(env, builder, keys, index, pool, capacity);
        let first = account_at(env, index, keys[0]);
        let payload = builder.payload_of(first);
        match env.key_signature(payload.signer(), payload.encoding()) {
            None => {
                lemma_filter_restriction_unsigned(
                    env,
                    builder,
                    keys.drop_first(),
                    index + 1,
                    pool,
                    capacity,
                );
                assert forall|j: int| 0 <= j < o.results.len() implies keys.contains(
                    (#[trigger] o.results[j]).0.public,
                ) by {
                    let rest = send_unsigned_all_model(
                        env,
                        builder,
                        keys.drop_first(),
                        index + 1,
                        pool,
                        capacity,
                    );
                    lemma_contains_from_tail(keys, rest.results[j].0.public);
                }
            },
            Some(signature) => {
                let step = crate::offchain::submit_unsigned_step(
                    builder.call_of(payload, signature),
                    pool,
                    capacity,
                );
                let rest = send_unsigned_all_model(
                    env,
                    builder,
                    keys.drop_first(),
                    index + 1,
                    step.1,
                    capacity,
                );
                lemma_filter_restriction_unsigned(
                    env,
                    builder,
                    keys.drop_first(),
                    index + 1,
                    step.1,
                    capacity,
                );
                assert forall|j: int| 0 <= j < o.results.len() implies keys.contains(
                    (#[trigger] o.results[j]).0.public,
                ) by {
                    if j == 0 {
                        assert(keys[0] == first.public);
                    } else {
                        assert(o.results[j] == rest.results[j - 1]);
                        lemma_contains_from_tail(keys, rest.results[j - 1].0.public);
                    }
                }
            },
        }
    }
}

/// Declined construction: when the hook declines every construction, a
/// signed pass yields no result for any account, no extrinsic reaches the
/// queue, and no nonce moves.
pub proof fn lemma_declined_construction<
    T: SigningTypes,
    C: CreateSignedTransaction,
    B: CallBuilder,
>(
    env: T,
    hook: C,
    builder: B,
    keys: Seq<u64>,
    index: int,
    nonces: Map<u64, u64>,
    pool: Seq<ExtrinsicModel>,
    capacity: nat,
)
    requires
        forall|call: Seq<u8>, public: u64, account: u64, nonce: u64|
            #[trigger] hook.transaction_of(call, public, account, nonce) is None,
    ensures
        ({
            let o = send_signed_all_model(env, hook, builder, keys, index, nonces, pool, capacity);
            &&& o.results == Seq::<(Account, Result<(), ()>)>::empty()
            &&& o.nonces == nonces
            &&& o.pool == pool
        }),
    decreases keys.len(),
{
    if keys.len() > 0 {
        lemma_declined_construction(
            env,
            hook,
            builder,
            keys.drop_first(),
            index + 1,
            nonces,
            pool,
            capacity,
        );
    }
}

/// Declined construction on the any-account policy: the pass returns
/// nothing and changes nothing.
pub proof fn lemma_declined_construction_any<
    T: SigningTypes,
    C: CreateSignedTransaction,
    B: CallBuilder,
>(
    env: T,
    hook: C,
    builder: B,
    keys: Seq<u64>,
    index: int,
    nonces: Map<u64, u64>,
    pool: Seq<ExtrinsicModel>,
    capacity: nat,
)
    requires
        forall|call: Seq<u8>, public: u64, account: u64, nonce: u64|
            #[trigger] hook.transaction_of(call, public, account, nonce) is None,
    ensures
        ({
            let o = send_signed_any_model(env, hook, builder, keys, index, nonces, pool, capacity);
            &&& o.result is None
            &&& o.nonces == nonces
            &&& o.pool == pool
        }),
    decreases keys.len(),
{
    if keys.len() > 0 {
        lemma_declined_construction_any(
            env,
            hook,
            builder,
            keys.drop_first(),
            index + 1,
            nonces,
            pool,
            capacity,
        );
    }
}

/// Round trip of the payload contract: a signature the key holder produced
/// for a payload is valid for that payload's encoding under its declared
/// key, so `verify` accepts what `sign` returned.
pub proof fn lemma_payload_round_trip<T: SigningTypes, P: SignedPayload>(
    env: T,
    payload: P,
    signature: u64,
)
    requires
        env.key_signature(payload.signer(), payload.encoding()) == Some(signature),
    ensures
        env.signature_valid(payload.encoding(), payload.signer(), signature),
{
    env.lemma_sign_verify(payload.encoding(), payload.signer(), signature);
}

} // verus!

