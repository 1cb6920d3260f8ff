//! Laws of the token table, stated on their own so a reader can see them
//! in one place.  Each is proved from the contracts of the functions it
//! relates.

use vstd::prelude::*;
use crate::outside::token_fields_of;
use crate::callback::{spec_callback_step, CallbackStep};
use crate::refresh::replaced;
use crate::state::{
    contains_id,
    entry_of,
    idx_of_id,
    lemma_idx_unique,
    wf_v,
    AuthStateV,
    EntryV,
    TokenStateV,
};

verus! {

/// Invariants of every well-formed table: an `Active` entry never expires
/// before it was refreshed, and the CSRF nonces of `Pending` entries are
/// pairwise distinct.
pub proof fn lemma_table_invariants(v: AuthStateV)
    requires
        wf_v(v),
    ensures
        forall|i: int|
            0 <= i < v.entries.len() && (#[trigger] v.entries[i]).state is Active
                ==> v.entries[i].state.active_expiry() >= v.entries[i].state
                .active_refreshed_at(),
        forall|i: int, j: int|
            0 <= i < j < v.entries.len() && (#[trigger] v.entries[i]).state is Pending && (
            #[trigger] v.entries[j]).state is Pending ==> v.entries[i].state.pending_nonce()
                != v.entries[j].state.pending_nonce(),
{
}

/// Round trip of an authorization: when some account's pending flow
/// carries nonce `n`, a callback whose `state` decodes to `n` can only
/// address that very account (nonces are pairwise distinct), and
/// completing its exchange with a well-formed token response leaves that
/// account `Active` holding exactly the `access_token` of the response.
pub proof fn lemma_authorization_round_trip(
    v1: AuthStateV,
    es2: Seq<EntryV>,
    id: u64,
    matched: u64,
    nonce: Seq<char>,
    body: Seq<char>,
    now: u64,
)
    requires
        wf_v(v1),
        // the flow that `request_token` started:
        contains_id(v1.entries, id),
        entry_of(v1.entries, id).state is Pending,
        entry_of(v1.entries, id).state.pending_nonce() == nonce,
        // what `callback_begin` guarantees of the plan it returned for a
        // query whose decoded `state` equals `nonce`:
        contains_id(v1.entries, matched),
        entry_of(v1.entries, matched).state is Pending,
        entry_of(v1.entries, matched).state.pending_nonce() == nonce,
        // the token endpoint answered with a well-formed response ...
        spec_callback_step(token_fields_of(body), now) is Install,
        // ... and `callback_finish` applied it:
        ({
            let step = spec_callback_step(token_fields_of(body), now);
            replaced(
                v1.entries,
                es2,
                matched,
                TokenStateV::Active {
                    access_token: step->Install_access_token,
                    expiry: step->Install_expiry,
                    refreshed_at: now,
                    last_refresh_attempt: Some(now),
                    refresh_token: step->Install_refresh_token,
                },
            )
        }),
    ensures
        matched == id,
        contains_id(es2, id),
        entry_of(es2, id).state is Active,
        entry_of(es2, id).state.active_token() == token_fields_of(
            body,
        ).unwrap().access_token.unwrap(),
{
    let i = idx_of_id(v1.entries, id);
    let j = idx_of_id(v1.entries, matched);
    assert(0 <= i < v1.entries.len() && v1.entries[i].id == id);
    assert(0 <= j < v1.entries.len() && v1.entries[j].id == matched);
    if i < j {
        assert(v1.entries[i].state.pending_nonce() != v1.entries[j].state.pending_nonce());
    } else if j < i {
        assert(v1.entries[j].state.pending_nonce() != v1.entries[i].state.pending_nonce());
    }
    assert(i == j && matched == id);
    let step = spec_callback_step(token_fields_of(body), now);
    let e2 = EntryV {
        id,
        account: entry_of(v1.entries, id).account,
        state: TokenStateV::Active {
            access_token: step->Install_access_token,
            expiry: step->Install_expiry,
            refreshed_at: now,
            last_refresh_attempt: Some(now),
            refresh_token: step->Install_refresh_token,
        },
    };
    assert(es2 == v1.entries.update(i, e2));
    assert(es2[i] == e2);
    assert forall|p: int, q: int|
        0 <= p < q < es2.len() implies (#[trigger] es2[p]).id != (#[trigger] es2[q]).id by {
        assert(es2[p].id == v1.entries[p].id && es2[q].id == v1.entries[q].id);
    }
    lemma_idx_unique(es2, id, i);
}

} // verus!
