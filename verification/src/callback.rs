//! The HTTP-callback handler: parsing the redirect's query string,
//! locating the pending flow whose CSRF `state` nonce matches, and
//! completing the code-for-token exchange.
//!
//! `callback_begin` only reads the table: a callback whose `state` matches
//! no pending flow cannot change any account's token state.  The POST to
//! the token endpoint is slow I/O done by the shell; `callback_finish`
//! applies its outcome after re-validating the handle.

use vstd::prelude::*;
use vstd::string::{is_ascii_spec_bytes, StringSliceAdditionalSpecFns};
use vstd::utf8::{
    decode_utf8,
    decode_utf8_encode_utf8,
    encode_utf8,
    encode_utf8_decode_utf8,
    encode_utf8_valid_utf8,
    is_ascii_chars,
    valid_utf8,
};
use crate::bytes_of_chars;
use crate::encode::{pct_decode, pct_decode_of};
use crate::outside::{parse_token_fields, token_fields_of, utf8_string, TokenFieldsV};
use crate::refresh::{replaced, update_refresher, Refresher, HttpOutcome, HttpOutcomeV};
use crate::state::{AuthState, TokenState, TokenStateV, ValidId, contains_id, entry_of};

verus! {

// ---------------------------------------------------------------------
// Query-string lookup
// ---------------------------------------------------------------------

/// Index of the first occurrence of `b`, or the length when absent.
pub open spec fn first_byte(s: Seq<u8>, b: u8) -> int
    decreases s.len(),
{
    if s.len() == 0 {
        0
    } else if s[0] == b {
        0
    } else {
        1 + first_byte(s.skip(1), b)
    }
}

pub proof fn lemma_first_byte(s: Seq<u8>, b: u8)
    ensures
        0 <= first_byte(s, b) <= s.len(),
        first_byte(s, b) < s.len() ==> s[first_byte(s, b)] == b,
        forall|k: int| 0 <= k < first_byte(s, b) ==> s[k] != b,
    decreases s.len(),
{
    if s.len() > 0 && s[0] != b {
        lemma_first_byte(s.skip(1), b);
        assert forall|k: int| 0 <= k < first_byte(s, b) implies s[k] != b by {
            if k > 0 {
                assert(s.skip(1)[k - 1] == s[k]);
            }
        }
    }
}

/// The decoded value of the first `key=value` pair carrying `key` in an
/// `application/x-www-form-urlencoded` query string; a pair without `=`
/// has the empty value.
pub open spec fn query_get(s: Seq<u8>, key: Seq<u8>) -> Option<Seq<u8>>
    decreases s.len(),
{
    let k = first_byte(s, 38);
    let piece = s.take(k);
    let e = first_byte(piece, 61);
    if 0 <= k <= s.len() {
        if e < k && piece.take(e) == key {
            Some(pct_decode_of(piece.skip(e + 1)))
        } else if e >= k && piece == key {
            Some(Seq::empty())
        } else if k < s.len() {
            query_get(s.skip(k + 1), key)
        } else {
            None
        }
    } else {
        None
    }
}

fn bytes_eq(a: &[u8], b: &[u8]) -> (r: bool)
    ensures
        r == (a@ == b@),
{
    if a.len() != b.len() {
        return false;
    }
    let n = a.len();
    for i in 0..n
        invariant
            n == a@.len() == b@.len(),
            forall|k: int| 0 <= k < i ==> a@[k] == b@[k],
    {
        if a[i] != b[i] {
            return false;
        }
    }
    assert(a@ =~= b@);
    true
}

fn subrange_vec(bytes: &[u8], a: usize, b: usize) -> (r: Vec<u8>)
    requires
        a <= b <= bytes@.len(),
    ensures
        r@ == bytes@.subrange(a as int, b as int),
{
    let mut r: Vec<u8> = Vec::new();
    for i in a..b
        invariant
            a <= i <= b <= bytes@.len(),
            r@ == bytes@.subrange(a as int, i as int),
    {
        r.push(bytes[i]);
        assert(r@ =~= bytes@.subrange(a as int, i as int + 1));
    }
    r
}

fn first_byte_x(bytes: &[u8], from: usize, b: u8) -> (r: usize)
    requires
        from <= bytes@.len(),
    ensures
        from <= r <= bytes@.len(),
        r - from == first_byte(bytes@.skip(from as int), b),
    decreases bytes@.len() - from,
{
    let ghost s = bytes@.skip(from as int);
    if from == bytes.len() {
        assert(s =~= Seq::<u8>::empty());
        return from;
    }
    assert(s[0] == bytes@[from as int]);
    if bytes[from] == b {
        return from;
    }
    let r = first_byte_x(bytes, from + 1, b);
    assert(s.skip(1) =~= bytes@.skip(from as int + 1));
    r
}

fn query_get_from(bytes: &[u8], i: usize, key: &[u8]) -> (r: Option<Vec<u8>>)
    requires
        i <= bytes@.len(),
    ensures
        match r {
            Some(v) => query_get(bytes@.skip(i as int), key@) == Some(v@),
            None => query_get(bytes@.skip(i as int), key@) is None,
        },
    decreases bytes@.len() - i,
{
    let ghost s = bytes@.skip(i as int);
    let k_abs = first_byte_x(bytes, i, 38);
    let ghost k = k_abs - i;
    let piece = subrange_vec(bytes, i, k_abs);
    assert(piece@ =~= s.take(k));
    let e = {
        let e0 = first_byte_x(piece.as_slice(), 0, 61);
        assert(piece@.skip(0) =~= piece@);
        e0
    };
    if e < piece.len() {
        let pk = subrange_vec(piece.as_slice(), 0, e);
        assert(pk@ =~= piece@.take(e as int));
        if bytes_eq(pk.as_slice(), key) {
            let rest = subrange_vec(piece.as_slice(), e + 1, piece.len());
            assert(rest@ =~= piece@.skip(e as int + 1));
            let val = pct_decode(rest.as_slice());
            return Some(val);
        }
    } else {
        if bytes_eq(piece.as_slice(), key) {
            let empty: Vec<u8> = Vec::new();
            assert(empty@ =~= Seq::<u8>::empty());
            return Some(empty);
        }
    }
    if k_abs < bytes.len() {
        let r = query_get_from(bytes, k_abs + 1, key);
        assert(s.skip(k + 1) =~= bytes@.skip(k_abs as int + 1));
        r
    } else {
        None
    }
}

/// Look a key up in a query string.
pub fn query_lookup(query: &[u8], key: &[u8]) -> (r: Option<Vec<u8>>)
    ensures
        match r {
            Some(v) => query_get(query@, key@) == Some(v@),
            None => query_get(query@, key@) is None,
        },
{
    let r = query_get_from(query, 0, key);
    assert(query@.skip(0) =~= query@);
    r
}

/// The ASCII bytes of a key.
fn key_bytes(s: &str) -> (r: Vec<u8>)
    requires
        is_ascii_chars(s@),
    ensures
        r@ == bytes_of_chars(s@),
{
    proof {
        is_ascii_spec_bytes(s);
        assert(s.spec_bytes() =~= bytes_of_chars(s@));
    }
    s.as_bytes_vec()
}

// ---------------------------------------------------------------------
// Locating the pending flow
// ---------------------------------------------------------------------

/// Mathematical view of an `ExchangePlan`.
#[verifier::ext_equal]
pub ghost struct ExchangePlanV {
    pub act_id: u64,
    pub code: Seq<char>,
    pub code_verifier: Seq<char>,
    pub redirect_uri: Seq<char>,
    pub token_uri: Seq<char>,
    pub client_id: Seq<char>,
    pub client_secret: Seq<char>,
}

/// Everything the shell needs to exchange an authorization code for
/// tokens, snapshotted under the table lock.
pub struct ExchangePlan {
    pub act_id: ValidId,
    pub code: String,
    pub code_verifier: String,
    pub redirect_uri: String,
    pub token_uri: String,
    pub client_id: String,
    pub client_secret: String,
}

impl View for ExchangePlan {
    type V = ExchangePlanV;

    open spec fn view(&self) -> ExchangePlanV {
        ExchangePlanV {
            act_id: self.act_id@,
            code: self.code@,
            code_verifier: self.code_verifier@,
            redirect_uri: self.redirect_uri@,
            token_uri: self.token_uri@,
            client_id: self.client_id@,
            client_secret: self.client_secret@,
        }
    }
}

/// Validate an incoming redirect: parse `state` and `code` from the query
/// string, and hand back an exchange plan exactly when some pending
/// flow's CSRF nonce equals the presented `state`.  This function only
/// reads the table: a callback carrying a non-matching `state` cannot
/// change any account's token state, and the shell answers it with a
/// 400-class response.
pub fn callback_begin(st: &AuthState, query: &str) -> (r: Option<ExchangePlan>)
    requires
        st.wf(),
    ensures
        ({
            let es = st@.entries;
            let qb = encode_utf8(query@);
            let stv = query_get(qb, bytes_of_chars("state"@));
            let cov = query_get(qb, bytes_of_chars("code"@));
            match r {
                Some(p) => stv is Some && cov is Some && valid_utf8(stv.unwrap()) && valid_utf8(
                    cov.unwrap(),
                ) && contains_id(es, p.act_id@) && ({
                    let e = entry_of(es, p.act_id@);
                    &&& e.state is Pending
                    &&& e.state.pending_nonce() == decode_utf8(stv.unwrap())
                    &&& p@.code == decode_utf8(cov.unwrap())
                    &&& p@.code_verifier == e.state.pending_verifier()
                    &&& p@.redirect_uri == e.account.redirect_uri
                    &&& p@.token_uri == e.account.token_uri
                    &&& p@.client_id == e.account.client_id
                    &&& p@.client_secret == e.account.client_secret
                }),
                None => stv is None || cov is None || !valid_utf8(stv.unwrap()) || !valid_utf8(
                    cov.unwrap(),
                ) || (forall|i: int|
                    0 <= i < es.len() ==> !((#[trigger] es[i]).state is Pending && es[i].state
                        .pending_nonce() == decode_utf8(stv.unwrap()))),
            }
        }),
{
    let ghost es = st@.entries;
    proof {
        reveal_strlit("state");
        reveal_strlit("code");
        assert(is_ascii_chars("state"@));
        assert(is_ascii_chars("code"@));
    }
    let qb = query.as_bytes_vec();
    let skey = key_bytes("state");
    let ckey = key_bytes("code");
    let svb = match query_lookup(qb.as_slice(), skey.as_slice()) {
        Some(v) => v,
        None => {
            return None;
        },
    };
    let cvb = match query_lookup(qb.as_slice(), ckey.as_slice()) {
        Some(v) => v,
        None => {
            return None;
        },
    };
    let ghost svbv = svb@;
    let ghost cvbv = cvb@;
    let sstr = match utf8_string(svb) {
        Some(s) => s,
        None => {
            proof {
                if valid_utf8(svbv) {
                    decode_utf8_encode_utf8(svbv);
                }
            }
            return None;
        },
    };
    proof {
        encode_utf8_valid_utf8(sstr@);
        encode_utf8_decode_utf8(sstr@);
    }
    let cstr = match utf8_string(cvb) {
        Some(s) => s,
        None => {
            proof {
                if valid_utf8(cvbv) {
                    decode_utf8_encode_utf8(cvbv);
                }
            }
            return None;
        },
    };
    proof {
        encode_utf8_valid_utf8(cstr@);
        encode_utf8_decode_utf8(cstr@);
        assert(encode_utf8(sstr@) == svbv && encode_utf8(cstr@) == cvbv);
    }

    let ids = st.act_ids();
    let n = ids.len();
    for i in 0..n
        invariant
            st.wf(),
            es == st@.entries,
            n == ids@.len() == es.len(),
            sstr@ == decode_utf8(svbv),
            cstr@ == decode_utf8(cvbv),
            valid_utf8(svbv),
            valid_utf8(cvbv),
            query_get(encode_utf8(query@), bytes_of_chars("state"@)) == Some(svbv),
            query_get(encode_utf8(query@), bytes_of_chars("code"@)) == Some(cvbv),
            forall|k: int| 0 <= k < n ==> (#[trigger] ids@[k])@ == es[k].id,
            forall|k: int|
                0 <= k < i ==> !((#[trigger] es[k]).state is Pending && es[k].state
                    .pending_nonce() == decode_utf8(svbv)),
    {
        proof {
            assert(es[i as int].id == ids@[i as int]@);
            assert(contains_id(es, ids@[i as int]@));
            crate::state::lemma_idx_unique(es, ids@[i as int]@, i as int);
        }
        match st.tokenstate(&ids[i]) {
            TokenState::Pending { code_verifier, state_nonce, .. } => {
                if state_nonce.eq(&sstr) {
                    let acc = st.account(&ids[i]);
                    return Some(ExchangePlan {
                        act_id: ids[i],
                        code: cstr,
                        code_verifier: code_verifier.clone(),
                        redirect_uri: acc.redirect_uri.clone(),
                        token_uri: acc.token_uri.clone(),
                        client_id: acc.client_id.clone(),
                        client_secret: acc.client_secret.clone(),
                    });
                }
            },
            _ => {},
        }
    }
    None
}

// ---------------------------------------------------------------------
// Completing the exchange
// ---------------------------------------------------------------------

/// How a decoded token response completes an authorization.
#[verifier::ext_equal]
pub ghost enum CallbackStep {
    /// Install the newly issued active token.
    Install { access_token: Seq<char>, expiry: u64, refresh_token: Option<Seq<char>> },
    /// The exchange failed: the flow is abandoned.
    Drop,
    /// The new expiry is not representable: leave the flow as it stands.
    Unrepresentable,
}

/// Classify the token-endpoint response of a code exchange: like a
/// refresh, but there is no previous refresh token to retain, and any
/// failure abandons the pending flow.
pub open spec fn spec_callback_step(fields: Option<TokenFieldsV>, now: u64) -> CallbackStep {
    match fields {
        None => CallbackStep::Drop,
        Some(f) => if f.error is Some {
            CallbackStep::Drop
        } else if f.access_token is Some && f.expires_in is Some && f.token_type is Some
            && crate::encode::lower_seq(f.token_type.unwrap()) == crate::encode::lower_seq(
            "Bearer"@,
        ) {
            if now + f.expires_in.unwrap() <= u64::MAX {
                CallbackStep::Install {
                    access_token: f.access_token.unwrap(),
                    expiry: (now + f.expires_in.unwrap()) as u64,
                    refresh_token: f.refresh_token,
                }
            } else {
                CallbackStep::Unrepresentable
            }
        } else {
            CallbackStep::Drop
        },
    }
}

/// Apply the outcome of the code-for-token POST, after re-validating the
/// handle: a well-formed response makes the account `Active` and wakes
/// the refresher; any failure abandons the flow (`Empty`); a vanished
/// account is left alone.  Returns whether a token was installed, which
/// decides the page shown to the browser.
pub fn callback_finish(
    st: &mut AuthState,
    refresher: &mut Refresher,
    act_id: ValidId,
    outcome: HttpOutcome,
    now: u64,
) -> (r: bool)
    requires
        old(st).wf(),
    ensures
        final(st).wf(),
        final(st)@.next_id == old(st)@.next_id,
        final(st)@.http_port == old(st)@.http_port,
        final(refresher)@ == (old(refresher)@ || r),
        ({
            let es0 = old(st)@.entries;
            let es1 = final(st)@.entries;
            if !contains_id(es0, act_id@) {
                es1 == es0 && !r
            } else {
                match outcome@ {
                    HttpOutcomeV::Success { body } => match spec_callback_step(
                        token_fields_of(body),
                        now,
                    ) {
                        CallbackStep::Install { access_token, expiry, refresh_token } => replaced(
                            es0,
                            es1,
                            act_id@,
                            TokenStateV::Active {
                                access_token,
                                expiry,
                                refreshed_at: now,
                                last_refresh_attempt: Some(now),
                                refresh_token,
                            },
                        ) && r,
                        CallbackStep::Unrepresentable => es1 == es0 && !r,
                        CallbackStep::Drop => replaced(es0, es1, act_id@, TokenStateV::Empty)
                            && !r,
                    },
                    _ => replaced(es0, es1, act_id@, TokenStateV::Empty) && !r,
                }
            }
        }),
{
    let v = match st.validate_act_id(act_id) {
        Some(v) => v,
        None => {
            return false;
        },
    };
    match outcome {
        HttpOutcome::Success { body } => {
            match parse_token_fields(body.as_str()) {
                None => {
                    st.tokenstate_replace(v, TokenState::Empty);
                    false
                },
                Some(f) => {
                    if f.error.is_some() {
                        st.tokenstate_replace(v, TokenState::Empty);
                        false
                    } else {
                        let bearer = match &f.token_type {
                            Some(tt) => crate::encode::eq_icase(tt.as_str(), "Bearer"),
                            None => false,
                        };
                        if f.access_token.is_some() && f.expires_in.is_some() && bearer {
                            match now.checked_add(f.expires_in.unwrap()) {
                                None => false,
                                Some(expiry) => {
                                    let ts = TokenState::Active {
                                        access_token: f.access_token.unwrap(),
                                        expiry,
                                        refreshed_at: now,
                                        last_refresh_attempt: Some(now),
                                        refresh_token: f.refresh_token,
                                    };
                                    st.tokenstate_replace(v, ts);
                                    update_refresher(refresher);
                                    true
                                },
                            }
                        } else {
                            st.tokenstate_replace(v, TokenState::Empty);
                            false
                        }
                    }
                },
            }
        },
        _ => {
            st.tokenstate_replace(v, TokenState::Empty);
            false
        },
    }
}

} // verus!
