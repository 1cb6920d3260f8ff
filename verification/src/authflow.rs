//! The request-token driver: minting a PKCE verifier and a CSRF state
//! nonce from caller-supplied random bytes, deriving the code challenge,
//! building the authorization URL, and moving the account to `Pending`.
//!
//! Randomness comes in as plain bytes: the shell draws them from the
//! system's cryptographically secure source, so the library is verified
//! for every value they may take.

use vstd::prelude::*;
use vstd::string::{is_ascii_spec_bytes, StringSliceAdditionalSpecFns};
use vstd::utf8::is_ascii_chars;
use crate::account::AccountV;
use crate::{bytes_of_chars, chars_of_bytes};
use crate::encode::{b64url, b64url_of, lemma_b64url_ascii, lemma_pct_ascii, pct, pct_of};
use crate::outside::{ascii_to_string, sha256, sha256_of};
use crate::state::{
    AuthState,
    TokenState,
    TokenStateV,
    ValidId,
    contains_id,
    entry_of,
    idx_of_id,
};
use crate::refresh::replaced;

verus! {

/// A percent-encoded ASCII query component.
pub open spec fn qcomp(s: Seq<char>) -> Seq<char> {
    chars_of_bytes(pct_of(bytes_of_chars(s)))
}

/// Scopes joined by single spaces, in order.
pub open spec fn join_scopes(scopes: Seq<Seq<char>>) -> Seq<char>
    decreases scopes.len(),
{
    if scopes.len() == 0 {
        Seq::empty()
    } else if scopes.len() == 1 {
        scopes[0]
    } else {
        join_scopes(scopes.drop_last()) + " "@ + scopes.last()
    }
}

/// Extra query fields, appended verbatim.
pub open spec fn extras_of(fields: Seq<(Seq<char>, Seq<char>)>) -> Seq<char>
    decreases fields.len(),
{
    if fields.len() == 0 {
        Seq::empty()
    } else {
        extras_of(fields.drop_last()) + "&"@ + fields.last().0 + "="@ + fields.last().1
    }
}

pub open spec fn contains_qmark(s: Seq<char>) -> bool {
    exists|i: int| 0 <= i < s.len() && s[i] == '?'
}

/// The PKCE code verifier minted from the given random bytes.
pub open spec fn spec_verifier(verifier_rnd: Seq<u8>) -> Seq<char> {
    chars_of_bytes(b64url_of(verifier_rnd))
}

/// The PKCE code challenge: base64url of the SHA-256 digest of the
/// verifier's ASCII bytes.
pub open spec fn spec_challenge(verifier_rnd: Seq<u8>) -> Seq<char> {
    chars_of_bytes(b64url_of(sha256_of(b64url_of(verifier_rnd))))
}

/// The CSRF state nonce minted from the given random bytes.
pub open spec fn spec_nonce(nonce_rnd: Seq<u8>) -> Seq<char> {
    chars_of_bytes(b64url_of(nonce_rnd))
}

/// The authorization URL: the account's `auth_uri` with the standard
/// query parameters of the authorization-code-with-PKCE flow, and the
/// account's extra fields verbatim.
pub open spec fn spec_auth_url(acc: AccountV, verifier_rnd: Seq<u8>, nonce_rnd: Seq<u8>) -> Seq<
    char,
> {
    acc.auth_uri + (if contains_qmark(acc.auth_uri) {
        "&"@
    } else {
        "?"@
    }) + "response_type=code&client_id="@ + qcomp(acc.client_id) + "&redirect_uri="@ + qcomp(
        acc.redirect_uri,
    ) + "&scope="@ + qcomp(join_scopes(acc.scopes)) + "&state="@ + spec_nonce(nonce_rnd)
        + "&code_challenge="@ + spec_challenge(verifier_rnd) + "&code_challenge_method=S256"@
        + extras_of(acc.auth_uri_fields)
}

/// Percent-encode an ASCII string.
fn qcomp_x(s: &str) -> (r: String)
    requires
        is_ascii_chars(s@),
    ensures
        r@ == qcomp(s@),
{
    proof {
        is_ascii_spec_bytes(s);
        assert(s.spec_bytes() =~= bytes_of_chars(s@));
    }
    let bytes = s.as_bytes_vec();
    let enc = pct(bytes.as_slice());
    proof {
        lemma_pct_ascii(bytes_of_chars(s@));
    }
    ascii_to_string(enc)
}

/// Whether the string holds a `?`.
fn contains_qmark_x(s: &str) -> (r: bool)
    ensures
        r == contains_qmark(s@),
{
    let n = s.unicode_len();
    for i in 0..n
        invariant
            n == s@.len(),
            forall|k: int| 0 <= k < i ==> s@[k] != '?',
    {
        if s.get_char(i) == '?' {
            return true;
        }
    }
    false
}


/// Join scopes with single spaces.
fn join_scopes_x(scopes: &Vec<String>) -> (r: String)
    ensures
        r@ == join_scopes(crate::account::str_views(scopes@)),
{
    let ghost views = crate::account::str_views(scopes@);
    let mut r = String::new();
    let n = scopes.len();
    for j in 0..n
        invariant
            n == scopes@.len() == views.len(),
            views == crate::account::str_views(scopes@),
            r@ == join_scopes(views.take(j as int)),
    {
        proof {
            assert(views[j as int] == scopes@[j as int]@);
            assert(views.take(j as int + 1).drop_last() =~= views.take(j as int));
            assert(views.take(j as int + 1).last() == views[j as int]);
        }
        if j > 0 {
            r.append(" ");
        }
        r.append(scopes[j].as_str());
        proof {
            if j == 0 {
                assert(r@ =~= join_scopes(views.take(1int)));
            }
        }
    }
    proof {
        assert(views.take(n as int) =~= views);
    }
    r
}

/// Joining ASCII scopes yields an ASCII string.
proof fn lemma_join_ascii(scopes: Seq<Seq<char>>)
    requires
        forall|i: int| 0 <= i < scopes.len() ==> is_ascii_chars(#[trigger] scopes[i]),
    ensures
        is_ascii_chars(join_scopes(scopes)),
    decreases scopes.len(),
{
    if scopes.len() > 1 {
        lemma_join_ascii(scopes.drop_last());
        assert(forall|i: int|
            0 <= i < scopes.len() - 1 ==> #[trigger] scopes.drop_last()[i] == scopes[i]);
        assert(scopes[scopes.len() - 1] == scopes.last());
        vstd::utf8::is_ascii_chars_concat(
            join_scopes(scopes.drop_last()) + " "@,
            join_scopes(scopes.drop_last()),
            " "@,
        );
        reveal_strlit(" ");
        vstd::utf8::is_ascii_chars_concat(
            join_scopes(scopes),
            join_scopes(scopes.drop_last()) + " "@,
            scopes.last(),
        );
    } else if scopes.len() == 1 {
        assert(scopes[0] == scopes.last());
    }
}

/// Append the account's extra query fields, verbatim.
fn append_extras(url: &mut String, fields: &Vec<(String, String)>)
    ensures
        final(url)@ == old(url)@ + extras_of(crate::account::pair_views(fields@)),
{
    let ghost views = crate::account::pair_views(fields@);
    let ghost base = url@;
    let n = fields.len();
    proof {
        assert(base + extras_of(views.take(0)) =~= base);
    }
    for j in 0..n
        invariant
            n == fields@.len() == views.len(),
            views == crate::account::pair_views(fields@),
            url@ == base + extras_of(views.take(j as int)),
    {
        proof {
            assert(views[j as int] == (fields@[j as int].0@, fields@[j as int].1@));
            assert(views.take(j as int + 1).drop_last() =~= views.take(j as int));
            assert(views.take(j as int + 1).last() == views[j as int]);
        }
        url.append("&");
        url.append(fields[j].0.as_str());
        url.append("=");
        url.append(fields[j].1.as_str());
    }
    proof {
        assert(views.take(n as int) =~= views);
    }
}

/// Run the first half of an authorization flow for an account that is
/// `Empty` or `Pending`: mint the verifier and the state nonce from the
/// given random bytes, build the authorization URL, and move the account
/// to `Pending` (a fresh flow supersedes an older one).  Fails, leaving
/// the table untouched, in the vanishingly rare case that the minted
/// nonce collides with another pending flow's nonce.
pub fn request_token(
    st: &mut AuthState,
    act_id: ValidId,
    verifier_rnd: &[u8],
    nonce_rnd: &[u8],
    now: u64,
) -> (r: Result<String, ()>)
    requires
        old(st).wf(),
        contains_id(old(st)@.entries, act_id@),
        verifier_rnd@.len() == 64,
        nonce_rnd@.len() == 8,
    ensures
        final(st).wf(),
        final(st)@.next_id == old(st)@.next_id,
        final(st)@.http_port == old(st)@.http_port,
        ({
            let es0 = old(st)@.entries;
            let acc = entry_of(es0, act_id@).account;
            match r {
                Ok(url) => url@ == spec_auth_url(acc, verifier_rnd@, nonce_rnd@) && replaced(
                    es0,
                    final(st)@.entries,
                    act_id@,
                    TokenStateV::Pending {
                        code_verifier: spec_verifier(verifier_rnd@),
                        state_nonce: spec_nonce(nonce_rnd@),
                        url: url@,
                        started_at: now,
                        last_notified: None,
                    },
                ),
                Err(_) => final(st)@.entries == es0 && exists|j: int|
                    0 <= j < es0.len() && (#[trigger] es0[j]).id != act_id@ && es0[j].state
                        is Pending && es0[j].state.pending_nonce() == spec_nonce(nonce_rnd@),
            }
        }),
{
    let ghost es0 = st@.entries;
    let verifier_bytes = b64url(verifier_rnd);
    proof {
        lemma_b64url_ascii(verifier_rnd@);
    }
    let digest = sha256(verifier_bytes.as_slice());
    let challenge_bytes = b64url(digest.as_slice());
    let nonce_bytes = b64url(nonce_rnd);
    proof {
        lemma_b64url_ascii(sha256_of(b64url_of(verifier_rnd@)));
        lemma_b64url_ascii(nonce_rnd@);
    }
    let verifier = ascii_to_string(verifier_bytes);
    let challenge = ascii_to_string(challenge_bytes);
    let nonce = ascii_to_string(nonce_bytes);

    let url = {
        let acc = st.account(&act_id);
        proof {
            let i = idx_of_id(es0, act_id@);
            assert(0 <= i < es0.len() && es0[i].id == act_id@);
            assert(crate::account::acc_wf(es0[i].account));
            lemma_join_ascii(acc@.scopes);
        }
        let mut url = acc.auth_uri.clone();
        if contains_qmark_x(acc.auth_uri.as_str()) {
            url.append("&");
        } else {
            url.append("?");
        }
        url.append("response_type=code&client_id=");
        let c = qcomp_x(acc.client_id.as_str());
        url.append(c.as_str());
        url.append("&redirect_uri=");
        let ru = qcomp_x(acc.redirect_uri.as_str());
        url.append(ru.as_str());
        url.append("&scope=");
        let joined = join_scopes_x(&acc.scopes);
        let sc = qcomp_x(joined.as_str());
        url.append(sc.as_str());
        url.append("&state=");
        url.append(nonce.as_str());
        url.append("&code_challenge=");
        url.append(challenge.as_str());
        url.append("&code_challenge_method=S256");
        append_extras(&mut url, &acc.auth_uri_fields);
        url
    };
    assert(url@ == spec_auth_url(entry_of(es0, act_id@).account, verifier_rnd@, nonce_rnd@));

    // the minted nonce must not collide with another pending flow
    let ids = st.act_ids();
    let n = ids.len();
    for i in 0..n
        invariant
            st == old(st),
            st.wf(),
            es0 == st@.entries,
            n == ids@.len() == es0.len(),
            nonce@ == spec_nonce(nonce_rnd@),
            forall|k: int| 0 <= k < n ==> (#[trigger] ids@[k])@ == es0[k].id,
            forall|k: int|
                0 <= k < i ==> !((#[trigger] es0[k]).id != act_id@ && es0[k].state is Pending
                    && es0[k].state.pending_nonce() == spec_nonce(nonce_rnd@)),
    {
        proof {
            assert(es0[i as int].id == ids@[i as int]@);
            assert(contains_id(es0, ids@[i as int]@));
            crate::state::lemma_idx_unique(es0, ids@[i as int]@, i as int);
        }
        if ids[i].raw() != act_id.raw() {
            match st.tokenstate(&ids[i]) {
                TokenState::Pending { state_nonce, .. } => {
                    if state_nonce.eq(&nonce) {
                        return Err(());
                    }
                },
                _ => {},
            }
        }
    }

    let ts = TokenState::Pending {
        code_verifier: verifier,
        state_nonce: nonce,
        url: url.clone(),
        started_at: now,
        last_notified: None,
    };
    st.tokenstate_replace(act_id, ts);
    Ok(url)
}

} // verus!
