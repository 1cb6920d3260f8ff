//! Trusted boundary: the few calls into outside crates that the verified
//! logic relies on, each behind a wrapper whose contract Verus believes.

use vstd::prelude::*;
use sha2::Digest;
use crate::chars_of_bytes;
use crate::encode::all_ascii;

verus! {

/// The fields of a token-endpoint JSON response that the daemon consumes.
#[verifier::ext_equal]
pub ghost struct TokenFieldsV {
    pub error: Option<Seq<char>>,
    pub access_token: Option<Seq<char>>,
    pub expires_in: Option<u64>,
    pub token_type: Option<Seq<char>>,
    pub refresh_token: Option<Seq<char>>,
}

/// The fields of a token-endpoint JSON response that the daemon consumes;
/// a field is `None` when it is absent or not of the expected type.
pub struct TokenFields {
    pub error: Option<String>,
    pub access_token: Option<String>,
    pub expires_in: Option<u64>,
    pub token_type: Option<String>,
    pub refresh_token: Option<String>,
}

impl View for TokenFields {
    type V = TokenFieldsV;

    open spec fn view(&self) -> TokenFieldsV {
        TokenFieldsV {
            error: match &self.error {
                Some(s) => Some(s@),
                None => None,
            },
            access_token: match &self.access_token {
                Some(s) => Some(s@),
                None => None,
            },
            expires_in: self.expires_in,
            token_type: match &self.token_type {
                Some(s) => Some(s@),
                None => None,
            },
            refresh_token: match &self.refresh_token {
                Some(s) => Some(s@),
                None => None,
            },
        }
    }
}

/// The fields that `json::parse` extracts from the given response text:
/// `None` when the text is not JSON, otherwise the string fields `error`,
/// `access_token`, `token_type`, `refresh_token` and the unsigned integer
/// field `expires_in`, each absent when missing or of another type.
pub uninterp spec fn token_fields_of(body: Seq<char>) -> Option<TokenFieldsV>;

/// Relies on `json::parse` and `JsonValue`'s accessors (`as_str`,
/// `as_u64`, indexing by key): which fields a JSON document holds depends
/// on the document text alone.
#[verifier::external_body]
pub fn parse_token_fields(body: &str) -> (r: Option<TokenFields>)
    ensures
        match r {
            Some(f) => token_fields_of(body@) == Some(f@),
            None => token_fields_of(body@) is None,
        },
{
    let v = json::parse(body).ok()?;
    Some(TokenFields {
        error: v["error"].as_str().map(|s| s.to_owned()),
        access_token: v["access_token"].as_str().map(|s| s.to_owned()),
        expires_in: v["expires_in"].as_u64(),
        token_type: v["token_type"].as_str().map(|s| s.to_owned()),
        refresh_token: v["refresh_token"].as_str().map(|s| s.to_owned()),
    })
}

/// The SHA-256 digest of a byte sequence.
pub uninterp spec fn sha256_of(bytes: Seq<u8>) -> Seq<u8>;

/// Relies on `sha2::Sha256`: the digest is a function of the input bytes
/// alone, and is 32 bytes long.
#[verifier::external_body]
pub fn sha256(bytes: &[u8]) -> (r: Vec<u8>)
    ensures
        r@ == sha256_of(bytes@),
        r@.len() == 32,
{
    sha2::Sha256::digest(bytes).to_vec()
}

/// Relies on `String::from_utf8`: `Some` exactly when the bytes are valid
/// UTF-8, returning the string they encode; ASCII bytes are such an
/// encoding, character for character.
#[verifier::external_body]
pub fn utf8_string(v: Vec<u8>) -> (r: Option<String>)
    ensures
        r matches Some(s) ==> vstd::utf8::encode_utf8(s@) =~= v@,
        r matches Some(s) ==> (all_ascii(v@) ==> s@ == chars_of_bytes(v@)),
        r is None ==> (forall|s: Seq<char>| #[trigger] vstd::utf8::encode_utf8(s) != v@),
{
    String::from_utf8(v).ok()
}

/// An ASCII byte vector, as the string of the same characters.
pub fn ascii_to_string(v: Vec<u8>) -> (r: String)
    requires
        all_ascii(v@),
    ensures
        r@ == chars_of_bytes(v@),
{
    let ghost vv = v@;
    match utf8_string(v) {
        Some(s) => s,
        None => {
            proof {
                let s = chars_of_bytes(vv);
                assert(vstd::utf8::is_ascii_chars(s));
                vstd::utf8::is_ascii_chars_encode_utf8(s);
                assert(vstd::utf8::encode_utf8(s) =~= vv);
            }
            vstd::pervasive::unreached()
        },
    }
}

} // verus!
