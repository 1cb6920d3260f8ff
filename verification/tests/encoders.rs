use pizauth::encode::{b64url, eq_icase, pct, pct_decode, u64_dec};
use pizauth::sock_path;

fn b64s(input: &[u8]) -> String {
    String::from_utf8(b64url(input)).unwrap()
}

#[test]
fn base64url_rfc_vectors() {
    assert_eq!(b64s(b""), "");
    assert_eq!(b64s(b"f"), "Zg");
    assert_eq!(b64s(b"fo"), "Zm8");
    assert_eq!(b64s(b"foo"), "Zm9v");
    assert_eq!(b64s(b"foob"), "Zm9vYg");
    assert_eq!(b64s(b"fooba"), "Zm9vYmE");
    assert_eq!(b64s(b"foobar"), "Zm9vYmFy");
}

#[test]
fn base64url_uses_url_alphabet() {
    // 0xfb 0xef encodes through characters 62 and 63 of the alphabet
    assert_eq!(b64s(&[0xfb, 0xef]), "--8");
    assert_eq!(b64s(&[0xff, 0xff, 0xff]), "____");
}

#[test]
fn base64url_zero_bytes() {
    assert_eq!(b64s(&[0u8; 8]), "AAAAAAAAAAA");
    assert_eq!(b64s(&[0u8; 8]).len(), 11);
}

#[test]
fn percent_encoding_keeps_unreserved() {
    let out = String::from_utf8(pct(b"AZaz09-._~")).unwrap();
    assert_eq!(out, "AZaz09-._~");
}

#[test]
fn percent_encoding_escapes_reserved() {
    let out = String::from_utf8(pct(b"a b/c?")).unwrap();
    assert_eq!(out, "a%20b%2Fc%3F");
}

#[test]
fn percent_decoding_round_trip() {
    let plain = b"code with/odd?chars%";
    let enc = pct(plain);
    let dec = pct_decode(&enc);
    assert_eq!(dec, plain.to_vec());
}

#[test]
fn percent_decoding_lenient_and_plus() {
    assert_eq!(pct_decode(b"a%2Fb"), b"a/b".to_vec());
    assert_eq!(pct_decode(b"a%2fb"), b"a/b".to_vec());
    assert_eq!(pct_decode(b"a+b"), b"a b".to_vec());
    // malformed sequences stay as they are
    assert_eq!(pct_decode(b"a%zzb"), b"a%zzb".to_vec());
    assert_eq!(pct_decode(b"a%2"), b"a%2".to_vec());
}

#[test]
fn decimal_rendering() {
    assert_eq!(u64_dec(0), b"0".to_vec());
    assert_eq!(u64_dec(7), b"7".to_vec());
    assert_eq!(u64_dec(400), b"400".to_vec());
    assert_eq!(u64_dec(18446744073709551615), b"18446744073709551615".to_vec());
}

#[test]
fn case_insensitive_compare() {
    assert!(eq_icase("Bearer", "bearer"));
    assert!(eq_icase("BEARER", "Bearer"));
    assert!(!eq_icase("Bearer", "Bearer2"));
    assert!(!eq_icase("Bearers", "Bearer"));
}

#[test]
fn sock_path_appends_leaf() {
    assert_eq!(sock_path("/tmp/cache"), "/tmp/cache/pizauth.sock");
    assert_eq!(sock_path("/tmp/cache/"), "/tmp/cache/pizauth.sock");
}
