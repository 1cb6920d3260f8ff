//! Verified encoders used by the authorization flow: base64url without
//! padding (PKCE verifiers, CSRF nonces, code challenges), percent-encoding
//! and -decoding of URL query components, and decimal rendering of numbers.
//!
//! Every encoder works on bytes; all outputs are ASCII.

use vstd::prelude::*;

verus! {

/// Every byte is ASCII.
pub open spec fn all_ascii(s: Seq<u8>) -> bool {
    forall|i: int| 0 <= i < s.len() ==> s[i] < 128
}

// ---------------------------------------------------------------------
// base64url, unpadded
// ---------------------------------------------------------------------

/// The base64url alphabet: the ASCII byte standing for a 6-bit value.
pub open spec fn b64_digit(v: u8) -> u8 {
    if v < 26 {
        (65 + v) as u8  // 'A'..='Z'
    } else if v < 52 {
        (71 + v) as u8  // 'a'..='z'
    } else if v < 62 {
        (v - 4) as u8  // '0'..='9'
    } else if v == 62 {
        45u8  // '-'
    } else {
        95u8  // '_'
    }
}

/// Unpadded base64url of a byte sequence, as ASCII bytes.
pub open spec fn b64url_of(s: Seq<u8>) -> Seq<u8>
    decreases s.len(),
{
    if s.len() == 0 {
        Seq::empty()
    } else if s.len() == 1 {
        seq![b64_digit(s[0] >> 2), b64_digit((s[0] & 3) << 4)]
    } else if s.len() == 2 {
        seq![
            b64_digit(s[0] >> 2),
            b64_digit(((s[0] & 3) << 4) | (s[1] >> 4)),
            b64_digit((s[1] & 15) << 2),
        ]
    } else {
        seq![
            b64_digit(s[0] >> 2),
            b64_digit(((s[0] & 3) << 4) | (s[1] >> 4)),
            b64_digit(((s[1] & 15) << 2) | (s[2] >> 6)),
            b64_digit(s[2] & 63),
        ] + b64url_of(s.skip(3))
    }
}

proof fn lemma_b64_group_ranges(b0: u8, b1: u8, b2: u8)
    ensures
        b0 >> 2 < 64,
        (b0 & 3) << 4 < 64,
        ((b0 & 3) << 4) | (b1 >> 4) < 64,
        (b1 & 15) << 2 < 64,
        ((b1 & 15) << 2) | (b2 >> 6) < 64,
        b2 & 63 < 64,
{
    assert(b0 >> 2 < 64 && (b0 & 3) << 4 < 64 && ((b0 & 3) << 4) | (b1 >> 4) < 64
        && (b1 & 15) << 2 < 64 && ((b1 & 15) << 2) | (b2 >> 6) < 64 && b2 & 63 < 64)
        by (bit_vector);
}

fn b64_digit_x(v: u8) -> (r: u8)
    requires
        v < 64,
    ensures
        r == b64_digit(v),
{
    if v < 26 {
        65 + v
    } else if v < 52 {
        71 + v
    } else if v < 62 {
        v - 4
    } else if v == 62 {
        45
    } else {
        95
    }
}

fn b64url_from(bytes: &[u8], i: usize) -> (r: Vec<u8>)
    requires
        i <= bytes@.len(),
    ensures
        r@ == b64url_of(bytes@.skip(i as int)),
    decreases bytes@.len() - i,
{
    let n = bytes.len();
    let ghost s = bytes@.skip(i as int);
    let mut out: Vec<u8> = Vec::new();
    if i == n {
        assert(s =~= Seq::<u8>::empty());
        return out;
    }
    let b0 = bytes[i];
    assert(s[0] == b0);
    if i + 1 == n {
        proof {
            lemma_b64_group_ranges(b0, 0, 0);
        }
        out.push(b64_digit_x(b0 >> 2));
        out.push(b64_digit_x((b0 & 3) << 4));
        assert(out@ =~= b64url_of(s));
        return out;
    }
    let b1 = bytes[i + 1];
    assert(s[1] == b1);
    if i + 2 == n {
        proof {
            lemma_b64_group_ranges(b0, b1, 0);
        }
        out.push(b64_digit_x(b0 >> 2));
        out.push(b64_digit_x(((b0 & 3) << 4) | (b1 >> 4)));
        out.push(b64_digit_x((b1 & 15) << 2));
        assert(out@ =~= b64url_of(s));
        return out;
    }
    let b2 = bytes[i + 2];
    assert(s[2] == b2);
    proof {
        lemma_b64_group_ranges(b0, b1, b2);
    }
    out.push(b64_digit_x(b0 >> 2));
    out.push(b64_digit_x(((b0 & 3) << 4) | (b1 >> 4)));
    out.push(b64_digit_x(((b1 & 15) << 2) | (b2 >> 6)));
    out.push(b64_digit_x(b2 & 63));
    let mut tail = b64url_from(bytes, i + 3);
    assert(s.skip(3) =~= bytes@.skip(i + 3));
    out.append(&mut tail);
    assert(out@ =~= b64url_of(s));
    out
}

/// Unpadded base64url encoding.
pub fn b64url(bytes: &[u8]) -> (r: Vec<u8>)
    ensures
        r@ == b64url_of(bytes@),
{
    let r = b64url_from(bytes, 0);
    assert(bytes@.skip(0) =~= bytes@);
    r
}

/// Every base64url output byte is ASCII.
pub proof fn lemma_b64url_ascii(s: Seq<u8>)
    ensures
        all_ascii(b64url_of(s)),
    decreases s.len(),
{
    if s.len() > 2 {
        lemma_b64url_ascii(s.skip(3));
    }
}

// ---------------------------------------------------------------------
// percent-encoding
// ---------------------------------------------------------------------

/// RFC 3986 unreserved bytes, which percent-encoding leaves as they are.
pub open spec fn is_unreserved(b: u8) -> bool {
    (48 <= b <= 57) || (65 <= b <= 90) || (97 <= b <= 122) || b == 45 || b == 46 || b == 95
        || b == 126
}

/// Upper-case hexadecimal digit of a 4-bit value, as an ASCII byte.
pub open spec fn hex_digit(v: u8) -> u8 {
    if v < 10 {
        (48 + v) as u8
    } else {
        (55 + v) as u8
    }
}

/// Percent-encoding of a byte sequence: unreserved bytes kept, every other
/// byte written `%XX` with upper-case hexadecimal digits.
pub open spec fn pct_of(s: Seq<u8>) -> Seq<u8>
    decreases s.len(),
{
    if s.len() == 0 {
        Seq::empty()
    } else {
        (if is_unreserved(s[0]) {
            seq![s[0]]
        } else {
            seq![37u8, hex_digit(s[0] >> 4), hex_digit(s[0] & 15)]
        }) + pct_of(s.skip(1))
    }
}

fn is_unreserved_x(b: u8) -> (r: bool)
    ensures
        r == is_unreserved(b),
{
    (48 <= b && b <= 57) || (65 <= b && b <= 90) || (97 <= b && b <= 122) || b == 45 || b == 46
        || b == 95 || b == 126
}

fn hex_digit_x(v: u8) -> (r: u8)
    requires
        v < 16,
    ensures
        r == hex_digit(v),
{
    if v < 10 {
        48 + v
    } else {
        55 + v
    }
}

fn pct_from(bytes: &[u8], i: usize) -> (r: Vec<u8>)
    requires
        i <= bytes@.len(),
    ensures
        r@ == pct_of(bytes@.skip(i as int)),
    decreases bytes@.len() - i,
{
    let ghost s = bytes@.skip(i as int);
    let mut out: Vec<u8> = Vec::new();
    if i == bytes.len() {
        assert(s =~= Seq::<u8>::empty());
        return out;
    }
    let b = bytes[i];
    assert(s[0] == b);
    if is_unreserved_x(b) {
        out.push(b);
    } else {
        assert(b >> 4 < 16 && b & 15 < 16) by (bit_vector);
        out.push(37);
        out.push(hex_digit_x(b >> 4));
        out.push(hex_digit_x(b & 15));
    }
    let mut tail = pct_from(bytes, i + 1);
    assert(s.skip(1) =~= bytes@.skip(i + 1));
    out.append(&mut tail);
    assert(out@ =~= pct_of(s));
    out
}

/// Percent-encode a byte sequence.
pub fn pct(bytes: &[u8]) -> (r: Vec<u8>)
    ensures
        r@ == pct_of(bytes@),
{
    let r = pct_from(bytes, 0);
    assert(bytes@.skip(0) =~= bytes@);
    r
}

/// Every percent-encoded output byte is ASCII.
pub proof fn lemma_pct_ascii(s: Seq<u8>)
    ensures
        all_ascii(pct_of(s)),
    decreases s.len(),
{
    if s.len() > 0 {
        lemma_pct_ascii(s.skip(1));
        let b = s[0];
        assert(b >> 4 < 16 && b & 15 < 16) by (bit_vector);
    }
}

// ---------------------------------------------------------------------
// percent-decoding
// ---------------------------------------------------------------------

/// The 4-bit value of an ASCII hexadecimal digit, upper or lower case.
pub open spec fn hex_val(b: u8) -> Option<u8> {
    if 48 <= b <= 57 {
        Some((b - 48) as u8)
    } else if 65 <= b <= 70 {
        Some((b - 55) as u8)
    } else if 97 <= b <= 102 {
        Some((b - 87) as u8)
    } else {
        None
    }
}

/// Percent-decoding of a query component: `%XX` becomes the byte `XX`,
/// `+` becomes a space, a malformed `%` sequence is kept as it stands.
pub open spec fn pct_decode_of(s: Seq<u8>) -> Seq<u8>
    decreases s.len(),
{
    if s.len() == 0 {
        Seq::empty()
    } else if s[0] == 37 && s.len() >= 3 && hex_val(s[1]) is Some && hex_val(s[2]) is Some {
        seq![((hex_val(s[1]).unwrap() * 16) + hex_val(s[2]).unwrap()) as u8] + pct_decode_of(
            s.skip(3),
        )
    } else if s[0] == 43 {
        seq![32u8] + pct_decode_of(s.skip(1))
    } else {
        seq![s[0]] + pct_decode_of(s.skip(1))
    }
}

fn hex_val_x(b: u8) -> (r: Option<u8>)
    ensures
        r == hex_val(b),
{
    if 48 <= b && b <= 57 {
        Some(b - 48)
    } else if 65 <= b && b <= 70 {
        Some(b - 55)
    } else if 97 <= b && b <= 102 {
        Some(b - 87)
    } else {
        None
    }
}

fn pct_decode_from(bytes: &[u8], i: usize) -> (r: Vec<u8>)
    requires
        i <= bytes@.len(),
    ensures
        r@ == pct_decode_of(bytes@.skip(i as int)),
    decreases bytes@.len() - i,
{
    let ghost s = bytes@.skip(i as int);
    let mut out: Vec<u8> = Vec::new();
    if i == bytes.len() {
        assert(s =~= Seq::<u8>::empty());
        return out;
    }
    let b = bytes[i];
    assert(s[0] == b);
    if b == 37 && bytes.len() - i >= 3 {
        assert(s[1] == bytes@[i + 1] && s[2] == bytes@[i + 2]);
        let h = hex_val_x(bytes[i + 1]);
        let l = hex_val_x(bytes[i + 2]);
        if h.is_some() && l.is_some() {
            let hv = h.unwrap();
            let lv = l.unwrap();
            out.push(hv * 16 + lv);
            let mut tail = pct_decode_from(bytes, i + 3);
            assert(s.skip(3) =~= bytes@.skip(i + 3));
            out.append(&mut tail);
            assert(out@ =~= pct_decode_of(s));
            return out;
        }
    }
    if b == 43 {
        out.push(32);
    } else {
        out.push(b);
    }
    let mut tail = pct_decode_from(bytes, i + 1);
    assert(s.skip(1) =~= bytes@.skip(i + 1));
    out.append(&mut tail);
    assert(out@ =~= pct_decode_of(s));
    out
}

/// Percent-decode a query component.
pub fn pct_decode(bytes: &[u8]) -> (r: Vec<u8>)
    ensures
        r@ == pct_decode_of(bytes@),
{
    let r = pct_decode_from(bytes, 0);
    assert(bytes@.skip(0) =~= bytes@);
    r
}

// ---------------------------------------------------------------------
// decimal rendering
// ---------------------------------------------------------------------

/// Decimal digits of a non-negative number, as ASCII bytes.
pub open spec fn dec_of(n: int) -> Seq<u8>
    decreases n,
{
    if 0 <= n < 10 {
        seq![(48 + n) as u8]
    } else if n >= 10 {
        dec_of(n / 10) + seq![(48 + n % 10) as u8]
    } else {
        Seq::empty()
    }
}

/// Render a number in decimal.
pub fn u64_dec(n: u64) -> (r: Vec<u8>)
    ensures
        r@ == dec_of(n as int),
    decreases n,
{
    if n < 10 {
        let mut out: Vec<u8> = Vec::new();
        out.push(48 + n as u8);
        out
    } else {
        let mut out = u64_dec(n / 10);
        out.push(48 + (n % 10) as u8);
        out
    }
}

/// Decimal output is ASCII.
pub proof fn lemma_dec_ascii(n: int)
    ensures
        all_ascii(dec_of(n)),
    decreases n,
{
    if n >= 10 {
        lemma_dec_ascii(n / 10);
    }
}

// ---------------------------------------------------------------------
// ASCII case-insensitive comparison
// ---------------------------------------------------------------------

/// ASCII lower-casing of one character.
pub open spec fn lower_char(c: char) -> char {
    if 'A' <= c && c <= 'Z' {
        ((c as u32) + 32) as char
    } else {
        c
    }
}

pub open spec fn lower_seq(s: Seq<char>) -> Seq<char> {
    Seq::new(s.len(), |i: int| lower_char(s[i]))
}

fn lower_char_x(c: char) -> (r: char)
    ensures
        r == lower_char(c),
{
    if 'A' <= c && c <= 'Z' {
        ((c as u8) + 32) as char
    } else {
        c
    }
}

/// Compare two strings up to ASCII case.
pub fn eq_icase(a: &str, b: &str) -> (r: bool)
    ensures
        r == (lower_seq(a@) == lower_seq(b@)),
{
    let na = a.unicode_len();
    let nb = b.unicode_len();
    if na != nb {
        assert(lower_seq(a@).len() != lower_seq(b@).len());
        return false;
    }
    for i in 0..na
        invariant
            na == a@.len() == b@.len(),
            forall|k: int| 0 <= k < i ==> lower_seq(a@)[k] == lower_seq(b@)[k],
    {
        let ca = lower_char_x(a.get_char(i));
        let cb = lower_char_x(b.get_char(i));
        if ca != cb {
            assert(lower_seq(a@)[i as int] != lower_seq(b@)[i as int]);
            return false;
        }
        assert(lower_seq(a@)[i as int] == lower_seq(b@)[i as int]);
    }
    assert(lower_seq(a@) =~= lower_seq(b@));
    true
}

} // verus!
