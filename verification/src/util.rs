//! Encodings, digests and random numbers.

use base64::Engine;
use hmac::KeyInit;
use hmac::Mac;
use md5::Digest;
use vstd::prelude::*;
use vstd::string::*;

verus! {

// ---------------------------------------------------------------------------
// Hexadecimal
// ---------------------------------------------------------------------------

/// The lower-case hexadecimal digit of a number below 16.
pub open spec fn hex_digit(n: int) -> char {
    if n < 10 {
        (48 + n) as char
    } else {
        (87 + n) as char
    }
}

/// The bytes in hexadecimal, two lower-case digits each.
pub open spec fn hex_text(b: Seq<u8>) -> Seq<char> {
    Seq::new(
        2 * b.len(),
        |i: int|
            if i % 2 == 0 {
                hex_digit(b[i / 2] as int / 16)
            } else {
                hex_digit(b[i / 2] as int % 16)
            },
    )
}

/// The hexadecimal digit of a number below 16.
fn hex_char(n: u8) -> (c: char)
    requires
        n < 16,
    ensures
        c == hex_digit(n as int),
{
    if n < 10 {
        (48 + n) as char
    } else {
        (87 + n) as char
    }
}

/// The bytes in hexadecimal, two lower-case digits each.
pub fn hex(b: &[u8]) -> (r: String)
    ensures
        r@ == hex_text(b@),
{
    let mut r = String::new();
    let mut i: usize = 0;
    assert(r@ =~= hex_text(b@.take(0)));
    while i < b.len()
        invariant
            i <= b.len(),
            r@ == hex_text(b@.take(i as int)),
        decreases b.len() - i,
    {
        let ghost before = hex_text(b@.take(i as int));
        r.push(hex_char(b[i] / 16));
        r.push(hex_char(b[i] % 16));
        i += 1;
        let ghost after = hex_text(b@.take(i as int));
        assert(r@ =~= after) by {
            assert forall|k: int| 0 <= k < 2 * i implies r@[k] == after[k] by {
                if k < 2 * i - 2 {
                    assert(r@[k] == before[k]);
                    assert(b@.take(i as int)[k / 2] == b@.take(i - 1)[k / 2]);
                } else {
                    assert(k / 2 == i - 1);
                }
            }
        }
    }
    assert(b@.take(i as int) =~= b@);
    r
}

/// Every character of a text in hexadecimal is a digit or one of `a` to `f`.
pub proof fn lemma_hex_chars(b: Seq<u8>)
    ensures
        hex_text(b).len() == 2 * b.len(),
        forall|i: int|
            0 <= i < hex_text(b).len() ==> {
                let c = #[trigger] hex_text(b)[i];
                '0' <= c <= '9' || 'a' <= c <= 'f'
            },
{
}

// ---------------------------------------------------------------------------
// Base 64
// ---------------------------------------------------------------------------

/// The character of a number below 64 in the standard alphabet of base 64.
pub open spec fn base64_digit(n: int) -> char {
    if n < 26 {
        (65 + n) as char
    } else if n < 52 {
        (71 + n) as char
    } else if n < 62 {
        (n - 4) as char
    } else if n == 62 {
        '+'
    } else {
        '/'
    }
}

/// A byte of the input, 0 behind its end.
pub open spec fn byte_or_zero(b: Seq<u8>, i: int) -> int {
    if i < b.len() {
        b[i] as int
    } else {
        0
    }
}

/// The character at position `i` of the base 64 text: three bytes make a number of 24 bits, which
/// four characters give, six bits each, the highest first; a character of which no bit comes from
/// the input is `=`.
pub open spec fn base64_char(b: Seq<u8>, i: int) -> char {
    let at = i / 4 * 3;
    let bits = byte_or_zero(b, at) * 65536 + byte_or_zero(b, at + 1) * 256 + byte_or_zero(
        b,
        at + 2,
    );
    if at + i % 4 > b.len() {
        '='
    } else if i % 4 == 0 {
        base64_digit(bits / 262144)
    } else if i % 4 == 1 {
        base64_digit(bits / 4096 % 64)
    } else if i % 4 == 2 {
        base64_digit(bits / 64 % 64)
    } else {
        base64_digit(bits % 64)
    }
}

/// The bytes in base 64 with the standard alphabet and padding (RFC 4648, section 4).
pub open spec fn base64_text(b: Seq<u8>) -> Seq<char> {
    Seq::new(((b.len() + 2) / 3 * 4) as nat, |i: int| base64_char(b, i))
}

/// Wraps `Engine::encode` of `base64::engine::general_purpose::STANDARD`: the text is the input
/// in base 64 with the standard alphabet and padding. An input whose text is too long for an
/// allocation is left out.
#[verifier::external_body]
pub(crate) fn base64_encode(b: &[u8]) -> (r: String)
    requires
        b@.len() <= isize::MAX / 2,
    ensures
        r@ == base64_text(b@),
{
    base64::engine::general_purpose::STANDARD.encode(b)
}

/// Every character of a text in base 64 is a letter, a digit, or one of `+`, `/` and `=`.
pub proof fn lemma_base64_chars(b: Seq<u8>)
    ensures
        forall|i: int|
            0 <= i < base64_text(b).len() ==> {
                let c = #[trigger] base64_text(b)[i];
                'A' <= c <= 'Z' || 'a' <= c <= 'z' || '0' <= c <= '9' || c == '+' || c == '/' || c
                    == '='
            },
{
    assert forall|i: int| 0 <= i < base64_text(b).len() implies {
        let c = #[trigger] base64_text(b)[i];
        'A' <= c <= 'Z' || 'a' <= c <= 'z' || '0' <= c <= '9' || c == '+' || c == '/' || c == '='
    } by {
        let at = i / 4 * 3;
        let bits = byte_or_zero(b, at) * 65536 + byte_or_zero(b, at + 1) * 256 + byte_or_zero(
            b,
            at + 2,
        );
        assert(0 <= bits < 16777216);
        assert(0 <= bits / 262144 < 64);
        assert(base64_text(b)[i] == base64_char(b, i));
    }
}

// ---------------------------------------------------------------------------
// Header values
// ---------------------------------------------------------------------------

/// A text can be the value of an HTTP header: no control character but the tab stands in it.
pub open spec fn legal_header(t: Seq<char>) -> bool {
    forall|i: int|
        0 <= i < t.len() ==> ({
            let n = #[trigger] t[i] as u32;
            n >= 32 && n != 127 || n == 9
        })
}

/// Wraps `HeaderValue::from_str` of the crate `http`, which `reqwest` re-exports: it accepts a
/// text in whose UTF-8 bytes no control character but the tab stands. A character that is not
/// ASCII has no such byte.
#[verifier::external_body]
pub(crate) fn header_accepts(t: &str) -> (r: bool)
    ensures
        r == legal_header(t@),
{
    reqwest::header::HeaderValue::from_str(t).is_ok()
}

// ---------------------------------------------------------------------------
// Digests
// ---------------------------------------------------------------------------

/// The MD5 digest of some bytes.
pub uninterp spec fn md5_of(b: Seq<u8>) -> Seq<u8>;

/// The HMAC of some bytes with SHA-256 under a key.
pub uninterp spec fn hmac_sha256_of(key: Seq<u8>, b: Seq<u8>) -> Seq<u8>;

/// Wraps `Digest::digest` of `md5::Md5`. The digest is named `md5_of`, and has 16 bytes.
#[verifier::external_body]
pub(crate) fn md5_digest(b: &[u8]) -> (r: Vec<u8>)
    ensures
        r@ == md5_of(b@),
        r@.len() == 16,
{
    md5::Md5::digest(b).to_vec()
}

/// Wraps `hmac::Hmac` with `sha2::Sha256`: `new_from_slice`, which takes a key of any length,
/// `update` and `finalize`. The code is named `hmac_sha256_of`, and has 32 bytes.
#[verifier::external_body]
pub(crate) fn hmac_sha256(key: &[u8], b: &[u8]) -> (r: Vec<u8>)
    ensures
        r@ == hmac_sha256_of(key@, b@),
        r@.len() == 32,
{
    let mut mac = hmac::Hmac::<sha2::Sha256>::new_from_slice(key).expect("hmac key");
    mac.update(b);
    mac.finalize().into_bytes().to_vec()
}

// ---------------------------------------------------------------------------
// Random numbers
// ---------------------------------------------------------------------------

/// Wraps `rand::random` for a `u8`. Nothing is known of the number.
#[verifier::external_body]
pub(crate) fn random_u8() -> u8 {
    rand::random::<u8>()
}

/// Wraps `rand::random` for a `u32`. Nothing is known of the number.
#[verifier::external_body]
pub(crate) fn random_u32() -> u32 {
    rand::random::<u32>()
}

/// Wraps `rand::random` for a `u64`. Nothing is known of the number.
#[verifier::external_body]
pub(crate) fn random_u64() -> u64 {
    rand::random::<u64>()
}

/// `n` random bytes.
pub fn random_bytes(n: usize) -> (r: Vec<u8>)
    ensures
        r@.len() == n,
{
    let mut r: Vec<u8> = Vec::new();
    while r.len() < n
        invariant
            r.len() <= n,
        decreases n - r.len(),
    {
        r.push(random_u8());
    }
    r
}

} // verus!
