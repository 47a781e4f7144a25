//! Bytes as text and back.
use crate::text;
use base64::Engine as _;
use vstd::prelude::*;

verus! {

/// The character for a value below sixty-four in the alphabet for URLs.
pub open spec fn base64url_char(v: int) -> char {
    if v < 26 {
        ('A' as int + v) as char
    } else if v < 52 {
        ('a' as int + (v - 26)) as char
    } else if v < 62 {
        ('0' as int + (v - 52)) as char
    } else if v == 62 {
        '-'
    } else {
        '_'
    }
}

/// A byte, or zero behind the last one.
pub open spec fn byte_at(bytes: Seq<u8>, i: int) -> int {
    if 0 <= i < bytes.len() {
        bytes[i] as int
    } else {
        0
    }
}

/// The six bits that the character `k` stands for: four characters share three
/// bytes.
pub open spec fn six_bits(bytes: Seq<u8>, k: int) -> int {
    let i = k / 4 * 3;
    if k % 4 == 0 {
        byte_at(bytes, i) / 4
    } else if k % 4 == 1 {
        byte_at(bytes, i) % 4 * 16 + byte_at(bytes, i + 1) / 16
    } else if k % 4 == 2 {
        byte_at(bytes, i + 1) % 16 * 4 + byte_at(bytes, i + 2) / 64
    } else {
        byte_at(bytes, i + 2) % 64
    }
}

/// How many characters so many bytes take without padding.
pub open spec fn base64url_len(n: nat) -> nat {
    (n * 4 + 2) / 3
}

/// Bytes in Base64 with the alphabet for URLs, without padding.
pub open spec fn base64url(bytes: Seq<u8>) -> Seq<char> {
    Seq::new(base64url_len(bytes.len()), |k: int| base64url_char(six_bits(bytes, k)))
}

/// A character of the alphabet for URLs.
pub open spec fn is_base64url_char(c: char) -> bool {
    'A' <= c <= 'Z' || 'a' <= c <= 'z' || '0' <= c <= '9' || c == '-' || c == '_'
}

pub open spec fn is_base64url_text(s: Seq<char>) -> bool {
    forall|i: int| 0 <= i < s.len() ==> is_base64url_char(#[trigger] s[i])
}

/// Bytes in Base64 are written with the characters of the alphabet.
pub proof fn base64url_is_plain(bytes: Seq<u8>)
    ensures
        is_base64url_text(base64url(bytes)),
{
    let s = base64url(bytes);
    assert forall|k: int| 0 <= k < s.len() implies is_base64url_char(#[trigger] s[k]) by {
        assert(0 <= six_bits(bytes, k) < 64);
    }
}

proof fn chars_keep_apart(v: int, w: int)
    requires
        0 <= v < 64,
        0 <= w < 64,
        base64url_char(v) == base64url_char(w),
    ensures
        v == w,
{
}

/// No two byte strings have the same Base64.
pub proof fn base64url_keeps_apart(a: Seq<u8>, b: Seq<u8>)
    requires
        base64url(a) == base64url(b),
    ensures
        a == b,
{
    let s = base64url(a);
    assert(s.len() == base64url_len(a.len()) && s.len() == base64url_len(b.len()));
    assert(a.len() == b.len());
    assert forall|k: int| 0 <= k < s.len() implies six_bits(a, k) == #[trigger] six_bits(b, k) by {
        assert(s[k] == base64url_char(six_bits(a, k)));
        assert(s[k] == base64url(b)[k]);
        chars_keep_apart(six_bits(a, k), six_bits(b, k));
    }
    assert forall|i: int| 0 <= i < a.len() implies a[i] == b[i] by {
        let k = i / 3 * 4 + i % 3;
        assert(0 <= k && k + 1 < s.len());
        assert(six_bits(a, k) == six_bits(b, k));
        assert(six_bits(a, k + 1) == six_bits(b, k + 1));
        assert(byte_at(a, i) == a[i] && byte_at(b, i) == b[i]);
        assert(k / 4 == i / 3 && k % 4 == i % 3 && (k + 1) / 4 == i / 3 && (k + 1) % 4 == i % 3 + 1);
    }
    assert(a =~= b);
}

/// The bytes that a text stands for in Base64; `None` for a text that is none.
pub open spec fn base64url_bytes(s: Seq<char>) -> Option<Seq<u8>> {
    if exists|b: Seq<u8>| base64url(b) == s {
        Some(choose|b: Seq<u8>| base64url(b) == s)
    } else {
        None
    }
}

/// What was written in Base64 reads back.
pub proof fn base64url_reads_back(bytes: Seq<u8>)
    ensures
        base64url_bytes(base64url(bytes)) == Some(bytes),
{
    let s = base64url(bytes);
    let found = choose|b: Seq<u8>| base64url(b) == s;
    assert(base64url(found) == s);
    base64url_keeps_apart(found, bytes);
}

/// `base64`'s `URL_SAFE_NO_PAD.encode`: the bytes in Base64.
#[verifier::external_body]
pub(crate) fn encode_base64url(bytes: &Vec<u8>) -> (r: String)
    ensures
        r@ == base64url(bytes@),
{
    base64::engine::general_purpose::URL_SAFE_NO_PAD.encode(bytes)
}

/// `base64`'s `URL_SAFE_NO_PAD.decode`: the bytes whose Base64 the text is. It
/// takes no padding and no bits beyond the last byte, so that any other text is
/// refused.
#[verifier::external_body]
fn decode_base64url(s: &str) -> (r: Option<Vec<u8>>)
    ensures
        match r {
            Some(b) => base64url(b@) == s@,
            None => forall|b: Seq<u8>| #[trigger] base64url(b) != s@,
        },
{
    base64::engine::general_purpose::URL_SAFE_NO_PAD.decode(s).ok()
}

/// The SHA-256 digest of bytes.
pub uninterp spec fn sha256(bytes: Seq<u8>) -> Seq<u8>;

/// `sha2`'s `Sha256::digest`: thirty-two bytes that are those of the input alone.
/// Not stated: how they are computed.
#[verifier::external_body]
pub(crate) fn digest_sha256(bytes: &Vec<u8>) -> (r: Vec<u8>)
    ensures
        r@ == sha256(bytes@),
        r@.len() == 32,
{
    <sha2::Sha256 as sha2::Digest>::digest(bytes.as_slice()).to_vec()
}

/// `String::from_utf8`: the text that the bytes encode, where they are UTF-8.
#[verifier::external_body]
pub(crate) fn decode_utf8(bytes: Vec<u8>) -> (r: Option<String>)
    ensures
        match r {
            Some(s) => vstd::utf8::valid_utf8(bytes@) && s@ == vstd::utf8::decode_utf8(bytes@),
            None => !vstd::utf8::valid_utf8(bytes@),
        },
{
    String::from_utf8(bytes).ok()
}

/// The text that a Base64 text stands for, where it is one.
pub open spec fn base64url_text(s: Seq<char>) -> Option<Seq<char>> {
    match base64url_bytes(s) {
        Some(b) => if vstd::utf8::valid_utf8(b) {
            Some(vstd::utf8::decode_utf8(b))
        } else {
            None
        },
        None => None,
    }
}

pub fn decode_base64url_text(s: &str) -> (r: Option<String>)
    ensures
        text::opt_view(r) == base64url_text(s@),
{
    match decode_base64url(s) {
        Some(b) => {
            proof {
                base64url_reads_back(b@);
            }
            decode_utf8(b)
        },
        None => None,
    }
}

/// The text of bytes that are no UTF-8, with a replacement character for what
/// cannot be read.
pub uninterp spec fn lossy_text(bytes: Seq<u8>) -> Seq<char>;

/// The text of any bytes: what they encode, as far as they can be read.
pub open spec fn text_of(bytes: Seq<u8>) -> Seq<char> {
    if vstd::utf8::valid_utf8(bytes) {
        vstd::utf8::decode_utf8(bytes)
    } else {
        lossy_text(bytes)
    }
}

/// `String::from_utf8_lossy`. Claimed: bytes that are UTF-8 give the text that they
/// encode, and of others the outcome is that of the bytes alone. Not stated: where
/// those are replaced.
#[verifier::external_body]
pub(crate) fn decode_lossy(bytes: &Vec<u8>) -> (r: String)
    ensures
        vstd::utf8::valid_utf8(bytes@) ==> r@ == vstd::utf8::decode_utf8(bytes@),
        !vstd::utf8::valid_utf8(bytes@) ==> r@ == lossy_text(bytes@),
{
    String::from_utf8_lossy(bytes).into_owned()
}

} // verus!
