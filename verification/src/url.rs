//! Percent-encoding.
use crate::text;
use vstd::prelude::*;

verus! {

/// A byte that needs no encoding: a letter, a digit, `-`, `.`, `_` or `~`.
pub open spec fn is_plain(b: u8) -> bool {
    ||| 0x30 <= b <= 0x39
    ||| 0x41 <= b <= 0x5a
    ||| 0x61 <= b <= 0x7a
    ||| b == 0x2d
    ||| b == 0x2e
    ||| b == 0x5f
    ||| b == 0x7e
}

/// The upper-case hexadecimal digit of a value below sixteen.
pub open spec fn hex_char(v: int) -> char {
    if v < 10 {
        (0x30 + v) as char
    } else {
        (0x41 + v - 10) as char
    }
}

/// How one byte is encoded.
pub open spec fn escape_byte(b: u8) -> Seq<char> {
    if is_plain(b) {
        seq![b as char]
    } else {
        seq!['%', hex_char(b as int / 16), hex_char(b as int % 16)]
    }
}

pub open spec fn escape(bytes: Seq<u8>) -> Seq<char>
    decreases bytes.len(),
{
    if bytes.len() == 0 {
        Seq::empty()
    } else {
        escape_byte(bytes[0]) + escape(bytes.drop_first())
    }
}

/// A text with every byte of its UTF-8 encoding encoded.
pub open spec fn encoded(s: Seq<char>) -> Seq<char> {
    escape(vstd::utf8::encode_utf8(s))
}

/// The value of a hexadecimal digit.
pub open spec fn hex_value(b: u8) -> Option<int> {
    if 0x30 <= b <= 0x39 {
        Some(b - 0x30)
    } else if 0x41 <= b <= 0x46 {
        Some(b - 0x41 + 10)
    } else if 0x61 <= b <= 0x66 {
        Some(b - 0x61 + 10)
    } else {
        None
    }
}

/// The bytes with each `%` and its two digits exchanged for the byte they stand
/// for. A `%` without two digits stays as it is.
pub open spec fn unescape(bytes: Seq<u8>) -> Seq<u8>
    decreases bytes.len(),
{
    if bytes.len() == 0 {
        Seq::empty()
    } else if bytes[0] != 0x25 {
        seq![bytes[0]] + unescape(bytes.skip(1))
    } else if bytes.len() < 3 {
        bytes
    } else {
        match (hex_value(bytes[1]), hex_value(bytes[2])) {
            (Some(high), Some(low)) => seq![(high * 16 + low) as u8] + unescape(bytes.skip(3)),
            (Some(_), None) => seq![bytes[0], bytes[1]] + unescape(bytes.skip(2)),
            (None, _) => seq![bytes[0]] + unescape(bytes.skip(1)),
        }
    }
}

/// What a text decodes to, where the bytes are UTF-8.
pub open spec fn decoded(s: Seq<char>) -> Option<Seq<char>> {
    let bytes = unescape(vstd::utf8::encode_utf8(s));
    if vstd::utf8::valid_utf8(bytes) {
        Some(vstd::utf8::decode_utf8(bytes))
    } else {
        None
    }
}

/// `urlencoding::encode`: every byte of the text but letters, digits, `-`, `.`,
/// `_` and `~` becomes `%` and two upper-case hexadecimal digits.
#[verifier::external_body]
pub(crate) fn encode(s: &str) -> (r: String)
    ensures
        r@ == encoded(s@),
{
    urlencoding::encode(s).into_owned()
}

/// `urlencoding::decode`: `%` and two hexadecimal digits become the byte they
/// stand for, any other byte stays; the result fails where it is no UTF-8.
#[verifier::external_body]
pub(crate) fn decode(s: &str) -> (r: Option<String>)
    ensures
        text::opt_view(r) == decoded(s@),
{
    urlencoding::decode(s).ok().map(|d| d.into_owned())
}

// ---------------------------------------------------------------------------
// Laws
// ---------------------------------------------------------------------------

pub open spec fn as_bytes(s: Seq<char>) -> Seq<u8> {
    Seq::new(s.len(), |i: int| s[i] as u8)
}

/// An encoded text is made of plain characters and `%` alone.
pub proof fn encoded_text_is_plain(bytes: Seq<u8>)
    ensures
        forall|i: int|
            0 <= i < escape(bytes).len() ==> {
                let c = #[trigger] escape(bytes)[i];
                c == '%' || (c as u32 <= 0x7f && is_plain(c as u8))
            },
        bytes.len() > 0 ==> escape(bytes).len() > 0,
        vstd::utf8::is_ascii_chars(escape(bytes)),
    decreases bytes.len(),
{
    if bytes.len() > 0 {
        let first = escape_byte(bytes[0]);
        let rest = escape(bytes.drop_first());
        encoded_text_is_plain(bytes.drop_first());
        let all = escape(bytes);
        assert forall|i: int| 0 <= i < all.len() implies {
            let c = #[trigger] all[i];
            c == '%' || (c as u32 <= 0x7f && is_plain(c as u8))
        } by {
            if i < first.len() {
                assert(all[i] == first[i]);
            } else {
                assert(all[i] == rest[i - first.len()]);
            }
        }
    }
}

pub proof fn ascii_encodes_to_itself(s: Seq<char>)
    requires
        vstd::utf8::is_ascii_chars(s),
    ensures
        vstd::utf8::encode_utf8(s) == as_bytes(s),
{
    vstd::utf8::is_ascii_chars_encode_utf8(s);
    assert(vstd::utf8::encode_utf8(s) =~= as_bytes(s));
}

proof fn unescaping_undoes_escaping(bytes: Seq<u8>)
    ensures
        unescape(as_bytes(escape(bytes))) == bytes,
    decreases bytes.len(),
{
    let shown = as_bytes(escape(bytes));
    if bytes.len() == 0 {
        assert(shown =~= Seq::<u8>::empty());
    } else {
        let b = bytes[0];
        let rest = bytes.drop_first();
        unescaping_undoes_escaping(rest);
        let tail = as_bytes(escape(rest));
        if is_plain(b) {
            assert(shown =~= seq![b] + tail);
            assert(shown.skip(1) =~= tail);
            assert(unescape(shown) =~= seq![b] + unescape(tail));
        } else {
            let high = b as int / 16;
            let low = b as int % 16;
            let h = hex_char(high) as u8;
            let l = hex_char(low) as u8;
            assert(shown =~= seq![0x25u8, h, l] + tail);
            assert(hex_value(h) == Some(high));
            assert(hex_value(l) == Some(low));
            assert(shown.skip(3) =~= tail);
            assert(high * 16 + low == b);
            assert(unescape(shown) =~= seq![b] + unescape(tail));
        }
        assert(seq![b] + rest =~= bytes);
    }
}

/// Decoding gives back what was encoded.
pub proof fn decoding_undoes_encoding(s: Seq<char>)
    ensures
        decoded(encoded(s)) == Some(s),
{
    let bytes = vstd::utf8::encode_utf8(s);
    encoded_text_is_plain(bytes);
    ascii_encodes_to_itself(encoded(s));
    unescaping_undoes_escaping(bytes);
    vstd::utf8::encode_utf8_valid_utf8(s);
    vstd::utf8::encode_utf8_decode_utf8(s);
}

} // verus!
