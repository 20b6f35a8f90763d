//! Percent-encoding of path and query components.

use vstd::prelude::*;
use vstd::utf8::*;

use crate::text::{chars_of, push_char};

verus! {

/// Characters that pass through unencoded: ASCII letters and digits and `-`, `_`, `.`, `~`.
pub open spec fn is_unreserved(c: char) -> bool {
    ||| 'A' <= c <= 'Z'
    ||| 'a' <= c <= 'z'
    ||| '0' <= c <= '9'
    ||| c == '-'
    ||| c == '_'
    ||| c == '.'
    ||| c == '~'
}

/// The upper-case hexadecimal digit for `n` (`0 <= n < 16`).
pub open spec fn hex_digit(n: int) -> char {
    if n < 10 {
        (n + 48) as char
    } else {
        (n + 55) as char
    }
}

/// `%XX` for one byte, with upper-case hexadecimal digits.
pub open spec fn pct_byte(b: u8) -> Seq<char> {
    seq!['%', hex_digit(b as int / 16), hex_digit(b as int % 16)]
}

/// `%XX` for each byte in order.
pub open spec fn pct_bytes(bs: Seq<u8>) -> Seq<char>
    decreases bs.len(),
{
    if bs.len() == 0 {
        seq![]
    } else {
        pct_byte(bs[0]) + pct_bytes(bs.drop_first())
    }
}

/// One character encoded: unreserved characters stand for themselves, any other
/// character becomes `%XX` for each byte of its UTF-8 encoding.
pub open spec fn encode_char(c: char) -> Seq<char> {
    if is_unreserved(c) {
        seq![c]
    } else {
        pct_bytes(encode_scalar(c as u32))
    }
}

/// The percent-encoding of `s`, character by character.
pub open spec fn url_encoded(s: Seq<char>) -> Seq<char>
    decreases s.len(),
{
    if s.len() == 0 {
        seq![]
    } else {
        encode_char(s[0]) + url_encoded(s.drop_first())
    }
}

/// Whether `c` passes through unencoded.
pub fn unreserved(c: char) -> (r: bool)
    ensures
        r == is_unreserved(c),
{
    ('A' <= c && c <= 'Z') || ('a' <= c && c <= 'z') || ('0' <= c && c <= '9') || c == '-' || c
        == '_' || c == '.' || c == '~'
}

/// The upper-case hexadecimal digit for `n`.
fn hex_upper(n: u8) -> (c: char)
    requires
        n < 16,
    ensures
        c == hex_digit(n as int),
{
    if n < 10 {
        (n + 48) as char
    } else {
        (n + 55) as char
    }
}

/// The UTF-8 encoding of one character (`char::encode_utf8`).
pub fn utf8_of(c: char) -> (v: Vec<u8>)
    ensures
        v@ == encode_scalar(c as u32),
{
    let s = c as u32;
    if s <= 0x7F {
        vec![(s & 0x7F) as u8]
    } else if s <= 0x7FF {
        vec![0xC0 | ((s >> 6) & 0x1F) as u8, 0x80 | (s & 0x3F) as u8]
    } else if s <= 0xFFFF {
        vec![0xE0 | ((s >> 12) & 0x0F) as u8, 0x80 | ((s >> 6) & 0x3F) as u8, 0x80 | (s & 0x3F) as u8]
    } else {
        vec![
            0xF0 | ((s >> 18) & 0x7) as u8,
            0x80 | ((s >> 12) & 0x3F) as u8,
            0x80 | ((s >> 6) & 0x3F) as u8,
            0x80 | (s & 0x3F) as u8,
        ]
    }
}

/// Percent-encodes `s`: ASCII letters, digits and `-_.~` are kept, every other
/// character is written as `%XX` for each byte of its UTF-8 encoding.
pub fn urlencode(s: &str) -> (r: String)
    ensures
        r@ == url_encoded(s@),
{
    let sv = chars_of(s);
    let mut out = String::new();
    let mut i: usize = 0;
    assert(s@.skip(0) =~= s@);
    while i < sv.len()
        invariant
            sv@ == s@,
            i <= sv@.len(),
            out@ + url_encoded(s@.skip(i as int)) == url_encoded(s@),
        decreases sv.len() - i,
    {
        let ch = sv[i];
        let ghost before = out@;
        assert(s@.skip(i as int).drop_first() =~= s@.skip(i + 1));
        if unreserved(ch) {
            push_char(&mut out, ch);
        } else {
            let bytes = utf8_of(ch);
            let mut j: usize = 0;
            assert(bytes@.skip(0) =~= bytes@);
            while j < bytes.len()
                invariant
                    j <= bytes@.len(),
                    out@ + pct_bytes(bytes@.skip(j as int)) == before + pct_bytes(bytes@),
                decreases bytes.len() - j,
            {
                let b = bytes[j];
                assert(bytes@.skip(j as int).drop_first() =~= bytes@.skip(j + 1));
                push_char(&mut out, '%');
                push_char(&mut out, hex_upper(b / 16));
                push_char(&mut out, hex_upper(b % 16));
                j = j + 1;
            }
            assert(bytes@.skip(j as int) =~= Seq::<u8>::empty());
        }
        i = i + 1;
    }
    assert(s@.skip(i as int) =~= Seq::<char>::empty());
    out
}


/// The numeric value of a hexadecimal digit (either case).
pub open spec fn hex_value(c: char) -> int {
    if '0' <= c <= '9' {
        c as int - 48
    } else if 'A' <= c <= 'F' {
        c as int - 55
    } else if 'a' <= c <= 'f' {
        c as int - 87
    } else {
        0
    }
}

/// Percent-decoding into bytes: `%XX` stands for the byte `XX`, any other
/// character for the bytes of its UTF-8 encoding.
pub open spec fn percent_decoded(t: Seq<char>) -> Seq<u8>
    decreases t.len(),
{
    if t.len() == 0 {
        seq![]
    } else if t[0] == '%' && t.len() >= 3 {
        seq![(hex_value(t[1]) * 16 + hex_value(t[2])) as u8] + percent_decoded(t.skip(3))
    } else {
        encode_scalar(t[0] as u32) + percent_decoded(t.skip(1))
    }
}

proof fn lemma_hex_digit(n: int)
    requires
        0 <= n < 16,
    ensures
        is_unreserved(hex_digit(n)),
        hex_digit(n) != '%',
        hex_value(hex_digit(n)) == n,
{
}

proof fn lemma_pct_bytes_url_safe(bs: Seq<u8>)
    ensures
        forall|i: int|
            0 <= i < pct_bytes(bs).len() ==> is_unreserved(#[trigger] pct_bytes(bs)[i])
                || pct_bytes(bs)[i] == '%',
    decreases bs.len(),
{
    if bs.len() > 0 {
        lemma_hex_digit(bs[0] as int / 16);
        lemma_hex_digit(bs[0] as int % 16);
        lemma_pct_bytes_url_safe(bs.drop_first());
        let head = pct_byte(bs[0]);
        let tail = pct_bytes(bs.drop_first());
        assert forall|i: int|
            0 <= i < pct_bytes(bs).len() implies is_unreserved(#[trigger] pct_bytes(bs)[i])
                || pct_bytes(bs)[i] == '%' by {
            if i < 3 {
                assert(pct_bytes(bs)[i] == head[i]);
            } else {
                assert(pct_bytes(bs)[i] == tail[i - 3]);
            }
        }
    }
}

proof fn lemma_pct_bytes_decode(bs: Seq<u8>, t: Seq<char>)
    ensures
        percent_decoded(pct_bytes(bs) + t) == bs + percent_decoded(t),
    decreases bs.len(),
{
    if bs.len() == 0 {
        assert(pct_bytes(bs) + t =~= t);
        assert(bs + percent_decoded(t) =~= percent_decoded(t));
    } else {
        let b = bs[0];
        let rest = pct_bytes(bs.drop_first()) + t;
        let whole = pct_bytes(bs) + t;
        lemma_hex_digit(b as int / 16);
        lemma_hex_digit(b as int % 16);
        assert(whole =~= pct_byte(b) + rest);
        assert(whole.skip(3) =~= rest);
        assert((hex_value(whole[1]) * 16 + hex_value(whole[2])) as u8 == b);
        lemma_pct_bytes_decode(bs.drop_first(), t);
        assert(bs =~= seq![b] + bs.drop_first());
        assert(percent_decoded(whole) =~= bs + percent_decoded(t));
    }
}

/// A string made only of unreserved characters is its own encoding.
pub proof fn lemma_unreserved_unchanged(s: Seq<char>)
    requires
        forall|i: int| 0 <= i < s.len() ==> is_unreserved(#[trigger] s[i]),
    ensures
        url_encoded(s) == s,
    decreases s.len(),
{
    if s.len() > 0 {
        lemma_unreserved_unchanged(s.drop_first());
        assert(s =~= seq![s[0]] + s.drop_first());
    }
}

/// Every character of an encoding is an unreserved character or `%`.
pub proof fn lemma_encoded_url_safe(s: Seq<char>)
    ensures
        forall|i: int|
            0 <= i < url_encoded(s).len() ==> is_unreserved(#[trigger] url_encoded(s)[i])
                || url_encoded(s)[i] == '%',
    decreases s.len(),
{
    if s.len() > 0 {
        let head = encode_char(s[0]);
        let tail = url_encoded(s.drop_first());
        lemma_encoded_url_safe(s.drop_first());
        if !is_unreserved(s[0]) {
            lemma_pct_bytes_url_safe(encode_scalar(s[0] as u32));
        }
        assert forall|i: int|
            0 <= i < url_encoded(s).len() implies is_unreserved(#[trigger] url_encoded(s)[i])
                || url_encoded(s)[i] == '%' by {
            if i < head.len() {
                assert(url_encoded(s)[i] == head[i]);
            } else {
                assert(url_encoded(s)[i] == tail[i - head.len()]);
            }
        }
    }
}

/// Percent-decoding an encoding gives back the UTF-8 bytes of the original.
pub proof fn lemma_encoding_decodes(s: Seq<char>)
    ensures
        percent_decoded(url_encoded(s)) == encode_utf8(s),
    decreases s.len(),
{
    if s.len() > 0 {
        let c = s[0];
        let tail = url_encoded(s.drop_first());
        lemma_encoding_decodes(s.drop_first());
        if is_unreserved(c) {
            let whole = seq![c] + tail;
            assert(whole.skip(1) =~= tail);
            assert(url_encoded(s) == whole);
        } else {
            lemma_pct_bytes_decode(encode_scalar(c as u32), tail);
        }
    }
}

/// Different strings have different encodings.
pub proof fn lemma_encoding_injective(a: Seq<char>, b: Seq<char>)
    requires
        url_encoded(a) == url_encoded(b),
    ensures
        a == b,
{
    lemma_encoding_decodes(a);
    lemma_encoding_decodes(b);
    encode_utf8_decode_utf8(a);
    encode_utf8_decode_utf8(b);
}

} // verus!
