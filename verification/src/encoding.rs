//! URL-safe base64 and percent-encoding.

use vstd::prelude::*;
use vstd::utf8::decode_utf8;
use vstd::utf8::encode_utf8;

verus! {

broadcast use vstd::string::group_string_axioms;

/// The character of the URL-safe base64 alphabet that stands for the six bits `v`.
pub open spec fn base64_char(v: int) -> char {
    if v < 26 {
        (65 + v) as u8 as char
    } else if v < 52 {
        (71 + v) as u8 as char
    } else if v < 62 {
        (v - 4) as u8 as char
    } else if v == 62 {
        '-'
    } else {
        '_'
    }
}

/// The URL-safe base64 form of `bytes`, without padding: three bytes give four characters, and a
/// rest of one or two bytes gives two or three.
pub open spec fn base64_url(bytes: Seq<u8>) -> Seq<char>
    decreases bytes.len(),
{
    if bytes.len() == 0 {
        Seq::empty()
    } else if bytes.len() == 1 {
        seq![base64_char(bytes[0] as int / 4), base64_char(bytes[0] as int % 4 * 16)]
    } else if bytes.len() == 2 {
        seq![
            base64_char(bytes[0] as int / 4),
            base64_char(bytes[0] as int % 4 * 16 + bytes[1] as int / 16),
            base64_char(bytes[1] as int % 16 * 4),
        ]
    } else {
        seq![
            base64_char(bytes[0] as int / 4),
            base64_char(bytes[0] as int % 4 * 16 + bytes[1] as int / 16),
            base64_char(bytes[1] as int % 16 * 4 + bytes[2] as int / 64),
            base64_char(bytes[2] as int % 64),
        ] + base64_url(bytes.skip(3))
    }
}

fn base64_symbol(v: u8) -> (c: char)
    requires
        v < 64,
    ensures
        c == base64_char(v as int),
{
    if v < 26 {
        (65 + v) as char
    } else if v < 52 {
        (71 + v) as char
    } else if v < 62 {
        (v - 4) as char
    } else if v == 62 {
        '-'
    } else {
        '_'
    }
}

/// Encodes bytes in URL-safe base64, without padding.
pub fn base64_url_encode(input: &[u8]) -> (out: String)
    ensures
        out@ == base64_url(input@),
{
    let mut out = String::new();
    let mut i: usize = 0;
    assert(input@.skip(0) =~= input@);
    while i < input.len()
        invariant
            i <= input@.len(),
            out@ + base64_url(input@.skip(i as int)) == base64_url(input@),
        decreases input@.len() - i,
    {
        let ghost rest = input@.skip(i as int);
        let ghost was = out@;
        let left: usize = input.len() - i;
        let b0: u8 = input[i];
        let b1: u8 = if left > 1 {
            input[i + 1]
        } else {
            0
        };
        let b2: u8 = if left > 2 {
            input[i + 2]
        } else {
            0
        };
        out.push(base64_symbol(b0 / 4));
        out.push(base64_symbol(b0 % 4 * 16 + b1 / 16));
        if left > 1 {
            out.push(base64_symbol(b1 % 16 * 4 + b2 / 64));
        }
        if left > 2 {
            out.push(base64_symbol(b2 % 64));
        }
        if left > 3 {
            assert(rest.skip(3) =~= input@.skip(i + 3));
            i += 3;
        } else {
            i = input.len();
            assert(input@.skip(i as int) =~= Seq::<u8>::empty());
            assert(left == 3 ==> rest.skip(3) =~= Seq::<u8>::empty());
        }
        assert(out@ + base64_url(input@.skip(i as int)) =~= was + base64_url(rest));
    }
    assert(input@.skip(i as int) =~= Seq::<u8>::empty());
    assert(out@ + Seq::<char>::empty() =~= out@);
    out
}

/// The six bits that a character of the URL-safe base64 alphabet stands for.
pub open spec fn base64_value(c: char) -> int {
    if 'A' <= c <= 'Z' {
        c as int - 65
    } else if 'a' <= c <= 'z' {
        c as int - 71
    } else if '0' <= c <= '9' {
        c as int + 4
    } else if c == '-' {
        62
    } else {
        63
    }
}

/// The bytes that a text in unpadded URL-safe base64 stands for.
pub open spec fn base64_bytes(t: Seq<char>) -> Seq<u8>
    decreases t.len(),
{
    if t.len() < 2 {
        Seq::empty()
    } else if t.len() == 2 {
        seq![(base64_value(t[0]) * 4 + base64_value(t[1]) / 16) as u8]
    } else if t.len() == 3 {
        seq![
            (base64_value(t[0]) * 4 + base64_value(t[1]) / 16) as u8,
            (base64_value(t[1]) % 16 * 16 + base64_value(t[2]) / 4) as u8,
        ]
    } else {
        seq![
            (base64_value(t[0]) * 4 + base64_value(t[1]) / 16) as u8,
            (base64_value(t[1]) % 16 * 16 + base64_value(t[2]) / 4) as u8,
            (base64_value(t[2]) % 4 * 64 + base64_value(t[3])) as u8,
        ] + base64_bytes(t.skip(4))
    }
}

/// A character of the URL-safe base64 alphabet: a letter, a digit, `-` or `_`.
pub open spec fn is_base64_char(c: char) -> bool {
    'A' <= c <= 'Z' || 'a' <= c <= 'z' || '0' <= c <= '9' || c == '-' || c == '_'
}

proof fn lemma_base64_char(v: int)
    requires
        0 <= v < 64,
    ensures
        is_base64_char(base64_char(v)),
        base64_value(base64_char(v)) == v,
{
}

/// Decoding what was encoded gives the bytes back.
pub proof fn base64_url_round_trip(bytes: Seq<u8>)
    ensures
        base64_bytes(base64_url(bytes)) == bytes,
    decreases bytes.len(),
{
    let t = base64_url(bytes);
    if bytes.len() > 0 {
        lemma_base64_char(bytes[0] as int / 4);
        lemma_base64_char(bytes[0] as int % 4 * 16);
    }
    if bytes.len() > 1 {
        lemma_base64_char(bytes[0] as int % 4 * 16 + bytes[1] as int / 16);
        lemma_base64_char(bytes[1] as int % 16 * 4);
    }
    if bytes.len() > 2 {
        lemma_base64_char(bytes[1] as int % 16 * 4 + bytes[2] as int / 64);
        lemma_base64_char(bytes[2] as int % 64);
        base64_url_round_trip(bytes.skip(3));
        assert(t.skip(4) =~= base64_url(bytes.skip(3)));
        assert(base64_bytes(t) =~= seq![bytes[0], bytes[1], bytes[2]] + bytes.skip(3));
    }
    assert(base64_bytes(t) =~= bytes);
}

/// The encoded form holds letters, digits, `-` and `_` alone (no padding), four characters for
/// each three bytes, rounded up.
pub proof fn base64_url_has_no_padding(bytes: Seq<u8>)
    ensures
        forall|i: int|
            0 <= i < base64_url(bytes).len() ==> is_base64_char(#[trigger] base64_url(bytes)[i]),
        base64_url(bytes).len() == (4 * bytes.len() + 2) / 3,
    decreases bytes.len(),
{
    if bytes.len() > 0 {
        lemma_base64_char(bytes[0] as int / 4);
        lemma_base64_char(bytes[0] as int % 4 * 16);
    }
    if bytes.len() > 1 {
        lemma_base64_char(bytes[0] as int % 4 * 16 + bytes[1] as int / 16);
        lemma_base64_char(bytes[1] as int % 16 * 4);
    }
    if bytes.len() > 2 {
        lemma_base64_char(bytes[1] as int % 16 * 4 + bytes[2] as int / 64);
        lemma_base64_char(bytes[2] as int % 64);
        base64_url_has_no_padding(bytes.skip(3));
        let tail = base64_url(bytes.skip(3));
        assert forall|i: int| 0 <= i < base64_url(bytes).len() implies is_base64_char(
            #[trigger] base64_url(bytes)[i],
        ) by {
            if i >= 4 {
                assert(base64_url(bytes)[i] == tail[i - 4]);
            }
        }
    }
}

/// A letter, a digit, `-`, `_`, `.` or `~`.
pub open spec fn is_unreserved_char(c: char) -> bool {
    ||| 'A' <= c <= 'Z'
    ||| 'a' <= c <= 'z'
    ||| '0' <= c <= '9'
    ||| c == '-'
    ||| c == '_'
    ||| c == '.'
    ||| c == '~'
}

/// A byte that stands for itself in a form body.
pub open spec fn is_unreserved(b: u8) -> bool {
    is_unreserved_char(b as char)
}

/// The upper-case hexadecimal digit for `v`.
pub open spec fn hex_digit(v: int) -> char {
    if v < 10 {
        (48 + v) as u8 as char
    } else {
        (55 + v) as u8 as char
    }
}

/// The form of one byte in a form body: itself, or `%` and two hexadecimal digits.
pub open spec fn form_byte(b: u8) -> Seq<char> {
    if is_unreserved(b) {
        seq![b as char]
    } else {
        seq!['%', hex_digit(b as int / 16), hex_digit(b as int % 16)]
    }
}

/// The form of bytes in a form body, byte by byte.
pub open spec fn form_bytes(bytes: Seq<u8>) -> Seq<char>
    decreases bytes.len(),
{
    if bytes.len() == 0 {
        Seq::empty()
    } else {
        form_bytes(bytes.drop_last()) + form_byte(bytes.last())
    }
}

/// The form of a text in a form body: that of its UTF-8 bytes.
pub open spec fn form_encoded(s: Seq<char>) -> Seq<char> {
    form_bytes(encode_utf8(s))
}

fn unreserved(c: char) -> (yes: bool)
    ensures
        yes == is_unreserved_char(c),
{
    ('A' <= c && c <= 'Z') || ('a' <= c && c <= 'z') || ('0' <= c && c <= '9') || c == '-' || c
        == '_' || c == '.' || c == '~'
}

fn hex_symbol(v: u8) -> (c: char)
    requires
        v < 16,
    ensures
        c == hex_digit(v as int),
{
    if v < 10 {
        (48 + v) as char
    } else {
        (55 + v) as char
    }
}

/// Percent-encodes a text for use as a value in a form body or a URL.
pub fn form_encode(value: &str) -> (out: String)
    ensures
        out@ == form_encoded(value@),
{
    let bytes = value.as_bytes();
    let mut out = String::new();
    let mut i: usize = 0;
    while i < bytes.len()
        invariant
            i <= bytes@.len(),
            bytes@ == encode_utf8(value@),
            out@ == form_bytes(bytes@.take(i as int)),
        decreases bytes@.len() - i,
    {
        let b: u8 = bytes[i];
        let ghost was = out@;
        if unreserved(b as char) {
            out.push(b as char);
        } else {
            out.push('%');
            out.push(hex_symbol(b / 16));
            out.push(hex_symbol(b % 16));
        }
        assert(bytes@.take(i + 1).drop_last() =~= bytes@.take(i as int));
        assert(out@ =~= was + form_byte(b));
        i += 1;
    }
    assert(bytes@.take(i as int) =~= bytes@);
    out
}

/// A character that can occur in an encoded value.
pub open spec fn is_form_safe(c: char) -> bool {
    c == '%' || is_unreserved_char(c)
}

proof fn lemma_form_byte_safe(b: u8)
    ensures
        forall|i: int| 0 <= i < form_byte(b).len() ==> is_form_safe(#[trigger] form_byte(b)[i]),
{
}

/// An encoded value holds unreserved characters and `%` alone: no `&`, `=` or `+` that could end
/// the value or start another parameter.
pub proof fn form_encoding_is_safe(s: Seq<char>)
    ensures
        forall|i: int|
            0 <= i < form_encoded(s).len() ==> is_form_safe(#[trigger] form_encoded(s)[i]),
        !form_encoded(s).contains('&'),
        !form_encoded(s).contains('='),
        !form_encoded(s).contains('+'),
{
    lemma_form_bytes_safe(encode_utf8(s));
}

proof fn lemma_form_bytes_safe(bytes: Seq<u8>)
    ensures
        forall|i: int| 0 <= i < form_bytes(bytes).len() ==> is_form_safe(#[trigger] form_bytes(bytes)[i]),
    decreases bytes.len(),
{
    if bytes.len() > 0 {
        lemma_form_bytes_safe(bytes.drop_last());
        lemma_form_byte_safe(bytes.last());
        let head = form_bytes(bytes.drop_last());
        assert forall|i: int| 0 <= i < form_bytes(bytes).len() implies is_form_safe(
            #[trigger] form_bytes(bytes)[i],
        ) by {
            if i < head.len() {
                assert(form_bytes(bytes)[i] == head[i]);
            } else {
                assert(form_bytes(bytes)[i] == form_byte(bytes.last())[i - head.len()]);
            }
        }
    }
}

/// The value of a hexadecimal digit.
pub open spec fn hex_value(c: char) -> int {
    if '0' <= c <= '9' {
        c as int - 48
    } else {
        c as int - 55
    }
}

/// The bytes that a percent-encoded text stands for.
pub open spec fn form_decoded(t: Seq<char>) -> Seq<u8>
    decreases t.len(),
{
    if t.len() == 0 {
        Seq::empty()
    } else if t[0] == '%' && t.len() >= 3 {
        seq![(hex_value(t[1]) * 16 + hex_value(t[2])) as u8] + form_decoded(t.skip(3))
    } else {
        seq![t[0] as u8] + form_decoded(t.drop_first())
    }
}

/// The form of bytes, from the first byte on.
proof fn lemma_form_bytes_front(bytes: Seq<u8>)
    requires
        bytes.len() > 0,
    ensures
        form_bytes(bytes) == form_byte(bytes[0]) + form_bytes(bytes.drop_first()),
    decreases bytes.len(),
{
    if bytes.len() == 1 {
        assert(bytes.drop_last() =~= Seq::<u8>::empty());
        assert(bytes.drop_first() =~= Seq::<u8>::empty());
        assert(form_bytes(bytes) =~= form_byte(bytes[0]) + form_bytes(bytes.drop_first()));
    } else {
        lemma_form_bytes_front(bytes.drop_last());
        assert(bytes.drop_last().drop_first() =~= bytes.drop_first().drop_last());
        assert(form_bytes(bytes) =~= form_byte(bytes[0]) + form_bytes(bytes.drop_first()));
    }
}

proof fn lemma_form_bytes_decoded(bytes: Seq<u8>)
    ensures
        form_decoded(form_bytes(bytes)) == bytes,
    decreases bytes.len(),
{
    if bytes.len() > 0 {
        lemma_form_bytes_front(bytes);
        lemma_form_bytes_decoded(bytes.drop_first());
        let t = form_bytes(bytes);
        let b = bytes[0];
        if is_unreserved(b) {
            assert(t.drop_first() =~= form_bytes(bytes.drop_first()));
            assert(t[0] == b as char);
        } else {
            assert(t.skip(3) =~= form_bytes(bytes.drop_first()));
            assert(t[0] == '%' && t[1] == hex_digit(b as int / 16) && t[2] == hex_digit(
                b as int % 16,
            ));
        }
        assert(form_decoded(t) =~= bytes);
    }
}

/// Decoding an encoded value gives the text back, so different texts have different forms.
pub proof fn form_encoding_round_trip(s: Seq<char>)
    ensures
        form_decoded(form_encoded(s)) == encode_utf8(s),
        decode_utf8(form_decoded(form_encoded(s))) == s,
{
    lemma_form_bytes_decoded(encode_utf8(s));
    vstd::utf8::encode_utf8_decode_utf8(s);
}

/// A text of unreserved characters alone is its own form.
pub proof fn form_encoding_keeps_unreserved(s: Seq<char>)
    requires
        forall|i: int| 0 <= i < s.len() ==> is_unreserved_char(#[trigger] s[i]),
    ensures
        form_encoded(s) == s,
{
    vstd::utf8::is_ascii_chars_encode_utf8(s);
    lemma_form_bytes_unreserved(encode_utf8(s));
    assert(form_encoded(s) =~= s);
}

proof fn lemma_form_bytes_unreserved(bytes: Seq<u8>)
    requires
        forall|i: int| 0 <= i < bytes.len() ==> is_unreserved(#[trigger] bytes[i]),
    ensures
        form_bytes(bytes) == Seq::new(bytes.len(), |i: int| bytes[i] as char),
    decreases bytes.len(),
{
    if bytes.len() > 0 {
        lemma_form_bytes_unreserved(bytes.drop_last());
    }
    assert(form_bytes(bytes) =~= Seq::new(bytes.len(), |i: int| bytes[i] as char));
}

} // verus!
