//! What holds of encoded texts.

use vstd::prelude::*;
use vstd::utf8::encode_utf8;
use crate::encoding::base64_char;
use crate::encoding::base64_url;
use crate::encoding::form_bytes;
use crate::encoding::form_encoded;
use crate::encoding::hex_digit;
use crate::encoding::is_unreserved;
use crate::encoding::is_unreserved_char;

verus! {

/// The URL-safe base64 alphabet, in the order of what its characters stand for.
pub open spec fn base64_alphabet() -> Seq<char> {
    "ABCDEFGHIJKLMNOPQRSTUVWXYZabcdefghijklmnopqrstuvwxyz0123456789-_"@
}

/// The byte at a place, or zero behind the end.
pub open spec fn byte_at(bytes: Seq<u8>, i: int) -> int {
    if i < bytes.len() {
        bytes[i] as int
    } else {
        0
    }
}

/// The `i`-th six bits of some bytes, with zeros behind the end.
pub open spec fn six_bits(bytes: Seq<u8>, i: int) -> int {
    let k = i / 4 * 3;
    let group = byte_at(bytes, k) * 65536 + byte_at(bytes, k + 1) * 256 + byte_at(bytes, k + 2);
    if i % 4 == 0 {
        group / 262144
    } else if i % 4 == 1 {
        group / 4096 % 64
    } else if i % 4 == 2 {
        group / 64 % 64
    } else {
        group % 64
    }
}

proof fn lemma_alphabet(v: int)
    requires
        0 <= v < 64,
    ensures
        base64_char(v) == base64_alphabet()[v],
{
    reveal_strlit("ABCDEFGHIJKLMNOPQRSTUVWXYZabcdefghijklmnopqrstuvwxyz0123456789-_");
}

proof fn lemma_six_bits_range(bytes: Seq<u8>, i: int)
    requires
        0 <= i,
    ensures
        0 <= six_bits(bytes, i) < 64,
{
}

/// Each character of the base64 form stands for the six bits at its place, and there are as many
/// characters as it takes to hold all the bits.
pub proof fn base64_holds_the_bits_in_order(bytes: Seq<u8>)
    ensures
        6 * base64_url(bytes).len() >= 8 * bytes.len(),
        6 * base64_url(bytes).len() < 8 * bytes.len() + 6,
        forall|i: int|
            0 <= i < base64_url(bytes).len() ==> #[trigger] base64_url(bytes)[i]
                == base64_alphabet()[six_bits(bytes, i)],
    decreases bytes.len(),
{
    crate::encoding::base64_url_has_no_padding(bytes);
    let out = base64_url(bytes);
    assert forall|i: int| 0 <= i < out.len() implies #[trigger] out[i]
        == base64_alphabet()[six_bits(bytes, i)] by {
        lemma_six_bits_range(bytes, i);
        lemma_alphabet(six_bits(bytes, i));
        if i < 4 {
            lemma_first_group(bytes, i);
        } else {
            let rest = bytes.skip(3);
            base64_holds_the_bits_in_order(rest);
            assert(out[i] == base64_url(rest)[i - 4]);
            let k = i / 4 * 3;
            assert((i - 4) / 4 * 3 == k - 3);
            assert((i - 4) % 4 == i % 4);
            assert(byte_at(rest, k - 3) == byte_at(bytes, k));
            assert(byte_at(rest, k - 2) == byte_at(bytes, k + 1));
            assert(byte_at(rest, k - 1) == byte_at(bytes, k + 2));
        }
    }
}

proof fn lemma_first_group(bytes: Seq<u8>, i: int)
    requires
        0 <= i < 4,
        i < base64_url(bytes).len(),
    ensures
        base64_url(bytes)[i] == base64_char(six_bits(bytes, i)),
{
    let a = byte_at(bytes, 0);
    let b = byte_at(bytes, 1);
    let c = byte_at(bytes, 2);
    lemma_group(a as u32, b as u32, c as u32);
    assert(i / 4 * 3 == 0 && i % 4 == i);
}

proof fn lemma_group(a: u32, b: u32, c: u32)
    requires
        a < 256,
        b < 256,
        c < 256,
    ensures
        (a * 65536 + b * 256 + c) / 262144 == a as int / 4,
        (a * 65536 + b * 256 + c) / 4096 % 64 == a as int % 4 * 16 + b as int / 16,
        (a * 65536 + b * 256 + c) / 64 % 64 == b as int % 16 * 4 + c as int / 64,
        (a * 65536 + b * 256 + c) % 64 == c as int % 64,
{
    let group = (a * 65536 + b * 256 + c) as u32;
    assert(group / 262144 == a / 4) by (bit_vector)
        requires
            a < 256,
            b < 256,
            c < 256,
            group == a * 65536 + b * 256 + c,
    ;
    assert(group / 4096 % 64 == a % 4 * 16 + b / 16) by (bit_vector)
        requires
            a < 256,
            b < 256,
            c < 256,
            group == a * 65536 + b * 256 + c,
    ;
    assert(group / 64 % 64 == b % 16 * 4 + c / 64) by (bit_vector)
        requires
            a < 256,
            b < 256,
            c < 256,
            group == a * 65536 + b * 256 + c,
    ;
    assert(group % 64 == c % 64) by (bit_vector)
        requires
            a < 256,
            b < 256,
            c < 256,
            group == a * 65536 + b * 256 + c,
    ;
}

/// The characters that stand for themselves in a form.
pub open spec fn unreserved_characters() -> Seq<char> {
    "ABCDEFGHIJKLMNOPQRSTUVWXYZabcdefghijklmnopqrstuvwxyz0123456789-_.~"@
}

/// The hexadecimal digits, in order.
pub open spec fn hex_digits() -> Seq<char> {
    "0123456789ABCDEF"@
}

/// Whether the three characters at a place are the escape of a byte: a `%` and two hexadecimal
/// digits.
pub open spec fn is_escape(t: Seq<char>, at: int, b: u8) -> bool {
    &&& t[at] == '%'
    &&& t[at + 1] == hex_digits()[b as int / 16]
    &&& t[at + 2] == hex_digits()[b as int % 16]
}

/// Whether a text is the escapes of some bytes, one after the other.
pub open spec fn escapes(t: Seq<char>, bytes: Seq<u8>) -> bool {
    &&& t.len() == 3 * bytes.len()
    &&& forall|i: int| 0 <= i < bytes.len() ==> is_escape(t, 3 * i, #[trigger] bytes[i])
}

/// A text is encoded character by character: an unreserved one stands for itself, and every other
/// one becomes the escapes of its bytes.
pub proof fn forms_are_made_character_by_character(a: Seq<char>, b: Seq<char>, c: char)
    ensures
        form_encoded(Seq::empty()).len() == 0,
        form_encoded(a + b) == form_encoded(a) + form_encoded(b),
        unreserved_characters().contains(c) ==> form_encoded(seq![c]) == seq![c],
        !unreserved_characters().contains(c) ==> escapes(
            form_encoded(seq![c]),
            encode_utf8(seq![c]),
        ),
{
    lemma_encode_concat(a, b);
    lemma_form_concat(encode_utf8(a), encode_utf8(b));
    lemma_unreserved(c);
    let s = seq![c];
    let bytes = encode_utf8(s);
    if is_unreserved_char(c) {
        crate::encoding::form_encoding_keeps_unreserved(s);
    } else {
        assert forall|i: int| 0 <= i < bytes.len() implies !is_unreserved(#[trigger] bytes[i]) by {
            lemma_one_char_bytes(c, i);
        }
        lemma_escapes(bytes);
    }
}

proof fn lemma_unreserved(c: char)
    ensures
        is_unreserved_char(c) <==> unreserved_characters().contains(c),
{
    reveal_strlit("ABCDEFGHIJKLMNOPQRSTUVWXYZabcdefghijklmnopqrstuvwxyz0123456789-_.~");
    let all = unreserved_characters();
    if is_unreserved_char(c) {
        let i = if 'A' <= c <= 'Z' {
            c as int - 65
        } else if 'a' <= c <= 'z' {
            c as int - 71
        } else if '0' <= c <= '9' {
            c as int + 4
        } else if c == '-' {
            62
        } else if c == '_' {
            63
        } else if c == '.' {
            64
        } else {
            65
        };
        assert(all[i] == c);
    }
}

proof fn lemma_one_char_bytes(c: char, i: int)
    requires
        !is_unreserved_char(c),
        0 <= i < encode_utf8(seq![c]).len(),
    ensures
        !is_unreserved(encode_utf8(seq![c])[i]),
{
    let s = seq![c];
    if c <= '\u{7f}' {
        assert(vstd::utf8::is_ascii_chars(s));
        vstd::utf8::is_ascii_chars_encode_utf8(s);
        assert(s[i] as u8 == encode_utf8(s)[i]);
        assert(s[i] as u8 as char == c);
    } else {
        let v = c as u32;
        assert(s.drop_first() =~= Seq::<char>::empty());
        assert(encode_utf8(s.drop_first()) =~= Seq::<u8>::empty());
        let bytes = vstd::utf8::encode_scalar(v);
        assert(encode_utf8(s) =~= bytes);
        lemma_wide_bytes(v, i);
    }
}

proof fn lemma_wide_bytes(v: u32, i: int)
    requires
        0x80 <= v <= 0x10ffff,
        0 <= i < vstd::utf8::encode_scalar(v).len(),
    ensures
        vstd::utf8::encode_scalar(v)[i] >= 0x80,
{
    assert(0xC0u8 | (((v >> 6) & 0x1f) as u8) >= 0x80) by (bit_vector);
    assert(0xE0u8 | (((v >> 12) & 0x0f) as u8) >= 0x80) by (bit_vector);
    assert(0xF0u8 | (((v >> 18) & 0x07) as u8) >= 0x80) by (bit_vector);
    assert(0x80u8 | ((v & 0x3f) as u8) >= 0x80) by (bit_vector);
    assert(0x80u8 | (((v >> 6) & 0x3f) as u8) >= 0x80) by (bit_vector);
    assert(0x80u8 | (((v >> 12) & 0x3f) as u8) >= 0x80) by (bit_vector);
}

proof fn lemma_escapes(bytes: Seq<u8>)
    requires
        forall|i: int| 0 <= i < bytes.len() ==> !is_unreserved(#[trigger] bytes[i]),
    ensures
        escapes(form_bytes(bytes), bytes),
    decreases bytes.len(),
{
    if bytes.len() > 0 {
        let head = bytes.drop_last();
        assert forall|i: int| 0 <= i < head.len() implies !is_unreserved(#[trigger] head[i]) by {
            assert(bytes[i] == head[i]);
        }
        lemma_escapes(head);
        let b = bytes.last();
        assert(!is_unreserved(bytes[bytes.len() - 1]));
        lemma_hex(b as int / 16);
        lemma_hex(b as int % 16);
        let t = form_bytes(bytes);
        let h = form_bytes(head);
        assert(t == h + seq!['%', hex_digit(b as int / 16), hex_digit(b as int % 16)]);
        assert forall|i: int| 0 <= i < bytes.len() implies is_escape(
            t,
            3 * i,
            #[trigger] bytes[i],
        ) by {
            if i < head.len() {
                assert(is_escape(h, 3 * i, head[i]));
            } else {
                assert(t[3 * i] == '%');
            }
        }
    }
}

proof fn lemma_hex(v: int)
    requires
        0 <= v < 16,
    ensures
        hex_digit(v) == hex_digits()[v],
{
    reveal_strlit("0123456789ABCDEF");
}

proof fn lemma_encode_concat(a: Seq<char>, b: Seq<char>)
    ensures
        encode_utf8(a + b) == encode_utf8(a) + encode_utf8(b),
    decreases a.len(),
{
    if a.len() == 0 {
        assert(a + b =~= b);
        assert(encode_utf8(a) + encode_utf8(b) =~= encode_utf8(b));
    } else {
        lemma_encode_concat(a.drop_first(), b);
        assert((a + b).drop_first() =~= a.drop_first() + b);
        assert(encode_utf8(a + b) =~= encode_utf8(a) + encode_utf8(b));
    }
}

proof fn lemma_form_concat(a: Seq<u8>, b: Seq<u8>)
    ensures
        form_bytes(a + b) == form_bytes(a) + form_bytes(b),
    decreases b.len(),
{
    if b.len() == 0 {
        assert(a + b =~= a);
        assert(form_bytes(a) + form_bytes(b) =~= form_bytes(a));
    } else {
        lemma_form_concat(a, b.drop_last());
        assert((a + b).drop_last() =~= a + b.drop_last());
        assert(form_bytes(a + b) =~= form_bytes(a) + form_bytes(b));
    }
}

} // verus!
