use cloud_spanner::encoding::{base64_url_encode, form_encode};

const ALPHABET: &str = "ABCDEFGHIJKLMNOPQRSTUVWXYZabcdefghijklmnopqrstuvwxyz0123456789-_";

/// The bytes that a text in URL-safe base64 stands for.
fn base64_url_decode(s: &str) -> Vec<u8> {
    let mut bits: u32 = 0;
    let mut count = 0;
    let mut out = Vec::new();
    for c in s.chars() {
        bits = bits << 6 | ALPHABET.find(c).expect("a character of the alphabet") as u32;
        count += 6;
        if count >= 8 {
            count -= 8;
            out.push((bits >> count) as u8);
            bits &= (1 << count) - 1;
        }
    }
    out
}

/// The bytes that a percent-encoded text stands for.
fn form_decode(s: &str) -> Vec<u8> {
    let bytes = s.as_bytes();
    let mut out = Vec::new();
    let mut i = 0;
    while i < bytes.len() {
        if bytes[i] == b'%' {
            out.push(u8::from_str_radix(&s[i + 1..i + 3], 16).expect("two digits"));
            i += 3;
        } else {
            out.push(bytes[i]);
            i += 1;
        }
    }
    out
}

#[test]
fn base64_uses_the_whole_url_safe_alphabet() {
    // 48 bytes that hold the numbers from 0 to 63, six bits each.
    let bytes = base64_url_decode(ALPHABET);
    assert_eq!(bytes.len(), 48);
    assert_eq!(base64_url_encode(&bytes), ALPHABET);
    assert_eq!(base64_url_encode(&[0xfb, 0xff]), "-_8");
    assert_eq!(base64_url_encode(&[]), "");
    assert_eq!(base64_url_encode(&[0]), "AA");
    assert_eq!(base64_url_encode(&[255]), "_w");
}

#[test]
fn base64_can_be_decoded_again() {
    let all: Vec<u8> = (0..=255).rev().collect();
    for len in 0..=all.len() {
        let encoded = base64_url_encode(&all[..len]);
        assert_eq!(encoded.len(), (4 * len + 2) / 3);
        assert!(encoded.chars().all(|c| ALPHABET.contains(c)));
        assert_eq!(base64_url_decode(&encoded), &all[..len]);
    }
}

#[test]
fn form_encoding_escapes_every_reserved_byte() {
    assert_eq!(form_encode(""), "");
    assert_eq!(form_encode(" +/%"), "%20%2B%2F%25");
    assert_eq!(form_encode("é"), "%C3%A9");
    assert_eq!(form_encode("\u{0}\u{7f}"), "%00%7F");
    assert_eq!(
        form_encode("https://www.googleapis.com/auth/cloud-platform"),
        "https%3A%2F%2Fwww.googleapis.com%2Fauth%2Fcloud-platform"
    );
}

#[test]
fn form_encoding_can_be_undone() {
    for s in ["", "a&b=c", "100%", "日本語 ~", "\u{10ffff}", "plain-Token_1.0~"] {
        let encoded = form_encode(s);
        assert!(!encoded.contains(['&', '=', '+']));
        assert_eq!(form_decode(&encoded), s.as_bytes());
    }
}

#[test]
fn unreserved_characters_stand_for_themselves() {
    let unreserved = "ABCDEFGHIJKLMNOPQRSTUVWXYZabcdefghijklmnopqrstuvwxyz0123456789-_.~";
    assert_eq!(form_encode(unreserved), unreserved);
}
