//! The signed assertion by which a service account identifies itself.

use vstd::prelude::*;
use vstd::utf8::encode_utf8;
use crate::encoding::base64_bytes;
use crate::encoding::base64_url;
use crate::encoding::base64_url_encode;
use crate::encoding::base64_url_has_no_padding;
use crate::encoding::base64_url_round_trip;
use crate::encoding::is_base64_char;
use crate::text::cat3;
use crate::text::decimal;
use crate::text::decimal_text;
use crate::text::same_text;
use crate::text::text_result;

verus! {

broadcast use vstd::string::group_string_axioms;

/// An RSA key pair as `ring` holds it.
#[verifier::external_type_specification]
#[verifier::external_body]
pub struct ExRsaKeyPair(ring::signature::RsaKeyPair);

/// What `pem::parse` reads a text as: the label and the contents of its first block.
pub uninterp spec fn pem_block(text: Seq<char>) -> Option<(Seq<char>, Seq<u8>)>;

/// The key pair that `ring` reads from an unencrypted PKCS#8 document.
pub uninterp spec fn rsa_key(document: Seq<u8>) -> Option<ring::signature::RsaKeyPair>;

/// The length in bytes of the public modulus of a key pair.
pub uninterp spec fn rsa_modulus_len(key: ring::signature::RsaKeyPair) -> nat;

/// The RSA PKCS#1 v1.5 signature, over SHA-256, of a message under a key pair. There is none where
/// the parts of the key pair do not agree.
pub uninterp spec fn rsa_signature(
    key: ring::signature::RsaKeyPair,
    message: Seq<u8>,
) -> Option<Seq<u8>>;

/// The view of a PEM block.
pub open spec fn block_view(block: Option<(String, Vec<u8>)>) -> Option<(Seq<char>, Seq<u8>)> {
    match block {
        Some((label, contents)) => Some((label@, contents@)),
        None => None,
    }
}

/// `pem::parse`: the label and the decoded contents of the first PEM block in the text, or nothing
/// where the text holds no well-formed block.
#[verifier::external_body]
fn parse_pem(text: &str) -> (out: Option<(String, Vec<u8>)>)
    ensures
        block_view(out) == pem_block(text@),
{
    match pem::parse(text) {
        Ok(block) => Some((block.tag().to_string(), block.contents().to_vec())),
        Err(_) => None,
    }
}

/// `RsaKeyPair::from_pkcs8` of `ring`: the key pair in the document, where it is accepted.
#[verifier::external_body]
fn read_rsa_key(document: &[u8]) -> (out: Option<ring::signature::RsaKeyPair>)
    ensures
        out == rsa_key(document@),
{
    ring::signature::RsaKeyPair::from_pkcs8(document).ok()
}

/// `PublicKey::modulus_len` of `ring`, for the public half of the key pair.
#[verifier::external_body]
fn modulus_len(key: &ring::signature::RsaKeyPair) -> (len: usize)
    ensures
        len == rsa_modulus_len(*key),
{
    key.public().modulus_len()
}

/// The length in bytes of the longest message that SHA-256 takes: its bits are counted in 64 bits.
pub const LONGEST_MESSAGE: u64 = 0x1fff_ffff_ffff_ffff;

/// `RsaKeyPair::sign` of `ring` with `RSA_PKCS1_SHA256`: fills the buffer, which has the length of
/// the modulus, with the signature of the message, and says whether it could. This padding uses no
/// random numbers, so the outcome rests on the key pair and the message alone. What the buffer
/// holds after a failure is left open, but for its length, which stays. A message that is too long
/// for SHA-256 would make it panic.
#[verifier::external_body]
fn rsa_sign(key: &ring::signature::RsaKeyPair, message: &[u8], signature: &mut Vec<u8>) -> (signed:
    bool)
    requires
        old(signature)@.len() == rsa_modulus_len(*key),
        message@.len() <= LONGEST_MESSAGE,
    ensures
        final(signature)@.len() == old(signature)@.len(),
        signed == rsa_signature(*key, message@) is Some,
        signed ==> rsa_signature(*key, message@) == Some(final(signature)@),
{
    key.sign(
        &ring::signature::RSA_PKCS1_SHA256,
        &ring::rand::SystemRandom::new(),
        message,
        signature,
    ).is_ok()
}

/// The view of bytes or an error message.
pub open spec fn bytes_result(out: Result<Vec<u8>, String>) -> Result<Seq<u8>, Seq<char>> {
    match out {
        Ok(bytes) => Ok(bytes@),
        Err(message) => Err(message@),
    }
}

/// The PKCS#8 document in a PEM block: the block must be there and labelled `PRIVATE KEY`.
pub open spec fn pkcs8_document(block: Option<(Seq<char>, Seq<u8>)>) -> Result<
    Seq<u8>,
    Seq<char>,
> {
    match block {
        None => Err("invalid Google service account private key PEM."@),
        Some((label, contents)) => if label == "PRIVATE KEY"@ {
            Ok(contents)
        } else {
            Err("Google service account private key must use PKCS#8 PEM."@)
        },
    }
}

/// The signature of a message under the key in a PEM text, or why there is none.
pub open spec fn rs256(private_key: Seq<char>, message: Seq<u8>) -> Result<Seq<u8>, Seq<char>> {
    match pkcs8_document(pem_block(private_key)) {
        Err(error) => Err(error),
        Ok(document) => match rsa_key(document) {
            None => Err("invalid Google service account PKCS#8 private key."@),
            Some(key) => match rsa_signature(key, message) {
                None => Err("Google service account JWT signing failed."@),
                Some(signature) => Ok(signature),
            },
        },
    }
}

/// The PKCS#8 document in a PEM block.
pub fn require_pkcs8(block: Option<(String, Vec<u8>)>) -> (out: Result<Vec<u8>, String>)
    ensures
        bytes_result(out) == pkcs8_document(block_view(block)),
{
    match block {
        None => Err("invalid Google service account private key PEM.".to_string()),
        Some((label, contents)) => if same_text(label.as_str(), "PRIVATE KEY") {
            Ok(contents)
        } else {
            Err("Google service account private key must use PKCS#8 PEM.".to_string())
        },
    }
}

/// Signs a message with RSA PKCS#1 v1.5 and SHA-256, under a private key in PEM form.
pub fn sign_rs256(private_key: &str, message: &[u8]) -> (out: Result<Vec<u8>, String>)
    requires
        message@.len() <= LONGEST_MESSAGE,
    ensures
        bytes_result(out) == rs256(private_key@, message@),
        out matches Ok(signature) ==> signature@.len() == rsa_modulus_len(
            rsa_key(pkcs8_document(pem_block(private_key@))->Ok_0)->0,
        ),
{
    let document = match require_pkcs8(parse_pem(private_key)) {
        Ok(document) => document,
        Err(error) => return Err(error),
    };
    let key = match read_rsa_key(document.as_slice()) {
        Some(key) => key,
        None => return Err("invalid Google service account PKCS#8 private key.".to_string()),
    };
    let mut signature: Vec<u8> = vec![0;modulus_len(&key)];
    if rsa_sign(&key, message, &mut signature) {
        Ok(signature)
    } else {
        Err("Google service account JWT signing failed.".to_string())
    }
}

/// How long an assertion is good for, in seconds.
pub const LIFETIME: u64 = 3600;

/// The number of characters that the name of a service account can have at most: with more of them,
/// the assertion could become too long to be signed.
pub const LONGEST_EMAIL: u64 = 0x0400_0000_0000_0000;

/// The header of an assertion.
pub open spec fn jwt_header() -> Seq<char> {
    "{\"alg\":\"RS256\",\"typ\":\"JWT\"}"@
}

/// The claims of an assertion that `email` makes at the time `now`.
pub open spec fn jwt_claims(email: Seq<char>, now: nat) -> Seq<char> {
    "{\"iss\":\""@ + email
        + "\",\"scope\":\"https://www.googleapis.com/auth/spanner.data https://www.googleapis.com/auth/cloud-platform\",\"aud\":\"https://oauth2.googleapis.com/token\",\"exp\":"@
        + decimal(now + LIFETIME as nat) + ",\"iat\":"@ + decimal(now) + "}"@
}

/// The part of an assertion that is signed: its header and its claims, each in base64.
pub open spec fn jwt_payload(email: Seq<char>, now: nat) -> Seq<char> {
    base64_url(encode_utf8(jwt_header())) + "."@ + base64_url(
        encode_utf8(jwt_claims(email, now)),
    )
}

/// A payload with its signature behind it.
pub open spec fn sealed(
    payload: Seq<char>,
    signature: Result<Seq<u8>, Seq<char>>,
) -> Result<Seq<char>, Seq<char>> {
    match signature {
        Ok(bytes) => Ok(payload + "."@ + base64_url(bytes)),
        Err(error) => Err(error),
    }
}

/// The assertion that `email` makes at the time `now`, signed with its private key.
pub open spec fn jwt_assertion(email: Seq<char>, private_key: Seq<char>, now: nat) -> Result<
    Seq<char>,
    Seq<char>,
> {
    let payload = jwt_payload(email, now);
    sealed(payload, rs256(private_key, encode_utf8(payload)))
}

proof fn lemma_utf8_len(s: Seq<char>)
    ensures
        encode_utf8(s).len() <= 4 * s.len(),
    decreases s.len(),
{
    if s.len() > 0 {
        lemma_utf8_len(s.drop_first());
    }
}

/// `10` to the power `n`.
spec fn ten_to(n: nat) -> nat
    decreases n,
{
    if n == 0 {
        1
    } else {
        10 * ten_to((n - 1) as nat)
    }
}

proof fn lemma_decimal_len(n: nat, digits: nat)
    requires
        digits > 0,
        n < ten_to(digits),
    ensures
        decimal(n).len() <= digits,
    decreases digits,
{
    if n >= 10 {
        assert(digits > 1) by {
            reveal_with_fuel(ten_to, 2);
        }
        lemma_decimal_len(n / 10, (digits - 1) as nat);
    }
}

proof fn lemma_payload_is_signable(email: Seq<char>, now: nat)
    requires
        now + LIFETIME <= u64::MAX,
        email.len() <= LONGEST_EMAIL,
    ensures
        encode_utf8(jwt_payload(email, now)).len() <= LONGEST_MESSAGE,
{
    reveal_strlit("{\"alg\":\"RS256\",\"typ\":\"JWT\"}");
    reveal_strlit("{\"iss\":\"");
    reveal_strlit(
        "\",\"scope\":\"https://www.googleapis.com/auth/spanner.data https://www.googleapis.com/auth/cloud-platform\",\"aud\":\"https://oauth2.googleapis.com/token\",\"exp\":",
    );
    reveal_strlit(",\"iat\":");
    reveal_strlit("}");
    reveal_strlit(".");
    assert(ten_to(20) > u64::MAX) by {
        reveal_with_fuel(ten_to, 21);
    }
    lemma_decimal_len(now, 20);
    lemma_decimal_len(now + LIFETIME as nat, 20);
    let header = encode_utf8(jwt_header());
    let claims = encode_utf8(jwt_claims(email, now));
    lemma_utf8_len(jwt_header());
    lemma_utf8_len(jwt_claims(email, now));
    base64_url_has_no_padding(header);
    base64_url_has_no_padding(claims);
    let payload = jwt_payload(email, now);
    assert(vstd::utf8::is_ascii_chars(payload)) by {
        assert forall|i: int| 0 <= i < payload.len() implies payload[i] < '\u{80}' by {
            let h = base64_url(header);
            if i < h.len() {
                assert(payload[i] == h[i]);
            } else if i > h.len() {
                assert(payload[i] == base64_url(claims)[i - h.len() - 1]);
            }
        }
    }
    vstd::utf8::is_ascii_chars_encode_utf8(payload);
}

/// The part of an assertion that is signed.
pub fn create_jwt_payload(email: &str, now: u64) -> (out: String)
    requires
        now + LIFETIME <= u64::MAX,
    ensures
        out@ == jwt_payload(email@, now as nat),
{
    let exp: u64 = now + LIFETIME;
    let header = "{\"alg\":\"RS256\",\"typ\":\"JWT\"}";
    let mut claims = cat3(
        "{\"iss\":\"",
        email,
        "\",\"scope\":\"https://www.googleapis.com/auth/spanner.data https://www.googleapis.com/auth/cloud-platform\",\"aud\":\"https://oauth2.googleapis.com/token\",\"exp\":",
    );
    claims.push_str(decimal_text(exp).as_str());
    claims.push_str(",\"iat\":");
    claims.push_str(decimal_text(now).as_str());
    claims.push_str("}");
    cat3(
        base64_url_encode(header.as_bytes()).as_str(),
        ".",
        base64_url_encode(claims.as_str().as_bytes()).as_str(),
    )
}

/// Puts a signature behind the payload that it signs.
pub fn seal(payload: &str, signature: Result<Vec<u8>, String>) -> (out: Result<String, String>)
    ensures
        text_result(out) == sealed(payload@, bytes_result(signature)),
{
    match signature {
        Ok(bytes) => Ok(cat3(payload, ".", base64_url_encode(bytes.as_slice()).as_str())),
        Err(error) => Err(error),
    }
}

/// The assertion that a service account makes to be given an access token.
pub fn create_jwt_assertion(email: &str, private_key: &str, now: u64) -> (out: Result<
    String,
    String,
>)
    requires
        now + LIFETIME <= u64::MAX,
        email@.len() <= LONGEST_EMAIL,
    ensures
        text_result(out) == jwt_assertion(email@, private_key@, now as nat),
{
    let payload = create_jwt_payload(email, now);
    proof {
        lemma_payload_is_signable(email@, now as nat);
    }
    let signature = sign_rs256(private_key, payload.as_str().as_bytes());
    seal(payload.as_str(), signature)
}

/// The ways in which signing can fail. None of them holds any part of the key.
pub open spec fn is_signing_error(error: Seq<char>) -> bool {
    ||| error == "invalid Google service account private key PEM."@
    ||| error == "Google service account private key must use PKCS#8 PEM."@
    ||| error == "invalid Google service account PKCS#8 private key."@
    ||| error == "Google service account JWT signing failed."@
}

/// A refused key is never echoed: whatever the key, the error is one of four fixed texts.
pub proof fn refused_keys_are_not_echoed(email: Seq<char>, private_key: Seq<char>, now: nat)
    ensures
        jwt_assertion(email, private_key, now) matches Err(error) ==> is_signing_error(error),
{
}

/// An assertion is three parts with a dot between each two of them; no part holds a dot, and
/// decoding them gives the header, the claims and the signature over the first two.
pub proof fn assertion_has_three_parts(email: Seq<char>, private_key: Seq<char>, now: nat)
    requires
        jwt_assertion(email, private_key, now) is Ok,
    ensures
        ({
            let header = base64_url(encode_utf8(jwt_header()));
            let claims = base64_url(encode_utf8(jwt_claims(email, now)));
            let signature = rs256(private_key, encode_utf8(header + "."@ + claims))->Ok_0;
            let last = base64_url(signature);
            &&& jwt_assertion(email, private_key, now)->Ok_0 == header + "."@ + claims + "."@
                + last
            &&& !header.contains('.') && !claims.contains('.') && !last.contains('.')
            &&& base64_bytes(header) == encode_utf8(jwt_header())
            &&& base64_bytes(claims) == encode_utf8(jwt_claims(email, now))
            &&& base64_bytes(last) == signature
        }),
{
    let header = encode_utf8(jwt_header());
    let claims = encode_utf8(jwt_claims(email, now));
    let signature = rs256(private_key, encode_utf8(jwt_payload(email, now)))->Ok_0;
    base64_url_has_no_padding(header);
    base64_url_has_no_padding(claims);
    base64_url_has_no_padding(signature);
    base64_url_round_trip(header);
    base64_url_round_trip(claims);
    base64_url_round_trip(signature);
    assert(!is_base64_char('.'));
}

} // verus!
