//! What holds of signed assertions.

use vstd::prelude::*;
use vstd::utf8::encode_utf8;
use crate::credentials::lemma_split_behind;
use crate::credentials::lemma_split_whole;
use crate::encoding::base64_bytes;
use crate::encoding::base64_url;
use crate::encoding::base64_url_has_no_padding;
use crate::encoding::base64_url_round_trip;
use crate::encoding::is_base64_char;
use crate::jwt::LIFETIME;
use crate::jwt::LONGEST_EMAIL;
use crate::jwt::LONGEST_MESSAGE;
use crate::jwt::block_view;
use crate::jwt::bytes_result;
use crate::jwt::jwt_assertion;
use crate::jwt::jwt_claims;
use crate::jwt::jwt_header;
use crate::jwt::jwt_payload;
use crate::jwt::pem_block;
use crate::jwt::pkcs8_document;
use crate::jwt::rs256;
use crate::jwt::rsa_key;
use crate::jwt::rsa_signature;
use crate::jwt::sealed;
use crate::laws::text::decimals_add_up;
use crate::laws::text::is_numeral;
use crate::laws::text::worth;
use crate::text::decimal;
use crate::text::split;

verus! {

/// Whether claims say that `email` makes them, that they were made at the time `now`, and that
/// they are good for an hour: read as digits, `iat` is the time and `exp` an hour later.
pub open spec fn says(claims: Seq<char>, email: Seq<char>, now: nat) -> bool {
    exists|exp: Seq<char>, iat: Seq<char>|
        {
            &&& #[trigger] is_numeral(exp)
            &&& #[trigger] is_numeral(iat)
            &&& worth(exp) == now + 3600
            &&& worth(iat) == now
            &&& claims == "{\"iss\":\""@ + email
                + "\",\"scope\":\"https://www.googleapis.com/auth/spanner.data https://www.googleapis.com/auth/cloud-platform\",\"aud\":\"https://oauth2.googleapis.com/token\",\"exp\":"@
                + exp + ",\"iat\":"@ + iat + "}"@
        }
}

/// The claims name the account that makes them and the two times, to the second.
pub proof fn claims_tell_who_and_when(email: Seq<char>, now: nat)
    ensures
        says(jwt_claims(email, now), email, now),
        LIFETIME == 3600,
{
    decimals_add_up(now);
    decimals_add_up(now + 3600);
    assert(is_numeral(decimal(now + 3600)) && is_numeral(decimal(now)));
}

/// What is signed is two parts with a dot between them, and decoding them gives the algorithm and
/// the claims.
pub proof fn payloads_hold_the_claims(email: Seq<char>, now: nat)
    ensures
        ({
            let parts = split(jwt_payload(email, now), '.');
            &&& parts.len() == 2
            &&& base64_bytes(parts[0]) == encode_utf8("{\"alg\":\"RS256\",\"typ\":\"JWT\"}"@)
            &&& exists|claims: Seq<char>| #[trigger]
                says(claims, email, now) && base64_bytes(parts[1]) == encode_utf8(claims)
        }),
{
    reveal_strlit(".");
    claims_tell_who_and_when(email, now);
    let header = encode_utf8(jwt_header());
    let claims = encode_utf8(jwt_claims(email, now));
    lemma_part(header);
    lemma_part(claims);
    let h = base64_url(header);
    let c = base64_url(claims);
    lemma_split_whole(h, '.');
    lemma_split_behind(h, c, '.');
    assert(jwt_payload(email, now) =~= h + seq!['.'] + c);
    assert(split(jwt_payload(email, now), '.') =~= seq![h, c]);
}

proof fn lemma_part(bytes: Seq<u8>)
    ensures
        !base64_url(bytes).contains('.'),
        base64_bytes(base64_url(bytes)) == bytes,
{
    base64_url_round_trip(bytes);
    base64_url_has_no_padding(bytes);
    assert(!is_base64_char('.'));
}

/// An assertion is three parts; the first two are those of the payload, and the third decodes to
/// the signature of exactly these two and the dot between them, under the key that was given.
pub proof fn assertions_are_signed_payloads(email: Seq<char>, private_key: Seq<char>, now: nat)
    requires
        jwt_assertion(email, private_key, now) is Ok,
    ensures
        ({
            let parts = split(jwt_assertion(email, private_key, now)->Ok_0, '.');
            let signed = encode_utf8(parts[0] + seq!['.'] + parts[1]);
            &&& parts.len() == 3
            &&& base64_bytes(parts[0]) == encode_utf8("{\"alg\":\"RS256\",\"typ\":\"JWT\"}"@)
            &&& exists|claims: Seq<char>| #[trigger]
                says(claims, email, now) && base64_bytes(parts[1]) == encode_utf8(claims)
            &&& rs256(private_key, signed) == Ok::<Seq<u8>, Seq<char>>(base64_bytes(parts[2]))
        }),
{
    reveal_strlit(".");
    payloads_hold_the_claims(email, now);
    let payload = jwt_payload(email, now);
    let signature = rs256(private_key, encode_utf8(payload))->Ok_0;
    let header = encode_utf8(jwt_header());
    let claims = encode_utf8(jwt_claims(email, now));
    lemma_part(header);
    lemma_part(claims);
    lemma_part(signature);
    let h = base64_url(header);
    let c = base64_url(claims);
    let s = base64_url(signature);
    lemma_split_whole(h, '.');
    lemma_split_behind(h, c, '.');
    lemma_split_behind(h + seq!['.'] + c, s, '.');
    assert(payload =~= h + seq!['.'] + c);
    assert(jwt_assertion(email, private_key, now)->Ok_0 =~= h + seq!['.'] + c + seq!['.'] + s);
    assert(split(jwt_assertion(email, private_key, now)->Ok_0, '.') =~= seq![h, c, s]);
}

/// An assertion comes about exactly where its payload can be signed.
pub proof fn assertions_need_a_signature(email: Seq<char>, private_key: Seq<char>, now: nat)
    ensures
        jwt_assertion(email, private_key, now) is Ok <==> rs256(
            private_key,
            encode_utf8(jwt_payload(email, now)),
        ) is Ok,
        jwt_assertion(email, private_key, now) matches Err(message) ==> rs256(
            private_key,
            encode_utf8(jwt_payload(email, now)),
        ) == Err::<Seq<u8>, Seq<char>>(message),
{
}

/// A message is signed exactly where the key is a PEM block labelled as PKCS#8, with an RSA key in
/// it that signs the message; the signature is then the one under that key. Each way to fail has a
/// text of its own.
pub proof fn signatures_come_from_pkcs8_keys(
    private_key: Seq<char>,
    message: Seq<u8>,
    signature: Seq<u8>,
)
    ensures
        rs256(private_key, message) == Ok::<Seq<u8>, Seq<char>>(signature) <==> {
            &&& pem_block(private_key) matches Some((label, document))
            &&& label == "PRIVATE KEY"@
            &&& rsa_key(document) matches Some(key)
            &&& rsa_signature(key, message) == Some(signature)
        },
        pem_block(private_key) is None ==> rs256(private_key, message) == Err::<
            Seq<u8>,
            Seq<char>,
        >("invalid Google service account private key PEM."@),
        pem_block(private_key) matches Some((label, _)) ==> label != "PRIVATE KEY"@ ==> rs256(
            private_key,
            message,
        ) == Err::<Seq<u8>, Seq<char>>(
            "Google service account private key must use PKCS#8 PEM."@,
        ),
        pem_block(private_key) matches Some((label, document)) ==> label == "PRIVATE KEY"@
            && rsa_key(document) is None ==> rs256(private_key, message) == Err::<
            Seq<u8>,
            Seq<char>,
        >("invalid Google service account PKCS#8 private key."@),
        pem_block(private_key) matches Some((label, document)) ==> label == "PRIVATE KEY"@
            ==> (rsa_key(document) matches Some(key) ==> rsa_signature(key, message) is None
            ==> rs256(private_key, message) == Err::<Seq<u8>, Seq<char>>(
            "Google service account JWT signing failed."@,
        )),
{
}

/// A PEM block gives its contents, byte for byte, exactly where it is labelled as PKCS#8.
pub proof fn blocks_give_their_contents(block: Option<(Seq<char>, Seq<u8>)>)
    ensures
        pkcs8_document(block) matches Ok(contents) ==> block == Some(
            ("PRIVATE KEY"@, contents),
        ),
        block matches Some((label, contents)) ==> label == "PRIVATE KEY"@ ==> pkcs8_document(block)
            == Ok::<Seq<u8>, Seq<char>>(contents),
{
}

/// The views of keys and signatures leave nothing out.
pub proof fn keys_are_viewed_whole(
    block: Option<(String, Vec<u8>)>,
    out: Result<Vec<u8>, String>,
)
    ensures
        block is None <==> block_view(block) is None,
        block matches Some((label, contents)) ==> block_view(block) == Some((label@, contents@)),
        out matches Ok(bytes) ==> bytes_result(out) == Ok::<Seq<u8>, Seq<char>>(bytes@),
        out matches Err(s) ==> bytes_result(out) == Err::<Seq<u8>, Seq<char>>(s@),
{
}

/// A signature is put behind its payload, with a dot between them: the payload stays as it is, and
/// what stands behind the dot decodes to the signature. Without one the reason is told.
pub proof fn signatures_are_put_behind_their_payload(
    payload: Seq<char>,
    signature: Seq<u8>,
    message: Seq<char>,
)
    ensures
        sealed(payload, Err(message)) == Err::<Seq<char>, Seq<char>>(message),
        ({
            &&& sealed(payload, Ok(signature)) matches Ok(whole)
            &&& payload.is_prefix_of(whole)
            &&& whole.len() > payload.len()
            &&& whole[payload.len() as int] == '.'
            &&& base64_bytes(whole.skip(payload.len() as int + 1)) == signature
            &&& !whole.skip(payload.len() as int + 1).contains('.')
        }),
{
    reveal_strlit(".");
    lemma_part(signature);
    let whole = payload + "."@ + base64_url(signature);
    assert(whole.subrange(0, payload.len() as int) =~= payload);
    assert(whole.skip(payload.len() as int + 1) =~= base64_url(signature));
}

/// The limits are those of the hash: a message of 2 to the power 61 bytes is too long for it, and a
/// name of 2 to the power 58 characters cannot make it one.
pub proof fn the_limits_are_those_of_the_hash()
    ensures
        LONGEST_MESSAGE as int + 1 == 0x2000_0000_0000_0000,
        LONGEST_EMAIL as int == 0x0400_0000_0000_0000,
{
}

} // verus!
