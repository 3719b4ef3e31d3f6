//! Signed requests: the query strings the exchange expects, and their
//! HMAC-SHA256 signature in hexadecimal.

use vstd::prelude::*;
use vstd::string::StringExecFns;
use hmac::Mac;

verus! {

/// The HMAC-SHA256 code of a message under a key (RFC 2104 with SHA-256), as
/// the `hmac` and `sha2` crates compute it.
pub uninterp spec fn hmac_sha256_of(key: Seq<u8>, message: Seq<u8>) -> Seq<u8>;

/// Computes HMAC-SHA256 with `hmac::Hmac<sha2::Sha256>`: `new_from_slice` on
/// the key (which accepts a key of any length and never fails), `update` with
/// the message, `finalize` and `into_bytes`. The contract only names the code:
/// it depends on key and message alone.
#[verifier::external_body]
pub(crate) fn hmac_sha256(key: &[u8], message: &[u8]) -> (code: Vec<u8>)
    ensures
        code@ == hmac_sha256_of(key@, message@),
{
    let mut mac = hmac::Hmac::<sha2::Sha256>::new_from_slice(key).unwrap();
    mac.update(message);
    mac.finalize().into_bytes().to_vec()
}

/// The lower-case hexadecimal digit of a value below sixteen.
pub open spec fn hex_digit(nibble: int) -> char {
    if nibble < 10 {
        (48 + nibble) as u8 as char
    } else {
        (87 + nibble) as u8 as char
    }
}

/// Bytes in lower-case hexadecimal: two digits per byte, high digit first.
pub open spec fn hex_of(bytes: Seq<u8>) -> Seq<char> {
    Seq::new(
        2 * bytes.len(),
        |i: int|
            if i % 2 == 0 {
                hex_digit(bytes[i / 2] as int / 16)
            } else {
                hex_digit(bytes[i / 2] as int % 16)
            },
    )
}

/// Calls `hex::encode`, which writes each byte as two lower-case hexadecimal
/// digits, high digit first.
#[verifier::external_body]
pub(crate) fn hex_encode(bytes: &[u8]) -> (text: String)
    ensures
        text@ == hex_of(bytes@),
{
    hex::encode(bytes)
}

/// The signature of a query: the HMAC-SHA256 code of the query's bytes under
/// the secret's bytes, in hexadecimal.
pub open spec fn signature_of(secret: Seq<char>, query: Seq<char>) -> Seq<char> {
    hex_of(hmac_sha256_of(vstd::utf8::encode_utf8(secret), vstd::utf8::encode_utf8(query)))
}

/// Signs a query with the account's secret.
pub fn sign(secret: &str, query: &str) -> (signature: String)
    ensures
        signature@ == signature_of(secret@, query@),
{
    let code = hmac_sha256(secret.as_bytes(), query.as_bytes());
    hex_encode(code.as_slice())
}

/// The address of a signed request.
pub fn signed_url(base_url: &str, endpoint: &str, query: &str, secret: &str) -> (address: String)
    ensures
        address@ == base_url@ + endpoint@ + "?"@ + query@ + "&signature="@ + signature_of(
            secret@,
            query@,
        ),
{
    let signature = sign(secret, query);
    let mut address = String::from_str(base_url);
    address.append(endpoint);
    address.append("?");
    address.append(query);
    address.append("&signature=");
    address.append(signature.as_str());
    address
}

} // verus!
