//! RSA (PKCS#1 v1.5) and Base64 decoding, through the `rsa` and `base64` crates.
use base64::engine::{general_purpose::STANDARD, Engine};
use rsa::{pkcs1::DecodeRsaPrivateKey, Pkcs1v15Encrypt, RsaPrivateKey};
use crate::text::string_from_utf8;
use vstd::prelude::*;
use vstd::utf8::{decode_utf8, encode_utf8, valid_utf8};

verus! {

#[verifier::external_type_specification]
#[verifier::external_body]
pub struct ExRsaPrivateKey(RsaPrivateKey);

/// Whether `rsa` accepts `pem` as a PKCS#1 PEM RSA private key.
pub uninterp spec fn pkcs1_pem_parses(pem: Seq<char>) -> bool;

/// The plaintext that `rsa` gives for `ciphertext` under PKCS#1 v1.5 with the private
/// key that `pem` holds, or `None` where decryption fails.
pub uninterp spec fn pkcs1v15_decrypt(pem: Seq<char>, ciphertext: Seq<u8>) -> Option<Seq<u8>>;

/// The bytes that `base64`'s `STANDARD` engine (standard alphabet, padded) decodes
/// from `input`, or `None` where it refuses the input.
pub uninterp spec fn base64_standard_decode(input: Seq<u8>) -> Option<Seq<u8>>;

/// `RsaPrivateKey::from_pkcs1_pem` (trait `pkcs1::DecodeRsaPrivateKey`): parses a
/// PKCS#1 PEM private key. The contract claims only that success depends on the
/// text alone; the key it gives is opaque here.
#[verifier::external_body]
fn parse_pkcs1_pem(pem: &str) -> (r: Option<RsaPrivateKey>)
    ensures
        r is Some <==> pkcs1_pem_parses(pem@),
{
    RsaPrivateKey::from_pkcs1_pem(pem).ok()
}

/// An RSA private key, with the PEM text it was read from.
pub struct RsaKey {
    pem: String,
    key: RsaPrivateKey,
}

impl RsaKey {
    /// The PEM text the key was read from.
    pub closed spec fn pem(&self) -> Seq<char> {
        self.pem@
    }

    /// Reads a PKCS#1 PEM private key; `None` if `rsa` refuses the text.
    pub fn from_pkcs1_pem(pem: &str) -> (r: Option<RsaKey>)
        ensures
            r is Some <==> pkcs1_pem_parses(pem@),
            r matches Some(k) ==> k.pem() == pem@,
    {
        match parse_pkcs1_pem(pem) {
            Some(key) => Some(RsaKey { pem: pem.to_owned(), key }),
            None => None,
        }
    }
}

/// `RsaPrivateKey::decrypt` with `Pkcs1v15Encrypt`. That call passes no random number
/// generator, so no blinding: the result is a function of the key and the ciphertext.
/// The key is the one parsed from `key.pem()`, as `RsaKey::from_pkcs1_pem`, the only
/// way to build an `RsaKey`, guarantees.
#[verifier::external_body]
pub(crate) fn rsa_decrypt(key: &RsaKey, ciphertext: &[u8]) -> (r: Option<Vec<u8>>)
    ensures
        match pkcs1v15_decrypt(key.pem(), ciphertext@) {
            None => r is None,
            Some(p) => r matches Some(v) && v@ == p,
        },
{
    key.key.decrypt(Pkcs1v15Encrypt, ciphertext).ok()
}

/// `Engine::decode` of `base64::engine::general_purpose::STANDARD`.
#[verifier::external_body]
fn base64_decode(input: &[u8]) -> (r: Option<Vec<u8>>)
    ensures
        match base64_standard_decode(input@) {
            None => r is None,
            Some(d) => r matches Some(v) && v@ == d,
        },
{
    STANDARD.decode(input).ok()
}

/// Decodes `text` as Base64 (the bytes of the string).
pub(crate) fn decode_base64(text: &str) -> (r: Option<Vec<u8>>)
    ensures
        match base64_standard_decode(encode_utf8(text@)) {
            None => r is None,
            Some(d) => r matches Some(v) && v@ == d,
        },
{
    base64_decode(text.as_bytes())
}

/// The password that the Base64 text `password` carries, encrypted with the key in `pem`.
pub open spec fn password_plaintext(password: Seq<char>, pem: Seq<char>) -> Option<Seq<char>> {
    match base64_standard_decode(encode_utf8(password)) {
        None => None,
        Some(c) => match pkcs1v15_decrypt(pem, c) {
            None => None,
            Some(p) => if valid_utf8(p) {
                Some(decode_utf8(p))
            } else {
                None
            },
        },
    }
}

/// RSA decrypts the password using RSA/ECB/PKCS1Padding.
/// password: The encrypted password in Base64.
/// `None` where the text is not Base64, decryption fails or the plaintext is not UTF-8.
pub fn decrypt_password(password: String, key: &RsaKey) -> (r: Option<String>)
    ensures
        match password_plaintext(password@, key.pem()) {
            None => r is None,
            Some(t) => r matches Some(s) && s@ == t,
        },
{
    let password = match decode_base64(password.as_str()) {
        Some(p) => p,
        None => return None,
    };
    let decrypted = match rsa_decrypt(key, password.as_slice()) {
        Some(d) => d,
        None => return None,
    };
    string_from_utf8(decrypted)
}

} // verus!
