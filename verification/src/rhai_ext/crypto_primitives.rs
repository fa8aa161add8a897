//! The cryptographic primitives scripts call. Encryption, decryption and
//! key derivation are refused until the script is trusted; errors come back
//! as `ERR: ` and the reason.

use vstd::prelude::*;

use super::trust_primitives::{gate_message, Gate, TrustState};
use crate::crypto::{
    b64_decode_spec, b64_encode_spec, decrypt_spec, decrypt_with_password, derive_key_b64,
    derive_spec, encrypt_with_password, error_text, sm3_digest, sm3_spec, CryptoErrorKind,
};
use crate::text::{hex_encode, hex_of, string_from_chars, to_chars};
use vstd::utf8::encode_utf8;

verus! {

/// `ERR: ` and the description of an error.
pub open spec fn err_answer(k: CryptoErrorKind, detail: Seq<char>) -> Seq<char> {
    "ERR: "@ + error_text(k, detail)
}

/// Encrypts `plaintext` with `password` (see
/// [`crate::crypto::encrypt_with_password`]); the answer decrypts back to
/// `plaintext` with the same password.
pub fn encrypt(t: &TrustState, plaintext: &str, password: &str) -> (r: String)
    ensures
        !t.trusted ==> r@ == gate_message(Gate::Crypto),
        t.trusted ==> decrypt_spec(r@, password@) == Ok::<Seq<char>, CryptoErrorKind>(plaintext@),
{
    match t.guard(Gate::Crypto) {
        Some(e) => return e,
        None => {},
    }
    match encrypt_with_password(plaintext, password) {
        Ok(s) => s,
        Err(e) => {
            let mut out = to_chars("ERR: ");
            out.append(&mut to_chars(e.message().as_str()));
            let r = string_from_chars(out.as_slice());
            assert(r@ == err_answer(e.kind, e.detail@));
            r
        },
    }
}

/// Decrypts a payload with `password`.
pub fn decrypt(t: &TrustState, payload: &str, password: &str) -> (r: String)
    ensures
        !t.trusted ==> r@ == gate_message(Gate::Crypto),
        t.trusted ==> match decrypt_spec(payload@, password@) {
            Ok(s) => r@ == s,
            Err(k) => exists|detail: Seq<char>| r@ == err_answer(k, detail),
        },
{
    match t.guard(Gate::Crypto) {
        Some(e) => return e,
        None => {},
    }
    match decrypt_with_password(payload, password) {
        Ok(s) => s,
        Err(e) => {
            let mut out = to_chars("ERR: ");
            out.append(&mut to_chars(e.message().as_str()));
            let r = string_from_chars(out.as_slice());
            assert(r@ == err_answer(e.kind, e.detail@));
            r
        },
    }
}

/// Derives the key for `password` and a base64 salt, in base64.
pub fn derive_key(t: &TrustState, password: &str, salt_b64: &str) -> (r: String)
    ensures
        !t.trusted ==> r@ == gate_message(Gate::Crypto),
        t.trusted ==> match b64_decode_spec(salt_b64@) {
            Some(salt) => if salt.len() == 16 {
                r@ == b64_encode_spec(derive_spec(password@, salt))
            } else {
                r@ == err_answer(CryptoErrorKind::SaltLength, Seq::empty())
            },
            None => exists|detail: Seq<char>| r@ == err_answer(CryptoErrorKind::Base64, detail),
        },
{
    match t.guard(Gate::Crypto) {
        Some(e) => return e,
        None => {},
    }
    match derive_key_b64(password, salt_b64) {
        Ok(s) => s,
        Err(e) => {
            let mut out = to_chars("ERR: ");
            out.append(&mut to_chars(e.message().as_str()));
            let r = string_from_chars(out.as_slice());
            assert(r@ == err_answer(e.kind, e.detail@));
            r
        },
    }
}

/// The SM3 digest of the text's UTF-8 bytes, in lower-case hex. Not gated.
pub fn sm3_hex(text: &str) -> (r: String)
    ensures
        r@ == hex_of(sm3_spec(encode_utf8(text@))),
{
    let d = sm3_digest(text.as_bytes());
    hex_encode(&d)
}

} // verus!
