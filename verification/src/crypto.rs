//! Password encryption (SM3 key derivation + SM4-GCM) and SM2 script
//! signatures, on top of the `libsmx` primitives.
//!
//! * Key derivation: the password bytes followed by a 16-byte salt are
//!   hashed with SM3 1000 times; the key is the first 16 bytes.
//! * Encryption: SM4-GCM with a random 12-byte nonce, the associated data
//!   `resender`, and the result written `base64(ct)|base64(nonce)|base64(salt)`.
//! * Script signatures: SM2 over `e = SM3(Z || M)` with the user ID
//!   `resender-script`; keys and signatures are hex.

use vstd::prelude::*;
use vstd::utf8::{decode_utf8, encode_utf8, encode_utf8_decode_utf8, encode_utf8_valid_utf8, is_ascii_chars, valid_utf8};
use base64::Engine;

use crate::text::{
    chars_eq, hex_encode, hex_of, is_lower_hex, lemma_hex_of_ascii, lemma_hex_of_lower, lemma_split_append_plain, lemma_split_on_nonempty, lemma_unhex_hex_of,
    split_on, string_from_chars, to_chars, trim, trim_chars, unhex, unhex_chars,
};

verus! {

// ===========================================================================
// Outside primitives
// ===========================================================================

/// What `libsmx::sm3::Sm3Hasher::digest` returns for `data`.
pub uninterp spec fn sm3_spec(data: Seq<u8>) -> Seq<u8>;

/// `libsmx::sm3::Sm3Hasher::digest`: the SM3 digest of `data`.
#[verifier::external_body]
pub(crate) fn sm3_digest(data: &[u8]) -> (r: [u8; 32])
    ensures
        r@ == sm3_spec(data@),
{
    libsmx::sm3::Sm3Hasher::digest(data)
}

/// What `libsmx::sm4::sm4_encrypt_gcm_combined` returns.
pub uninterp spec fn sm4_seal_spec(key: Seq<u8>, nonce: Seq<u8>, aad: Seq<u8>, pt: Seq<u8>) -> Seq<u8>;

/// What `libsmx::sm4::sm4_decrypt_gcm_combined` returns (`None` for its error).
pub uninterp spec fn sm4_open_spec(key: Seq<u8>, nonce: Seq<u8>, aad: Seq<u8>, ct: Seq<u8>) -> Option<
    Seq<u8>,
>;

/// `libsmx::sm4::sm4_encrypt_gcm_combined`: SM4-GCM ciphertext followed by
/// the 16-byte tag. Decrypting it under the same key, nonce and associated
/// data gives the plaintext back (the crate's GCM round-trip).
#[verifier::external_body]
fn sm4_gcm_seal(key: &[u8; 16], nonce: &[u8; 12], aad: &[u8], pt: &[u8]) -> (r: Vec<u8>)
    ensures
        r@ == sm4_seal_spec(key@, nonce@, aad@, pt@),
        sm4_open_spec(key@, nonce@, aad@, r@) == Some(pt@),
{
    libsmx::sm4::sm4_encrypt_gcm_combined(key, nonce, aad, pt)
}

/// `libsmx::sm4::sm4_decrypt_gcm_combined`: checks the tag and decrypts;
/// the error is the crate's message.
#[verifier::external_body]
fn sm4_gcm_open(key: &[u8; 16], nonce: &[u8; 12], aad: &[u8], ct: &[u8]) -> (r: Result<
    Vec<u8>,
    String,
>)
    ensures
        match sm4_open_spec(key@, nonce@, aad@, ct@) {
            Some(p) => r matches Ok(v) && v@ == p,
            None => r is Err,
        },
{
    libsmx::sm4::sm4_decrypt_gcm_combined(key, nonce, aad, ct).map_err(|e| e.to_string())
}

/// The char of a 6-bit value in the standard base64 alphabet.
pub open spec fn b64_digit(v: int) -> char {
    if v < 26 {
        ((v + ('A' as int)) as u32) as char
    } else if v < 52 {
        ((v - 26 + ('a' as int)) as u32) as char
    } else if v < 62 {
        ((v - 52 + ('0' as int)) as u32) as char
    } else if v == 62 {
        '+'
    } else {
        '/'
    }
}

/// What `base64`'s standard engine encodes `data` to: every three bytes as
/// four chars of six bits each, most significant first; a last group of
/// one or two bytes filled with zero bits and padded with `=`.
pub open spec fn b64_encode_spec(data: Seq<u8>) -> Seq<char>
    decreases data.len(),
{
    if data.len() == 0 {
        Seq::empty()
    } else if data.len() == 1 {
        let a = data[0] as int;
        seq![b64_digit(a / 4), b64_digit((a % 4) * 16), '=', '=']
    } else if data.len() == 2 {
        let a = data[0] as int;
        let b = data[1] as int;
        seq![b64_digit(a / 4), b64_digit((a % 4) * 16 + b / 16), b64_digit((b % 16) * 4), '=']
    } else {
        let a = data[0] as int;
        let b = data[1] as int;
        let c = data[2] as int;
        seq![
            b64_digit(a / 4),
            b64_digit((a % 4) * 16 + b / 16),
            b64_digit((b % 16) * 4 + c / 64),
            b64_digit(c % 64),
        ] + b64_encode_spec(data.skip(3))
    }
}

/// What `base64`'s standard engine decodes `text` to (`None` for its error).
pub uninterp spec fn b64_decode_spec(text: Seq<char>) -> Option<Seq<u8>>;

/// The standard base64 alphabet with its padding char.
pub open spec fn is_b64_char(c: char) -> bool {
    ('A' <= c && c <= 'Z') || ('a' <= c && c <= 'z') || ('0' <= c && c <= '9') || c == '+' || c
        == '/' || c == '='
}

/// `base64::engine::general_purpose::STANDARD.encode`: its output uses the
/// standard alphabet with `=` padding, and decoding it gives `data` back.
#[verifier::external_body]
fn b64_encode(data: &[u8]) -> (r: String)
    ensures
        r@ == b64_encode_spec(data@),
        b64_decode_spec(r@) == Some(data@),
        forall|i: int| 0 <= i < r@.len() ==> is_b64_char(#[trigger] r@[i]),
{
    base64::engine::general_purpose::STANDARD.encode(data)
}

/// `base64::engine::general_purpose::STANDARD.decode`; the error is the
/// crate's message.
#[verifier::external_body]
fn b64_decode(text: &[char]) -> (r: Result<Vec<u8>, String>)
    ensures
        match b64_decode_spec(text@) {
            Some(b) => r matches Ok(v) && v@ == b,
            None => r is Err,
        },
{
    let s: String = text.iter().collect();
    base64::engine::general_purpose::STANDARD.decode(s).map_err(|e| e.to_string())
}

/// `rand::random`: 32 bytes from the thread-local generator. Nothing is
/// promised of their value.
#[verifier::external_body]
pub(crate) fn random_bytes() -> (r: [u8; 32]) {
    rand::random::<[u8; 32]>()
}

/// `String::from_utf8`: the text whose UTF-8 encoding is `bytes`.
#[verifier::external_body]
fn string_from_utf8(bytes: Vec<u8>) -> (r: Option<String>)
    ensures
        r is Some <==> valid_utf8(bytes@),
        r matches Some(s) ==> s@ == decode_utf8(bytes@),
{
    String::from_utf8(bytes).ok()
}

/// A byte sequence read as a big-endian number.
pub open spec fn be_value(b: Seq<u8>) -> nat
    decreases b.len(),
{
    if b.len() == 0 {
        0
    } else {
        be_value(b.drop_last()) * 256 + b.last() as nat
    }
}

/// The order `n` of the SM2 group, less one.
pub open spec fn sm2_order_minus_1() -> nat {
    0xFFFFFFFEFFFFFFFFFFFFFFFFFFFFFFFF7203DF6B21C6052B53BBF40939D54122nat
}

/// Whether `libsmx::sm2::PrivateKey::from_bytes` accepts `d`: read as a
/// big-endian number it lies in `[1, n-2]`.
pub open spec fn sm2_key_accepted(d: Seq<u8>) -> bool {
    0 < be_value(d) < sm2_order_minus_1()
}

/// What `PrivateKey::public_key` returns for the key made of `d`.
pub uninterp spec fn sm2_public_spec(d: Seq<u8>) -> Seq<u8>;

/// What `libsmx::sm2::get_z` returns.
pub uninterp spec fn sm2_z_spec(id: Seq<u8>, public: Seq<u8>) -> Seq<u8>;

/// Whether `libsmx::sm2::verify` accepts the signature.
pub uninterp spec fn sm2_verify_spec(e: Seq<u8>, public: Seq<u8>, sig: Seq<u8>) -> bool;

/// `libsmx::sm2::PrivateKey::from_bytes`: whether `d` is a private key (in
/// `[1, n-2]`); the error is the crate's message.
#[verifier::external_body]
fn sm2_check_private_key(d: &[u8; 32]) -> (r: Result<(), String>)
    ensures
        r is Ok <==> sm2_key_accepted(d@),
{
    libsmx::sm2::PrivateKey::from_bytes(d).map(|_| ()).map_err(|e| e.to_string())
}

/// `libsmx::sm2::PrivateKey::public_key` of the key made of `d`.
#[verifier::external_body]
fn sm2_public_key(d: &[u8; 32]) -> (r: [u8; 65])
    requires
        sm2_key_accepted(d@),
    ensures
        r@ == sm2_public_spec(d@),
{
    libsmx::sm2::PrivateKey::from_bytes(d).unwrap().public_key()
}

/// `libsmx::sm2::get_z`: the SM3 hash of the user ID, the curve and the
/// public key.
#[verifier::external_body]
fn sm2_get_z(id: &[u8], public: &[u8; 65]) -> (r: [u8; 32])
    ensures
        r@ == sm2_z_spec(id@, public@),
{
    libsmx::sm2::get_z(id, public)
}

/// `libsmx::sm2::get_e`: the SM3 hash of `z` followed by `msg`.
#[verifier::external_body]
fn sm2_get_e(z: &[u8; 32], msg: &[u8]) -> (r: [u8; 32])
    ensures
        r@ == sm3_spec(z@ + msg@),
{
    libsmx::sm2::get_e(z, msg)
}

/// `libsmx::sm2::sign` with the key made of `d` and the thread-local
/// generator: the signature is random, and `verify` accepts it with the
/// key's public key.
#[verifier::external_body]
fn sm2_sign(e: &[u8; 32], d: &[u8; 32]) -> (r: [u8; 64])
    requires
        sm2_key_accepted(d@),
    ensures
        sm2_verify_spec(e@, sm2_public_spec(d@), r@),
{
    let key = libsmx::sm2::PrivateKey::from_bytes(d).unwrap();
    libsmx::sm2::sign(e, &key, &mut rand::thread_rng())
}

/// `libsmx::sm2::verify`: whether the signature is valid.
#[verifier::external_body]
fn sm2_verify(e: &[u8; 32], public: &[u8; 65], sig: &[u8; 64]) -> (r: bool)
    ensures
        r == sm2_verify_spec(e@, public@, sig@),
{
    libsmx::sm2::verify(e, public, sig).is_ok()
}

// ===========================================================================
// Errors
// ===========================================================================

/// Why an operation was refused.
#[derive(Clone, Copy, Debug)]
pub enum CryptoErrorKind {
    /// The payload is not three `|`-separated parts.
    PayloadFormat,
    /// A part is not base64.
    Base64,
    /// The nonce is not 12 bytes or the salt not 16.
    Metadata,
    /// The tag check failed: wrong password or damaged data.
    Decrypt,
    /// The plaintext is not UTF-8.
    Utf8,
    /// The salt is not 16 bytes.
    SaltLength,
    /// A hex text of odd length.
    HexOddLength,
    /// A hex text with a char that is not a hex digit.
    HexDigit,
    /// The private key is not 32 bytes.
    PrivateKeyLength,
    /// The private key is out of range.
    PrivateKey,
    /// The public key is not 65 bytes.
    PublicKeyLength,
    /// The signature is not 64 bytes.
    SignatureLength,
    /// Post-quantum verification is not available.
    PostQuantum,
    /// The verification mode is unknown.
    UnknownMode,
}

/// An error: its kind and the detail the underlying library gave.
#[derive(Clone, Debug)]
pub struct CryptoError {
    pub kind: CryptoErrorKind,
    pub detail: String,
}

fn crypto_err(kind: CryptoErrorKind) -> (e: CryptoError)
    ensures
        e.kind == kind,
        e.detail@.len() == 0,
{
    CryptoError { kind, detail: String::new() }
}

/// The fixed text of an error kind.
pub open spec fn kind_text(k: CryptoErrorKind) -> Seq<char> {
    match k {
        CryptoErrorKind::PayloadFormat => "密文格式错误"@,
        CryptoErrorKind::Base64 => Seq::empty(),
        CryptoErrorKind::Metadata => "密文元数据长度异常"@,
        CryptoErrorKind::Decrypt => "解密失败（密码错误或数据损坏）"@,
        CryptoErrorKind::Utf8 => "解密结果非 UTF-8"@,
        CryptoErrorKind::SaltLength => "salt 长度异常"@,
        CryptoErrorKind::HexOddLength => "hex 字符串长度必须为偶数"@,
        CryptoErrorKind::HexDigit => "hex 解码失败"@,
        CryptoErrorKind::PrivateKeyLength => "私钥长度异常（应为 32 字节）"@,
        CryptoErrorKind::PrivateKey => "私钥非法"@,
        CryptoErrorKind::PublicKeyLength => "SM2 公钥长度异常（应为 65 字节）"@,
        CryptoErrorKind::SignatureLength => "SM2 签名长度异常（应为 64 字节）"@,
        CryptoErrorKind::PostQuantum => "后量子签名校验尚未接入（PQ 接口占位）"@,
        CryptoErrorKind::UnknownMode => "未知的签名校验模式"@,
    }
}

/// Whether the text of an error kind is followed by its detail.
pub open spec fn has_detail(k: CryptoErrorKind) -> bool {
    k == CryptoErrorKind::Decrypt || k == CryptoErrorKind::HexDigit
        || k == CryptoErrorKind::PrivateKey || k == CryptoErrorKind::UnknownMode
}

/// The description of an error: a base64 error is its detail; the kinds
/// that carry a detail give their text, `: ` and the detail; the others
/// their text.
pub open spec fn error_text(k: CryptoErrorKind, detail: Seq<char>) -> Seq<char> {
    if k == CryptoErrorKind::Base64 {
        detail
    } else if has_detail(k) {
        kind_text(k) + ": "@ + detail
    } else {
        kind_text(k)
    }
}

impl CryptoError {
    /// A human readable description.
    pub fn message(&self) -> (r: String)
        ensures
            r@ == error_text(self.kind, self.detail@),
    {
        let what = match self.kind {
            CryptoErrorKind::PayloadFormat => "密文格式错误",
            CryptoErrorKind::Base64 => "",
            CryptoErrorKind::Metadata => "密文元数据长度异常",
            CryptoErrorKind::Decrypt => "解密失败（密码错误或数据损坏）",
            CryptoErrorKind::Utf8 => "解密结果非 UTF-8",
            CryptoErrorKind::SaltLength => "salt 长度异常",
            CryptoErrorKind::HexOddLength => "hex 字符串长度必须为偶数",
            CryptoErrorKind::HexDigit => "hex 解码失败",
            CryptoErrorKind::PrivateKeyLength => "私钥长度异常（应为 32 字节）",
            CryptoErrorKind::PrivateKey => "私钥非法",
            CryptoErrorKind::PublicKeyLength => "SM2 公钥长度异常（应为 65 字节）",
            CryptoErrorKind::SignatureLength => "SM2 签名长度异常（应为 64 字节）",
            CryptoErrorKind::PostQuantum => "后量子签名校验尚未接入（PQ 接口占位）",
            CryptoErrorKind::UnknownMode => "未知的签名校验模式",
        };
        let with_detail = match self.kind {
            CryptoErrorKind::Decrypt | CryptoErrorKind::HexDigit | CryptoErrorKind::PrivateKey
            | CryptoErrorKind::UnknownMode => true,
            _ => false,
        };
        let is_b64 = match self.kind {
            CryptoErrorKind::Base64 => true,
            _ => false,
        };
        let mut out: Vec<char> = Vec::new();
        if is_b64 {
            out.append(&mut to_chars(self.detail.as_str()));
        } else {
            out.append(&mut to_chars(what));
            if with_detail {
                out.append(&mut to_chars(": "));
                out.append(&mut to_chars(self.detail.as_str()));
            }
        }
        proof {
            reveal_strlit("");
            assert(is_b64 ==> out@ =~= self.detail@);
        }
        string_from_chars(out.as_slice())
    }
}

// ===========================================================================
// Key derivation
// ===========================================================================

/// Password bytes followed by the salt.
pub open spec fn kdf_material(password: Seq<char>, salt: Seq<u8>) -> Seq<u8> {
    encode_utf8(password) + salt
}

/// The buffer after `n` rounds of SM3 over the material.
pub open spec fn kdf_rounds(m: Seq<u8>, n: nat) -> Seq<u8>
    decreases n,
{
    if n == 0 {
        m
    } else {
        sm3_spec(kdf_rounds(m, (n - 1) as nat))
    }
}

/// The 16-byte key derived from a password and a salt: the first 16 bytes
/// of SM3 applied 1000 times to the password bytes followed by the salt.
pub open spec fn derive_spec(password: Seq<char>, salt: Seq<u8>) -> Seq<u8> {
    kdf_rounds(kdf_material(password, salt), 1000).take(16)
}

/// Derives the 16-byte SM4 key from a password and a salt.
pub fn derive_key(password: &str, salt: &[u8; 16]) -> (key: [u8; 16])
    ensures
        key@ == derive_spec(password@, salt@),
{
    let mut material: Vec<u8> = Vec::new();
    let pw = password.as_bytes();
    let n = pw.len();
    let mut i: usize = 0;
    while i < n
        invariant
            i <= n == pw@.len(),
            material@ == pw@.take(i as int),
        decreases n - i,
    {
        material.push(pw[i]);
        i = i + 1;
        assert(material@ =~= pw@.take(i as int));
    }
    let mut j: usize = 0;
    while j < 16
        invariant
            j <= 16,
            material@ == pw@ + salt@.take(j as int),
            pw@.take(n as int) == pw@,
        decreases 16 - j,
    {
        material.push(salt[j]);
        j = j + 1;
        assert(material@ =~= pw@ + salt@.take(j as int));
    }
    assert(pw@.take(n as int) =~= pw@);
    assert(salt@.take(16) =~= salt@);
    assert(material@ == kdf_material(password@, salt@));
    let mut buf: Vec<u8> = material.clone();
    let mut round: usize = 0;
    while round < 1000
        invariant
            round <= 1000,
            material@ == kdf_material(password@, salt@),
            buf@ == kdf_rounds(material@, round as nat),
            buf@.len() >= 16,
        decreases 1000 - round,
    {
        let d = sm3_digest(buf.as_slice());
        let mut next: Vec<u8> = Vec::new();
        let mut k: usize = 0;
        while k < 32
            invariant
                k <= 32,
                next@ == d@.take(k as int),
            decreases 32 - k,
        {
            next.push(d[k]);
            k = k + 1;
            assert(next@ =~= d@.take(k as int));
        }
        assert(d@.take(32) =~= d@);
        buf = next;
        round = round + 1;
    }
    let mut key = [0u8; 16];
    let mut k: usize = 0;
    while k < 16
        invariant
            k <= 16,
            buf@.len() >= 16,
            forall|x: int| 0 <= x < k ==> key@[x] == buf@[x],
        decreases 16 - k,
    {
        key[k] = buf[k];
        k = k + 1;
    }
    assert(key@ =~= buf@.take(16));
    key
}

/// The check value kept in place of the script-trust password: the
/// lower-case hex SM3 digest of its UTF-8 bytes, or the empty text when no
/// password is set. The password itself is never kept.
pub open spec fn trust_check_spec(password: Seq<char>) -> Seq<char> {
    if password.len() == 0 {
        Seq::empty()
    } else {
        hex_of(sm3_spec(encode_utf8(password)))
    }
}

/// The check value of a script-trust password.
pub fn trust_check(password: &str) -> (r: String)
    ensures
        r@ == trust_check_spec(password@),
        is_check_value(r@),
{
    if password.is_empty() {
        String::new()
    } else {
        let d = sm3_digest(password.as_bytes());
        proof {
            lemma_hex_of_lower(d@);
        }
        hex_encode(&d)
    }
}

/// The form of a check value: empty, or 64 lower-case hex digits.
pub open spec fn is_check_value(v: Seq<char>) -> bool {
    v.len() == 0 || (v.len() == 64 && forall|i: int| 0 <= i < 64 ==> is_lower_hex(#[trigger] v[i]))
}

/// What is kept for a trust-password value: a check value as it is; any
/// other text is a password (as an earlier version kept it) and is
/// replaced by its check value.
pub open spec fn stored_trust(v: Seq<char>) -> Seq<char> {
    if is_check_value(v) {
        v
    } else {
        trust_check_spec(v)
    }
}

fn check_value_form(v: &str) -> (r: bool)
    ensures
        r == is_check_value(v@),
{
    let cs = to_chars(v);
    let n = cs.len();
    if n == 0 {
        return true;
    }
    if n != 64 {
        return false;
    }
    let mut i: usize = 0;
    while i < n
        invariant
            i <= n == 64 == cs@.len(),
            cs@ == v@,
            forall|j: int| 0 <= j < i ==> is_lower_hex(#[trigger] cs@[j]),
        decreases n - i,
    {
        let c = cs[i];
        if !(('0' <= c && c <= '9') || ('a' <= c && c <= 'f')) {
            return false;
        }
        i = i + 1;
    }
    true
}

/// The value kept for a trust-password field: see [`stored_trust`]. The
/// result is always a check value.
pub fn stored_trust_value(v: &str) -> (r: String)
    ensures
        r@ == stored_trust(v@),
        is_check_value(r@),
{
    if check_value_form(v) {
        String::from_str(v)
    } else {
        trust_check(v)
    }
}

// ===========================================================================
// Encryption
// ===========================================================================

/// The associated data of every ciphertext.
pub open spec fn aad() -> Seq<u8> {
    encode_utf8("resender"@)
}

/// A char of a payload: the base64 alphabet and the separator `|`.
pub open spec fn is_payload_char(c: char) -> bool {
    is_b64_char(c) || c == '|'
}

/// `a|b|c`.
pub open spec fn join3(a: Seq<char>, b: Seq<char>, c: Seq<char>) -> Seq<char> {
    a + seq!['|'] + b + seq!['|'] + c
}

/// The payload that encrypting `pt` with `password` gives for a salt and
/// a nonce.
pub open spec fn sealed_payload(pt: Seq<char>, password: Seq<char>, salt: Seq<u8>, nonce: Seq<u8>) -> Seq<
    char,
> {
    join3(
        b64_encode_spec(sm4_seal_spec(derive_spec(password, salt), nonce, aad(), encode_utf8(pt))),
        b64_encode_spec(nonce),
        b64_encode_spec(salt),
    )
}

/// What decrypting `payload` with `password` gives.
pub open spec fn decrypt_spec(payload: Seq<char>, password: Seq<char>) -> Result<
    Seq<char>,
    CryptoErrorKind,
> {
    let parts = split_on(payload, '|');
    if parts.len() != 3 {
        Err(CryptoErrorKind::PayloadFormat)
    } else {
        match (b64_decode_spec(parts[0]), b64_decode_spec(parts[1]), b64_decode_spec(parts[2])) {
            (Some(ct), Some(nonce), Some(salt)) => if nonce.len() != 12 || salt.len() != 16 {
                Err(CryptoErrorKind::Metadata)
            } else {
                match sm4_open_spec(derive_spec(password, salt), nonce, aad(), ct) {
                    None => Err(CryptoErrorKind::Decrypt),
                    Some(pt) => if valid_utf8(pt) {
                        Ok(decode_utf8(pt))
                    } else {
                        Err(CryptoErrorKind::Utf8)
                    },
                }
            },
            _ => Err(CryptoErrorKind::Base64),
        }
    }
}

fn push_str(out: &mut Vec<char>, s: &str)
    ensures
        final(out)@ == old(out)@ + s@,
{
    let mut cs = to_chars(s);
    out.append(&mut cs);
}

/// Seals `plaintext` with `password` under the given salt and nonce:
/// `base64(ct)|base64(nonce)|base64(salt)`, where `ct` is the SM4-GCM
/// ciphertext and tag of the plaintext's bytes under the key derived from
/// the password and the salt. Decrypting it with the same password gives
/// `plaintext` back.
pub fn seal_with(plaintext: &str, password: &str, salt: &[u8; 16], nonce: &[u8; 12]) -> (r: String)
    ensures
        r@ == sealed_payload(plaintext@, password@, salt@, nonce@),
        decrypt_spec(r@, password@) == Ok::<Seq<char>, CryptoErrorKind>(plaintext@),
        r@.len() > 0,
        forall|i: int| 0 <= i < r@.len() ==> is_payload_char(#[trigger] r@[i]),
{
    let key = derive_key(password, salt);
    let ct = sm4_gcm_seal(&key, nonce, "resender".as_bytes(), plaintext.as_bytes());
    let a = b64_encode(ct.as_slice());
    let b = b64_encode(nonce);
    let c = b64_encode(salt);
    let mut out: Vec<char> = Vec::new();
    push_str(&mut out, a.as_str());
    out.push('|');
    push_str(&mut out, b.as_str());
    out.push('|');
    push_str(&mut out, c.as_str());
    let s = string_from_chars(out.as_slice());
    proof {
        assert(s@ =~= join3(a@, b@, c@));
        lemma_split3(a@, b@, c@);
        encode_utf8_valid_utf8(plaintext@);
        encode_utf8_decode_utf8(plaintext@);
        assert(s@ == sealed_payload(plaintext@, password@, salt@, nonce@));
        assert forall|i: int| 0 <= i < s@.len() implies is_payload_char(#[trigger] s@[i]) by {
            if i < a@.len() {
                assert(s@[i] == a@[i]);
            } else if i == a@.len() {
            } else if i < a@.len() + 1 + b@.len() {
                assert(s@[i] == b@[i - a@.len() - 1]);
            } else if i == a@.len() + 1 + b@.len() {
            } else {
                assert(s@[i] == c@[i - a@.len() - 2 - b@.len()]);
            }
        }
    }
    s
}

/// Encrypts `plaintext` with `password`: [`seal_with`] under a salt and a
/// nonce drawn from the system's random source (the first 16 bytes drawn
/// are the salt, the next 12 the nonce). Decrypting the result with the
/// same password gives `plaintext` back.
pub fn encrypt_with_password(plaintext: &str, password: &str) -> (r: Result<String, CryptoError>)
    ensures
        r matches Ok(s) ==> exists|salt: Seq<u8>, nonce: Seq<u8>|
            salt.len() == 16 && nonce.len() == 12 && s@ == sealed_payload(
                plaintext@,
                password@,
                salt,
                nonce,
            ),
        r matches Ok(s) ==> decrypt_spec(s@, password@) == Ok::<Seq<char>, CryptoErrorKind>(
            plaintext@,
        ),
        r matches Ok(s) ==> s@.len() > 0 && forall|i: int|
            0 <= i < s@.len() ==> is_payload_char(#[trigger] s@[i]),
        r is Ok,
{
    let rnd = random_bytes();
    let mut salt = [0u8; 16];
    let mut nonce = [0u8; 12];
    let mut k: usize = 0;
    while k < 16
        invariant
            k <= 16,
            forall|x: int| 0 <= x < k ==> salt@[x] == rnd@[x],
        decreases 16 - k,
    {
        salt[k] = rnd[k];
        k = k + 1;
    }
    let mut k: usize = 0;
    while k < 12
        invariant
            k <= 12,
            forall|x: int| 0 <= x < k ==> nonce@[x] == rnd@[x + 16],
        decreases 12 - k,
    {
        nonce[k] = rnd[k + 16];
        k = k + 1;
    }
    Ok(seal_with(plaintext, password, &salt, &nonce))
}

/// Splitting `a|b|c` on `|`, where no part holds `|`.
proof fn lemma_split3(a: Seq<char>, b: Seq<char>, c: Seq<char>)
    requires
        forall|i: int| 0 <= i < a.len() ==> is_b64_char(#[trigger] a[i]),
        forall|i: int| 0 <= i < b.len() ==> is_b64_char(#[trigger] b[i]),
        forall|i: int| 0 <= i < c.len() ==> is_b64_char(#[trigger] c[i]),
    ensures
        split_on(join3(a, b, c), '|') == seq![a, b, c],
{
    let e = Seq::<char>::empty();
    lemma_split_append_plain(e, a, '|');
    assert(e + a =~= a);
    let r0 = split_on(e, '|');
    assert(r0 =~= seq![e]);
    assert(split_on(a, '|') =~= seq![a]) by {
        assert(r0.update(0, e + a) =~= seq![a]);
    }
    let x1 = a + seq!['|'];
    assert(x1.drop_last() =~= a);
    assert(split_on(x1, '|') =~= seq![a, e]);
    lemma_split_append_plain(x1, b, '|');
    let x2 = x1 + b;
    assert(split_on(x2, '|') =~= seq![a, b]) by {
        assert(seq![a, e].update(1, e + b) =~= seq![a, b]);
    }
    let x3 = x2 + seq!['|'];
    assert(x3.drop_last() =~= x2);
    assert(split_on(x3, '|') =~= seq![a, b, e]);
    lemma_split_append_plain(x3, c, '|');
    assert(seq![a, b, e].update(2, e + c) =~= seq![a, b, c]);
    assert(x3 + c =~= join3(a, b, c));
}

/// Decrypts `ct_b64|nonce_b64|salt_b64` with `password`.
pub fn decrypt_with_password(payload: &str, password: &str) -> (r: Result<String, CryptoError>)
    ensures
        match decrypt_spec(payload@, password@) {
            Ok(s) => r matches Ok(x) && x@ == s,
            Err(k) => r matches Err(e) && e.kind == k,
        },
{
    let cs = to_chars(payload);
    let parts = split_bars(cs.as_slice());
    if parts.len() != 3 {
        return Err(crypto_err(CryptoErrorKind::PayloadFormat));
    }
    let ct = b64_decode(parts[0].as_slice());
    let nonce = b64_decode(parts[1].as_slice());
    let salt = b64_decode(parts[2].as_slice());
    let (ct, nonce, salt) = match (ct, nonce, salt) {
        (Ok(a), Ok(b), Ok(c)) => (a, b, c),
        (Err(e), _, _) => return Err(CryptoError { kind: CryptoErrorKind::Base64, detail: e }),
        (_, Err(e), _) => return Err(CryptoError { kind: CryptoErrorKind::Base64, detail: e }),
        (_, _, Err(e)) => return Err(CryptoError { kind: CryptoErrorKind::Base64, detail: e }),
    };
    if nonce.len() != 12 || salt.len() != 16 {
        return Err(crypto_err(CryptoErrorKind::Metadata));
    }
    let mut nonce_a = [0u8; 12];
    let mut k: usize = 0;
    while k < 12
        invariant
            k <= 12,
            nonce@.len() == 12,
            forall|x: int| 0 <= x < k ==> nonce_a@[x] == nonce@[x],
        decreases 12 - k,
    {
        nonce_a[k] = nonce[k];
        k = k + 1;
    }
    assert(nonce_a@ =~= nonce@);
    let mut salt_a = [0u8; 16];
    let mut k: usize = 0;
    while k < 16
        invariant
            k <= 16,
            salt@.len() == 16,
            forall|x: int| 0 <= x < k ==> salt_a@[x] == salt@[x],
        decreases 16 - k,
    {
        salt_a[k] = salt[k];
        k = k + 1;
    }
    assert(salt_a@ =~= salt@);
    let key = derive_key(password, &salt_a);
    let pt = match sm4_gcm_open(&key, &nonce_a, "resender".as_bytes(), ct.as_slice()) {
        Ok(p) => p,
        Err(e) => return Err(CryptoError { kind: CryptoErrorKind::Decrypt, detail: e }),
    };
    match string_from_utf8(pt) {
        Some(s) => Ok(s),
        None => Err(crypto_err(CryptoErrorKind::Utf8)),
    }
}

/// The pieces of `s` between `|` chars.
fn split_bars(s: &[char]) -> (r: Vec<Vec<char>>)
    ensures
        r@.len() == split_on(s@, '|').len(),
        forall|i: int| 0 <= i < r@.len() ==> #[trigger] r@[i]@ == split_on(s@, '|')[i],
{
    let n = s.len();
    let mut out: Vec<Vec<char>> = Vec::new();
    let mut cur: Vec<char> = Vec::new();
    let mut i: usize = 0;
    while i < n
        invariant
            i <= n == s@.len(),
            split_on(s@.take(i as int), '|').len() == out@.len() + 1,
            forall|j: int| 0 <= j < out@.len() ==> #[trigger] out@[j]@ == split_on(
                s@.take(i as int),
                '|',
            )[j],
            cur@ == split_on(s@.take(i as int), '|').last(),
        decreases n - i,
    {
        proof {
            crate::text::lemma_split_on_step(s@, i as int, '|');
            lemma_split_on_nonempty(s@.take(i as int), '|');
        }
        let c = s[i];
        if c == '|' {
            let piece = cur;
            out.push(piece);
            cur = Vec::new();
        } else {
            cur.push(c);
        }
        i = i + 1;
    }
    assert(s@.take(n as int) =~= s@);
    out.push(cur);
    out
}

/// Derives a key from a password and a base64 salt; the key is returned
/// in base64.
pub fn derive_key_b64(password: &str, salt_b64: &str) -> (r: Result<String, CryptoError>)
    ensures
        match b64_decode_spec(salt_b64@) {
            Some(salt) => if salt.len() == 16 {
                r matches Ok(s) && s@ == b64_encode_spec(derive_spec(password@, salt))
            } else {
                r matches Err(e) && e.kind == CryptoErrorKind::SaltLength && e.detail@.len() == 0
            },
            None => r matches Err(e) && e.kind == CryptoErrorKind::Base64,
        },
{
    let cs = to_chars(salt_b64);
    let salt = match b64_decode(cs.as_slice()) {
        Ok(s) => s,
        Err(e) => return Err(CryptoError { kind: CryptoErrorKind::Base64, detail: e }),
    };
    if salt.len() != 16 {
        return Err(crypto_err(CryptoErrorKind::SaltLength));
    }
    let mut salt_a = [0u8; 16];
    let mut k: usize = 0;
    while k < 16
        invariant
            k <= 16,
            salt@.len() == 16,
            forall|x: int| 0 <= x < k ==> salt_a@[x] == salt@[x],
        decreases 16 - k,
    {
        salt_a[k] = salt[k];
        k = k + 1;
    }
    assert(salt_a@ =~= salt@);
    let key = derive_key(password, &salt_a);
    Ok(b64_encode(&key))
}

// ===========================================================================
// Script signatures
// ===========================================================================

/// The user ID of script signatures.
pub open spec fn script_sig_id() -> Seq<u8> {
    encode_utf8("resender-script"@)
}

/// `e = SM3(Z || M)` for a script and a public key.
pub open spec fn script_digest(script: Seq<char>, public: Seq<u8>) -> Seq<u8> {
    sm3_spec(sm2_z_spec(script_sig_id(), public) + encode_utf8(script))
}

/// What `hex_decode` gives: the bytes of the trimmed hex text. A text of
/// odd byte length is refused first; then any char that is not ASCII, or
/// any pair that is not a hex number, is refused.
pub open spec fn hex_decode_spec(s: Seq<char>) -> Result<Seq<u8>, CryptoErrorKind> {
    let t = trim(s);
    if encode_utf8(t).len() % 2 != 0 {
        Err(CryptoErrorKind::HexOddLength)
    } else if !is_ascii_chars(t) {
        Err(CryptoErrorKind::HexDigit)
    } else {
        match unhex(t) {
            Some(b) => Ok(b),
            None => Err(CryptoErrorKind::HexDigit),
        }
    }
}

/// Hex text decodes back to its bytes: what `hex_encode` writes for `b`,
/// `hex_decode` reads as `b`.
pub proof fn lemma_hex_decode_of_encode(b: Seq<u8>)
    ensures
        hex_decode_spec(hex_of(b)) == Ok::<Seq<u8>, CryptoErrorKind>(b),
{
    lemma_unhex_hex_of(b);
    lemma_hex_of_ascii(b);
    vstd::utf8::is_ascii_chars_encode_utf8(hex_of(b));
}

/// The detail of a hex error: what parsing a pair reports.
pub open spec fn hex_err_detail(k: CryptoErrorKind) -> Seq<char> {
    if k == CryptoErrorKind::HexDigit {
        "invalid digit found in string"@
    } else {
        Seq::empty()
    }
}

proof fn lemma_utf8_len_step(s: Seq<char>, i: int)
    requires
        0 <= i < s.len(),
    ensures
        encode_utf8(s.skip(i)).len() == vstd::utf8::encode_scalar(s[i] as u32).len() + encode_utf8(
            s.skip(i + 1),
        ).len(),
{
    assert(s.skip(i).drop_first() =~= s.skip(i + 1));
    assert(s.skip(i)[0] == s[i]);
}

proof fn lemma_width_parity(c: char)
    ensures
        (c <= '\u{7f}' || ('\u{800}' <= c && c <= '\u{ffff}')) == (vstd::utf8::encode_scalar(
            c as u32,
        ).len() % 2 == 1),
{
    vstd::utf8::char_is_scalar(c);
    let v = c as u32;
    assert(vstd::utf8::is_scalar(v));
    assert(c <= '\u{7f}' ==> vstd::utf8::encode_scalar(v).len() == 1);
    assert(('\u{800}' <= c && c <= '\u{ffff}') ==> vstd::utf8::encode_scalar(v).len() == 3);
    assert(('\u{80}' <= c && c <= '\u{7ff}') ==> vstd::utf8::encode_scalar(v).len() == 2);
    assert(('\u{10000}' <= c) ==> vstd::utf8::encode_scalar(v).len() == 4);
}

proof fn lemma_char_nonneg(c: char)
    ensures
        '\0' <= c,
{
}

/// Whether the UTF-8 encoding of `s` has an odd number of bytes.
fn odd_byte_length(s: &[char]) -> (r: bool)
    ensures
        r == (encode_utf8(s@).len() % 2 == 1),
{
    let mut odd = false;
    let mut i = s.len();
    assert(s@.skip(s@.len() as int) =~= Seq::<char>::empty());
    while i > 0
        invariant
            i <= s@.len(),
            odd == (encode_utf8(s@.skip(i as int)).len() % 2 == 1),
        decreases i,
    {
        let c = s[i - 1];
        proof {
            lemma_utf8_len_step(s@, i - 1);
            vstd::utf8::char_is_scalar(c);
        }
        let w_odd = c <= '\u{7f}' || ('\u{800}' <= c && c <= '\u{ffff}');
        proof {
            lemma_width_parity(c);
        }
        odd = odd != w_odd;
        i = i - 1;
    }
    assert(s@.skip(0) =~= s@);
    odd
}

/// Bytes of a hex text (surrounding white space ignored).
pub fn hex_decode(s: &str) -> (r: Result<Vec<u8>, CryptoError>)
    ensures
        match hex_decode_spec(s@) {
            Ok(b) => r matches Ok(v) && v@ == b,
            Err(k) => r matches Err(e) && e.kind == k && e.detail@ == hex_err_detail(k),
        },
{
    let cs = to_chars(s);
    let t = trim_chars(cs.as_slice());
    if odd_byte_length(t.as_slice()) {
        return Err(crypto_err(CryptoErrorKind::HexOddLength));
    }
    let n = t.len();
    let mut i: usize = 0;
    while i < n
        invariant
            i <= n == t@.len(),
            t@ == trim(s@),
            encode_utf8(t@).len() % 2 == 0,
            forall|k: int| 0 <= k < i ==> '\0' <= #[trigger] t@[k] <= '\u{7f}',
        decreases n - i,
    {
        let c = t[i];
        if c > '\u{7f}' {
            assert(t@[i as int] == c);
            assert(!is_ascii_chars(t@));
            return Err(CryptoError {
                kind: CryptoErrorKind::HexDigit,
                detail: String::from_str("invalid digit found in string"),
            });
        }
        proof {
            lemma_char_nonneg(c);
        }
        i = i + 1;
    }
    proof {
        vstd::utf8::is_ascii_chars_encode_utf8(t@);
    }
    match unhex_chars(t.as_slice()) {
        Some(b) => Ok(b),
        None => Err(CryptoError {
            kind: CryptoErrorKind::HexDigit,
            detail: String::from_str("invalid digit found in string"),
        }),
    }
}

fn copy32(v: &Vec<u8>) -> (r: [u8; 32])
    requires
        v@.len() == 32,
    ensures
        r@ == v@,
{
    let mut a = [0u8; 32];
    let mut k: usize = 0;
    while k < 32
        invariant
            k <= 32,
            v@.len() == 32,
            forall|x: int| 0 <= x < k ==> a@[x] == v@[x],
        decreases 32 - k,
    {
        a[k] = v[k];
        k = k + 1;
    }
    assert(a@ =~= v@);
    a
}

fn copy64(v: &Vec<u8>) -> (r: [u8; 64])
    requires
        v@.len() == 64,
    ensures
        r@ == v@,
{
    let mut a = [0u8; 64];
    let mut k: usize = 0;
    while k < 64
        invariant
            k <= 64,
            v@.len() == 64,
            forall|x: int| 0 <= x < k ==> a@[x] == v@[x],
        decreases 64 - k,
    {
        a[k] = v[k];
        k = k + 1;
    }
    assert(a@ =~= v@);
    a
}

fn copy65(v: &Vec<u8>) -> (r: [u8; 65])
    requires
        v@.len() == 65,
    ensures
        r@ == v@,
{
    let mut a = [0u8; 65];
    let mut k: usize = 0;
    while k < 65
        invariant
            k <= 65,
            v@.len() == 65,
            forall|x: int| 0 <= x < k ==> a@[x] == v@[x],
        decreases 65 - k,
    {
        a[k] = v[k];
        k = k + 1;
    }
    assert(a@ =~= v@);
    a
}

/// The private key a hex text holds for signing: 32 bytes that libsmx
/// accepts.
pub open spec fn sign_key_spec(priv_hex: Seq<char>) -> Result<Seq<u8>, CryptoErrorKind> {
    match hex_decode_spec(priv_hex) {
        Err(k) => Err(k),
        Ok(d) => if d.len() != 32 {
            Err(CryptoErrorKind::PrivateKeyLength)
        } else if !sm2_key_accepted(d) {
            Err(CryptoErrorKind::PrivateKey)
        } else {
            Ok(d)
        },
    }
}

/// Signs a script with a 32-byte private key given in hex; the signature
/// is 64 bytes, returned in hex, and is random. It verifies, in "sm2"
/// mode, with the hex of the key's 65-byte public key. A refused key of the wrong form carries the hex
/// detail; one libsmx refuses carries libsmx's message.
pub fn sign_script_hex(script: &str, priv_key_hex: &str) -> (r: Result<String, CryptoError>)
    ensures
        match sign_key_spec(priv_key_hex@) {
            Err(k) => r matches Err(e) && e.kind == k && (k != CryptoErrorKind::PrivateKey
                ==> e.detail@ == hex_err_detail(k)),
            Ok(d) => r matches Ok(s) && sm2_public_spec(d).len() == 65 && exists|sig: Seq<u8>|
                sig.len() == 64 && s@ == hex_of(sig) && sm2_verify_spec(
                    script_digest(script@, sm2_public_spec(d)),
                    sm2_public_spec(d),
                    sig,
                ) && verify_spec(script@, hex_of(sm2_public_spec(d)), s@, "sm2"@) == Ok::<
                    bool,
                    CryptoErrorKind,
                >(true),
        },
{
    let raw = match hex_decode(priv_key_hex) {
        Ok(v) => v,
        Err(e) => return Err(e),
    };
    if raw.len() != 32 {
        return Err(crypto_err(CryptoErrorKind::PrivateKeyLength));
    }
    let d = copy32(&raw);
    match sm2_check_private_key(&d) {
        Ok(()) => {},
        Err(e) => return Err(CryptoError { kind: CryptoErrorKind::PrivateKey, detail: e }),
    }
    let public = sm2_public_key(&d);
    let z = sm2_get_z("resender-script".as_bytes(), &public);
    let e = sm2_get_e(&z, script.as_bytes());
    let sig = sm2_sign(&e, &d);
    proof {
        lemma_sign_then_verify(script@, d@, sig@);
    }
    Ok(hex_encode(&sig))
}

/// The detail of an error that verifying a signature gives.
pub open spec fn verify_err_detail(k: CryptoErrorKind, mode: Seq<char>) -> Seq<char> {
    if k == CryptoErrorKind::UnknownMode {
        mode
    } else {
        hex_err_detail(k)
    }
}

/// What verifying a script signature gives.
pub open spec fn verify_spec(script: Seq<char>, pub_hex: Seq<char>, sig_hex: Seq<char>, mode: Seq<char>) -> Result<
    bool,
    CryptoErrorKind,
> {
    if mode == "sm2"@ {
        match hex_decode_spec(pub_hex) {
            Err(k) => Err(k),
            Ok(pk) => if pk.len() != 65 {
                Err(CryptoErrorKind::PublicKeyLength)
            } else {
                match hex_decode_spec(sig_hex) {
                    Err(k) => Err(k),
                    Ok(sig) => if sig.len() != 64 {
                        Err(CryptoErrorKind::SignatureLength)
                    } else {
                        Ok(sm2_verify_spec(script_digest(script, pk), pk, sig))
                    },
                }
            },
        }
    } else if mode == "pq"@ {
        Err(CryptoErrorKind::PostQuantum)
    } else {
        Err(CryptoErrorKind::UnknownMode)
    }
}

/// Verifies a script signature: `mode` "sm2" checks the SM2 signature
/// (65-byte public key, 64-byte signature, both hex); "pq" is not
/// available; any other mode is refused. A signature that does not match
/// gives `Ok(false)`.
pub fn verify_script_sig(script: &str, pub_key_hex: &str, sig_hex: &str, mode: &str) -> (r: Result<
    bool,
    CryptoError,
>)
    ensures
        match verify_spec(script@, pub_key_hex@, sig_hex@, mode@) {
            Ok(b) => r == Ok::<bool, CryptoError>(b),
            Err(k) => r matches Err(e) && e.kind == k && e.detail@ == verify_err_detail(k, mode@),
        },
{
    let mode_cs = to_chars(mode);
    if chars_eq(mode_cs.as_slice(), "sm2") {
        let pk = match hex_decode(pub_key_hex) {
            Ok(v) => v,
            Err(e) => return Err(e),
        };
        if pk.len() != 65 {
            return Err(crypto_err(CryptoErrorKind::PublicKeyLength));
        }
        let public = copy65(&pk);
        let sig = match hex_decode(sig_hex) {
            Ok(v) => v,
            Err(e) => return Err(e),
        };
        if sig.len() != 64 {
            return Err(crypto_err(CryptoErrorKind::SignatureLength));
        }
        let s = copy64(&sig);
        let z = sm2_get_z("resender-script".as_bytes(), &public);
        let e = sm2_get_e(&z, script.as_bytes());
        Ok(sm2_verify(&e, &public, &s))
    } else if chars_eq(mode_cs.as_slice(), "pq") {
        Err(crypto_err(CryptoErrorKind::PostQuantum))
    } else {
        Err(CryptoError { kind: CryptoErrorKind::UnknownMode, detail: String::from_str(mode) })
    }
}

/// A script signed with a private key verifies, in "sm2" mode, against the
/// hex of that key's public key.
pub proof fn lemma_sign_then_verify(script: Seq<char>, d: Seq<u8>, sig: Seq<u8>)
    requires
        sig.len() == 64,
        sm2_public_spec(d).len() == 65,
        sm2_verify_spec(script_digest(script, sm2_public_spec(d)), sm2_public_spec(d), sig),
    ensures
        verify_spec(script, hex_of(sm2_public_spec(d)), hex_of(sig), "sm2"@) == Ok::<
            bool,
            CryptoErrorKind,
        >(true),
{
    lemma_unhex_hex_of(sm2_public_spec(d));
    lemma_unhex_hex_of(sig);
    lemma_hex_of_ascii(sm2_public_spec(d));
    lemma_hex_of_ascii(sig);
    vstd::utf8::is_ascii_chars_encode_utf8(hex_of(sm2_public_spec(d)));
    vstd::utf8::is_ascii_chars_encode_utf8(hex_of(sig));
}

} // verus!
