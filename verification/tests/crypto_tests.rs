use base64::Engine;
use resender::crypto::{
    decrypt_with_password, derive_key_b64, encrypt_with_password, hex_decode, sign_script_hex,
    trust_check, verify_script_sig, CryptoErrorKind,
};
use libsmx::sm2::{generate_keypair, sign_message, verify_message};
use resender::text::hex_encode;

#[test]
fn sm2_sign_verify_roundtrip() {
    let mut rng = rand::thread_rng();
    let (pri, pubk) = generate_keypair(&mut rng);
    let script = b"fn send_mail() { }";
    let sig = sign_message(script, b"resender-script", &pri, &mut rng);
    verify_message(script, b"resender-script", &pubk, &sig).expect("official sign/verify must pass");
    let priv_hex = hex_encode(pri.as_bytes());
    let pub_hex = hex_encode(&pubk);
    let sig_hex = sign_script_hex("fn send_mail() { }", &priv_hex).ok().unwrap();
    assert!(verify_script_sig("fn send_mail() { }", &pub_hex, &sig_hex, "sm2").ok().unwrap());
    assert!(!verify_script_sig("tampered", &pub_hex, &sig_hex, "sm2").ok().unwrap());
}

#[test]
fn encrypt_then_decrypt_gives_plaintext() {
    let payload = encrypt_with_password("re_secret_key", "pw").ok().unwrap();
    assert_eq!(payload.split('|').count(), 3);
    assert_eq!(decrypt_with_password(&payload, "pw").ok().unwrap(), "re_secret_key");
    let other = encrypt_with_password("re_secret_key", "pw").ok().unwrap();
    assert_ne!(payload, other, "salt and nonce are random");
}

#[test]
fn decrypt_with_wrong_password_fails() {
    let payload = encrypt_with_password("hello", "right").ok().unwrap();
    let e = decrypt_with_password(&payload, "wrong").err().unwrap();
    assert!(matches!(e.kind, CryptoErrorKind::Decrypt));
    assert!(e.message().starts_with("解密失败（密码错误或数据损坏）: "));
}

#[test]
fn decrypt_refuses_malformed_payloads() {
    let e = decrypt_with_password("abc", "pw").err().unwrap();
    assert!(matches!(e.kind, CryptoErrorKind::PayloadFormat));
    assert_eq!(e.message(), "密文格式错误");
    let e = decrypt_with_password("a|b|c", "pw").err().unwrap();
    assert!(matches!(e.kind, CryptoErrorKind::Base64));
    let e = decrypt_with_password("AAAA|AAAA|AAAA", "pw").err().unwrap();
    assert!(matches!(e.kind, CryptoErrorKind::Metadata));
    assert_eq!(e.message(), "密文元数据长度异常");
}

#[test]
fn derive_key_is_deterministic() {
    let salt = "AAECAwQFBgcICQoLDA0ODw==";
    let a = derive_key_b64("pw", salt).ok().unwrap();
    let b = derive_key_b64("pw", salt).ok().unwrap();
    assert_eq!(a, b);
    let c = derive_key_b64("pw2", salt).ok().unwrap();
    assert_ne!(a, c);
    let e = derive_key_b64("pw", "AAEC").err().unwrap();
    assert!(matches!(e.kind, CryptoErrorKind::SaltLength));
}

#[test]
fn hex_decode_errors() {
    assert_eq!(hex_decode(" 0aFf ").ok().unwrap(), vec![0x0a, 0xff]);
    assert!(matches!(hex_decode("abc").err().unwrap().kind, CryptoErrorKind::HexOddLength));
    let e = hex_decode("zz").err().unwrap();
    assert!(matches!(e.kind, CryptoErrorKind::HexDigit));
    assert_eq!(e.message(), "hex 解码失败: invalid digit found in string");
    assert!(matches!(hex_decode("é").err().unwrap().kind, CryptoErrorKind::HexDigit));
    assert!(matches!(hex_decode("é1").err().unwrap().kind, CryptoErrorKind::HexOddLength));
    assert_eq!(hex_decode("+f").ok().unwrap(), vec![0x0f]);
}

#[test]
fn signature_check_errors() {
    let e = verify_script_sig("s", "00", "00", "pq").err().unwrap();
    assert!(matches!(e.kind, CryptoErrorKind::PostQuantum));
    let e = verify_script_sig("s", "00", "00", "rsa").err().unwrap();
    assert_eq!(e.message(), "未知的签名校验模式: rsa");
    let e = verify_script_sig("s", "00", "00", "sm2").err().unwrap();
    assert!(matches!(e.kind, CryptoErrorKind::PublicKeyLength));
    let e = sign_script_hex("s", "0011").err().unwrap();
    assert!(matches!(e.kind, CryptoErrorKind::PrivateKeyLength));
    let zero = "00".repeat(32);
    let e = sign_script_hex("s", &zero).err().unwrap();
    assert!(matches!(e.kind, CryptoErrorKind::PrivateKey));
}

#[test]
fn trust_check_is_the_sm3_digest_of_the_password() {
    assert_eq!(trust_check(""), "");
    assert_eq!(trust_check("abc"), "66c7f0f462eeedd9d1f2d46bdc10e4e24167c4875cf2f7a2297da02b8f4ba8e0");
    assert_ne!(trust_check("abd"), trust_check("abc"));
}

#[test]
fn hex_decode_reads_back_hex_encode() {
    let b: Vec<u8> = vec![0x00, 0x0a, 0x7f, 0x80, 0xff];
    assert_eq!(hex_encode(&b), "000a7f80ff");
    assert_eq!(hex_decode(&hex_encode(&b)).ok().unwrap(), b);
    assert_eq!(hex_decode(&hex_encode(&[])).ok().unwrap(), Vec::<u8>::new());
}

#[test]
fn private_keys_lie_between_one_and_n_minus_two() {
    let zero = "00".repeat(32);
    assert!(matches!(sign_script_hex("s", &zero).err().unwrap().kind, CryptoErrorKind::PrivateKey));
    let n_minus_1 = "FFFFFFFEFFFFFFFFFFFFFFFFFFFFFFFF7203DF6B21C6052B53BBF40939D54122";
    assert!(matches!(sign_script_hex("s", n_minus_1).err().unwrap().kind, CryptoErrorKind::PrivateKey));
    let all_ff = "ff".repeat(32);
    assert!(matches!(sign_script_hex("s", &all_ff).err().unwrap().kind, CryptoErrorKind::PrivateKey));
    let n_minus_2 = "FFFFFFFEFFFFFFFFFFFFFFFFFFFFFFFF7203DF6B21C6052B53BBF40939D54121";
    assert!(sign_script_hex("s", n_minus_2).is_ok());
    let one = format!("{}01", "00".repeat(31));
    assert!(sign_script_hex("s", &one).is_ok());
}

#[test]
fn seal_with_uses_the_given_salt_and_nonce() {
    let b64 = base64::engine::general_purpose::STANDARD;
    let salt = [7u8; 16];
    let nonce = [1u8; 12];
    let p = resender::crypto::seal_with("hello", "pw", &salt, &nonce);
    let parts: Vec<&str> = p.split('|').collect();
    assert_eq!(parts.len(), 3);
    assert_eq!(parts[1], b64.encode(nonce));
    assert_eq!(parts[2], b64.encode(salt));
    let key = resender::crypto::derive_key("pw", &salt);
    let ct = libsmx::sm4::sm4_encrypt_gcm_combined(&key, &nonce, b"resender", b"hello");
    assert_eq!(parts[0], b64.encode(&ct));
    assert_eq!(p, resender::crypto::seal_with("hello", "pw", &salt, &nonce));
    assert_eq!(decrypt_with_password(&p, "pw").ok().unwrap(), "hello");
}
