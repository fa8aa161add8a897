//! Script trust: the sensitive primitives are refused until a script is
//! trusted. Trust is granted by unlocking with the configured password and,
//! when a signature mode is set, a valid signature of the script.

use vstd::prelude::*;

use crate::config::AppConfig;
use crate::crypto::{
    error_text, hex_err_detail, sign_key_spec, sign_script_hex, script_digest, sm2_public_spec, trust_check, trust_check_spec,
    sm2_verify_spec, verify_err_detail, verify_script_sig, verify_spec, CryptoErrorKind,
};
use crate::text::{hex_of, str_eq, string_from_chars, to_chars};

verus! {

/// The trust state of the running script.
pub struct TrustState {
    /// Whether the script passed the unlock.
    pub trusted: bool,
    /// The password it was unlocked with.
    pub trust_password: String,
    /// The signature mode in force.
    pub sig_verify: String,
}

/// Which family of primitives asks.
#[derive(Clone, Copy, Debug)]
pub enum Gate {
    Http,
    Crypto,
    Store,
}

/// The refusal a family of primitives gives an untrusted script.
pub open spec fn gate_message(g: Gate) -> Seq<char> {
    match g {
        Gate::Http => "ERR: 脚本未受信任：功能已禁用，请在「设置 → 脚本信任」中启用并解锁"@,
        Gate::Crypto => "ERR: 脚本未受信任：加密原语已禁用"@,
        Gate::Store => "ERR: 脚本未受信任：存储原语已禁用"@,
    }
}

impl TrustState {
    /// Not trusted, no password, signature mode `off`.
    pub fn new() -> (t: Self)
        ensures
            !t.trusted,
            t.trust_password@.len() == 0,
            t.sig_verify@ == "off"@,
    {
        TrustState { trusted: false, trust_password: String::new(), sig_verify: String::from_str("off") }
    }

    /// The refusal for `gate` when the script is not trusted, else `None`.
    pub fn guard(&self, gate: Gate) -> (r: Option<String>)
        ensures
            self.trusted ==> r is None,
            !self.trusted ==> (r matches Some(m) && m@ == gate_message(gate)),
    {
        if self.trusted {
            None
        } else {
            match gate {
                Gate::Http => Some(
                    String::from_str("ERR: 脚本未受信任：功能已禁用，请在「设置 → 脚本信任」中启用并解锁"),
                ),
                Gate::Crypto => Some(String::from_str("ERR: 脚本未受信任：加密原语已禁用")),
                Gate::Store => Some(String::from_str("ERR: 脚本未受信任：存储原语已禁用")),
            }
        }
    }
}

/// Whether the script is trusted.
pub fn is_trusted(t: &TrustState) -> (r: bool)
    ensures
        r == t.trusted,
{
    t.trusted
}

/// Whether an unlock succeeds: trust enabled, a password whose check value
/// is the configured one, and either no signature mode or a valid signature.
pub open spec fn unlock_granted(cfg: AppConfig, password: Seq<char>, script: Seq<char>, sig_hex: Seq<char>) -> bool {
    &&& cfg.script_trust_enabled
    &&& cfg.script_trust_password@ == trust_check_spec(password)
    &&& (cfg.script_sig_verify@ == "off"@ || verify_spec(
        script,
        cfg.script_pubkey@,
        sig_hex,
        cfg.script_sig_verify@,
    ) == Ok::<bool, CryptoErrorKind>(true))
}

/// What an unlock answers: the empty text on success, else the reason.
pub open spec fn unlock_answer(cfg: AppConfig, password: Seq<char>, script: Seq<char>, sig_hex: Seq<char>) -> Seq<char> {
    let mode = cfg.script_sig_verify@;
    if !cfg.script_trust_enabled {
        "ERR: 脚本信任未启用，请先在设置中启用"@
    } else if cfg.script_trust_password@ != trust_check_spec(password) {
        "ERR: 信任密码错误"@
    } else if mode != "off"@ {
        match verify_spec(script, cfg.script_pubkey@, sig_hex, mode) {
            Ok(true) => Seq::empty(),
            Ok(false) => "ERR: 脚本签名校验未通过"@,
            Err(k) => "ERR: 签名校验错误: "@ + error_text(k, verify_err_detail(k, mode)),
        }
    } else {
        Seq::empty()
    }
}

/// Unlocks trust. On success the state is trusted and remembers the
/// password and the signature mode; otherwise it is unchanged. The answer
/// is empty exactly on success.
pub fn unlock(t: &mut TrustState, cfg: &AppConfig, password: &str, script_source: &str, script_sig_hex: &str) -> (r: String)
    ensures
        r@ == unlock_answer(*cfg, password@, script_source@, script_sig_hex@),
        (r@.len() == 0) == unlock_granted(*cfg, password@, script_source@, script_sig_hex@),
        unlock_granted(*cfg, password@, script_source@, script_sig_hex@) ==> final(t).trusted
            && final(t).trust_password@ == password@ && final(t).sig_verify@
            == cfg.script_sig_verify@,
        !unlock_granted(*cfg, password@, script_source@, script_sig_hex@) ==> *final(t) == *old(t),
{
    proof {
        reveal_strlit("ERR: 脚本信任未启用，请先在设置中启用");
        reveal_strlit("ERR: 信任密码错误");
        reveal_strlit("ERR: 脚本签名校验未通过");
        reveal_strlit("ERR: 签名校验错误: ");
    }
    if !cfg.script_trust_enabled {
        return String::from_str("ERR: 脚本信任未启用，请先在设置中启用");
    }
    let check = trust_check(password);
    if !str_eq(cfg.script_trust_password.as_str(), check.as_str()) {
        return String::from_str("ERR: 信任密码错误");
    }
    if !str_eq(cfg.script_sig_verify.as_str(), "off") {
        match verify_script_sig(
            script_source,
            cfg.script_pubkey.as_str(),
            script_sig_hex,
            cfg.script_sig_verify.as_str(),
        ) {
            Ok(true) => {},
            Ok(false) => return String::from_str("ERR: 脚本签名校验未通过"),
            Err(e) => {
                let mut out = to_chars("ERR: 签名校验错误: ");
                out.append(&mut to_chars(e.message().as_str()));
                return string_from_chars(out.as_slice());
            },
        }
    }
    t.trusted = true;
    t.trust_password = String::from_str(password);
    t.sig_verify = cfg.script_sig_verify.clone();
    String::new()
}

/// Revokes trust and forgets the password.
pub fn lock(t: &mut TrustState)
    ensures
        !final(t).trusted,
        final(t).trust_password@.len() == 0,
        final(t).sig_verify@ == old(t).sig_verify@,
{
    t.trusted = false;
    t.trust_password = String::new();
}

/// The signature mode in force.
pub fn get_sig_mode(t: &TrustState) -> (r: String)
    ensures
        r@ == t.sig_verify@,
{
    t.sig_verify.clone()
}

/// Signs a script with a private key in hex: the signature in hex, or
/// `ERR: ` and the reason.
pub fn sign_script(script_source: &str, priv_key_hex: &str) -> (r: String)
    ensures
        match sign_key_spec(priv_key_hex@) {
            Ok(d) => exists|sig: Seq<u8>|
                sig.len() == 64 && r@ == hex_of(sig) && sm2_verify_spec(
                    script_digest(script_source@, sm2_public_spec(d)),
                    sm2_public_spec(d),
                    sig,
                ),
            Err(k) => exists|detail: Seq<char>|
                r@ == "ERR: "@ + error_text(k, detail) && (k != CryptoErrorKind::PrivateKey
                    ==> detail == hex_err_detail(k)),
        },
{
    match sign_script_hex(script_source, priv_key_hex) {
        Ok(s) => s,
        Err(e) => {
            let mut out = to_chars("ERR: ");
            out.append(&mut to_chars(e.message().as_str()));
            string_from_chars(out.as_slice())
        },
    }
}

} // verus!
