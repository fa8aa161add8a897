//! Decisions of the compose and settings screens: the body that is sent,
//! the preview page, time stamps, the counting period and the settings
//! form.

use vstd::prelude::*;

use crate::config::{
    greg_day, greg_month, greg_year, gregorian_std, AppConfig, ConfigV,
};
use crate::crypto::{decrypt_spec, encrypt_with_password, trust_check, trust_check_spec, CryptoErrorKind};
use crate::markdown::{body_html, document_spec, inlined_or_same, to_html};
use crate::text::{
    decimal, pad_decimal, parse_i64_chars, parse_i64_spec, str_eq, string_from_chars, to_chars, trim,
    trim_chars, zero_padded,
};

verus! {

// ===========================================================================
// Body
// ===========================================================================

/// What mode `mode` sends for `body`: the text, and whether it is HTML.
/// Mode 0 (Markdown) sends the styled HTML rendering, mode 1 (HTML) the body
/// itself as HTML, any other mode the body as plain text.
pub open spec fn resolved_body(body: Seq<char>, mode: i32) -> (Seq<char>, bool) {
    if mode == 0 {
        (inlined_or_same(document_spec(body_html(body))), true)
    } else if mode == 1 {
        (body, true)
    } else {
        (body, false)
    }
}

/// The text to send for a body in a mode, and whether it is HTML.
pub fn resolve_body(body: &str, mode: i32) -> (r: (String, bool))
    ensures
        (r.0@, r.1) == resolved_body(body@, mode),
{
    if mode == 0 {
        (to_html(body), true)
    } else if mode == 1 {
        (String::from_str(body), true)
    } else {
        (String::from_str(body), false)
    }
}

/// The replacement of one char when escaping HTML.
pub open spec fn html_escape_char(c: char) -> Seq<char> {
    if c == '&' {
        seq!['&', 'a', 'm', 'p', ';']
    } else if c == '<' {
        seq!['&', 'l', 't', ';']
    } else if c == '>' {
        seq!['&', 'g', 't', ';']
    } else {
        seq![c]
    }
}

/// `s` with `&`, `<` and `>` replaced by their entities.
pub open spec fn html_escaped(s: Seq<char>) -> Seq<char>
    decreases s.len(),
{
    if s.len() == 0 {
        Seq::empty()
    } else {
        html_escaped(s.drop_last()) + html_escape_char(s.last())
    }
}

/// Escapes `&`, `<` and `>` so that plain text can stand in an HTML page.
pub fn html_escape(s: &str) -> (r: String)
    ensures
        r@ == html_escaped(s@),
{
    let cs = to_chars(s);
    let n = cs.len();
    let mut out: Vec<char> = Vec::new();
    let mut i: usize = 0;
    assert(cs@.take(0) =~= Seq::<char>::empty());
    while i < n
        invariant
            i <= n == cs@.len(),
            out@ == html_escaped(cs@.take(i as int)),
        decreases n - i,
    {
        let c = cs[i];
        let ghost before = out@;
        if c == '&' {
            out.push('&');
            out.push('a');
            out.push('m');
            out.push('p');
            out.push(';');
        } else if c == '<' {
            out.push('&');
            out.push('l');
            out.push('t');
            out.push(';');
        } else if c == '>' {
            out.push('&');
            out.push('g');
            out.push('t');
            out.push(';');
        } else {
            out.push(c);
        }
        assert(out@ =~= before + html_escape_char(c));
        assert(cs@.take(i + 1).drop_last() =~= cs@.take(i as int));
        i = i + 1;
    }
    assert(cs@.take(n as int) =~= cs@);
    string_from_chars(out.as_slice())
}

/// Escaped text holds no `<` or `>`: no tag survives escaping.
pub proof fn lemma_escaped_has_no_tags(s: Seq<char>)
    ensures
        forall|i: int| 0 <= i < html_escaped(s).len() ==> #[trigger] html_escaped(s)[i] != '<'
            && html_escaped(s)[i] != '>',
    decreases s.len(),
{
    if s.len() > 0 {
        lemma_escaped_has_no_tags(s.drop_last());
        let p = html_escaped(s.drop_last());
        let q = html_escape_char(s.last());
        assert forall|i: int| 0 <= i < html_escaped(s).len() implies #[trigger] html_escaped(s)[i]
            != '<' && html_escaped(s)[i] != '>' by {
            if i < p.len() {
                assert(html_escaped(s)[i] == p[i]);
            } else {
                assert(html_escaped(s)[i] == q[i - p.len()]);
            }
        }
    }
}

/// What comes before the escaped text in the plain-text preview page.
pub const PREVIEW_HEAD: &'static str = "<!DOCTYPE html><html><body><pre style=\"font-family: Consolas, monospace; white-space: pre-wrap; padding: 20px;\">";

/// What follows the escaped text in the plain-text preview page.
pub const PREVIEW_TAIL: &'static str = "</pre></body></html>";

/// The page that previews a body: the styled HTML for Markdown, the body
/// itself for HTML, and the escaped text in a `<pre>` otherwise.
pub open spec fn preview_spec(body: Seq<char>, mode: i32) -> Seq<char> {
    if mode == 0 {
        inlined_or_same(document_spec(body_html(body)))
    } else if mode == 1 {
        body
    } else {
        PREVIEW_HEAD@ + html_escaped(body) + PREVIEW_TAIL@
    }
}

/// The HTML page that previews a body in a mode.
pub fn preview_html(body: &str, mode: i32) -> (r: String)
    ensures
        r@ == preview_spec(body@, mode),
{
    if mode == 0 {
        to_html(body)
    } else if mode == 1 {
        String::from_str(body)
    } else {
        let mut out = to_chars(PREVIEW_HEAD);
        let e = html_escape(body);
        out.append(&mut to_chars(e.as_str()));
        out.append(&mut to_chars(PREVIEW_TAIL));
        string_from_chars(out.as_slice())
    }
}

// ===========================================================================
// Dates
// ===========================================================================

/// The day number of the day that `secs` seconds after the Unix epoch falls
/// on, as a Rata Die day number (1 January 1970 is day 719163).
pub open spec fn day_of(secs: u64) -> int {
    secs as int / 86400 + 719163
}

/// `format!("{:04}", y)`: the sign counts in the width.
pub open spec fn year_text(y: i32) -> Seq<char> {
    if y < 0 {
        seq!['-'] + zero_padded(decimal((0 - y) as nat), 3)
    } else {
        zero_padded(decimal(y as nat), 4)
    }
}

/// `format!("{:02}", n)`.
pub open spec fn two_digits(n: int) -> Seq<char> {
    zero_padded(decimal(n as nat), 2)
}

/// `YYYY-MM-DD hh:mm:ss` for `secs` seconds after the Unix epoch, the date
/// in the proleptic Gregorian calendar (UTC).
pub open spec fn iso_spec(secs: u64) -> Seq<char> {
    let rd = day_of(secs);
    year_text(greg_year(rd) as i32) + seq!['-'] + two_digits(greg_month(rd) as u32 as int)
        + seq!['-'] + two_digits(greg_day(rd) as u32 as int) + seq![' '] + two_digits(
        (secs % 86400) as int / 3600,
    ) + seq![':'] + two_digits((secs % 3600) as int / 60) + seq![':'] + two_digits(
        (secs % 60) as int,
    )
}

/// `YYYY-MM-01` of the month that `secs` seconds after the Unix epoch falls
/// in.
pub open spec fn month_start_spec(secs: u64) -> Seq<char> {
    let rd = day_of(secs);
    year_text(greg_year(rd) as i32) + seq!['-'] + two_digits(greg_month(rd) as u32 as int)
        + seq!['-', '0', '1']
}

fn year_chars(y: i32) -> (r: Vec<char>)
    ensures
        r@ == year_text(y),
{
    if y < 0 {
        let m: u64 = (0i64 - y as i64) as u64;
        let mut out: Vec<char> = Vec::new();
        out.push('-');
        let mut d = pad_decimal(m, 3);
        out.append(&mut d);
        assert(out@ =~= year_text(y));
        out
    } else {
        pad_decimal(y as u64, 4)
    }
}

/// The time stamp of the moment `secs` seconds after the Unix epoch (the
/// caller reads the clock), as `YYYY-MM-DD hh:mm:ss`.
pub fn now_iso_string(secs: u64) -> (r: String)
    ensures
        r@ == iso_spec(secs),
{
    assert(secs as int / 86400 <= 0xffff_ffff_ffff_ffffint / 86400) by (nonlinear_arith)
        requires
            secs <= 0xffff_ffff_ffff_ffffu64,
    ;
    let days: i64 = (secs / 86400) as i64 + 719163;
    let (y, m, d) = gregorian_std(days);
    let hh = (secs % 86400) / 3600;
    let mm = (secs % 3600) / 60;
    let ss = secs % 60;
    let mut out = year_chars(y);
    out.push('-');
    out.append(&mut pad_decimal(m as u64, 2));
    out.push('-');
    out.append(&mut pad_decimal(d as u64, 2));
    out.push(' ');
    out.append(&mut pad_decimal(hh, 2));
    out.push(':');
    out.append(&mut pad_decimal(mm, 2));
    out.push(':');
    out.append(&mut pad_decimal(ss, 2));
    assert(out@ =~= iso_spec(secs));
    string_from_chars(out.as_slice())
}

/// The first day of the month of `secs` seconds after the Unix epoch, as
/// `YYYY-MM-01`.
pub fn month_start(secs: u64) -> (r: String)
    ensures
        r@ == month_start_spec(secs),
{
    assert(secs as int / 86400 <= 0xffff_ffff_ffff_ffffint / 86400) by (nonlinear_arith)
        requires
            secs <= 0xffff_ffff_ffff_ffffu64,
    ;
    let days: i64 = (secs / 86400) as i64 + 719163;
    let (y, m, _d) = gregorian_std(days);
    let mut out = year_chars(y);
    out.push('-');
    out.append(&mut pad_decimal(m as u64, 2));
    out.push('-');
    out.push('0');
    out.push('1');
    assert(out@ =~= month_start_spec(secs));
    string_from_chars(out.as_slice())
}

// ===========================================================================
// Counting period
// ===========================================================================

/// The key of the current counting period: the configured period start,
/// or the first day of the current month when none is configured.
pub open spec fn cycle_key_spec(cycle_start: Seq<char>, now_secs: u64) -> Seq<char> {
    if cycle_start.len() == 0 {
        month_start_spec(now_secs)
    } else {
        cycle_start
    }
}

/// The key of the current counting period.
pub fn cycle_key(cycle_start: &str, now_secs: u64) -> (r: String)
    ensures
        r@ == cycle_key_spec(cycle_start@, now_secs),
{
    if cycle_start.is_empty() {
        month_start(now_secs)
    } else {
        String::from_str(cycle_start)
    }
}

/// The configuration after the period check at a moment: when the period
/// mark is not the current period key, the period count goes back to 0 and
/// the mark takes the key; otherwise nothing changes.
pub open spec fn rolled(c: ConfigV, now_secs: u64) -> ConfigV {
    let key = cycle_key_spec(c.cycle_start, now_secs);
    if c.cycle_mark != key {
        ConfigV { month_count: 0, cycle_mark: key, ..c }
    } else {
        c
    }
}

/// What the period's quota leaves: the quota less what was sent this
/// period (below zero once it is overspent), held to the `i64` range.
pub open spec fn remaining_spec(quota: i64, month_count: i64) -> int {
    let d = quota - month_count;
    if d > i64::MAX {
        i64::MAX as int
    } else if d < i64::MIN {
        i64::MIN as int
    } else {
        d
    }
}

/// The remaining quota of the period: quota − sent this period.
pub fn remaining_quota(quota: i64, month_count: i64) -> (r: i64)
    ensures
        r == remaining_spec(quota, month_count),
{
    let d: i128 = quota as i128 - month_count as i128;
    if d > i64::MAX as i128 {
        i64::MAX
    } else if d < i64::MIN as i128 {
        i64::MIN
    } else {
        d as i64
    }
}

/// Whether the period's quota is used up: nothing remains.
pub fn quota_used_up(quota: i64, month_count: i64) -> (r: bool)
    ensures
        r == (quota - month_count <= 0),
{
    remaining_quota(quota, month_count) <= 0
}

/// Starts a new counting period when the period key changed; returns
/// whether it did (and the configuration must be saved).
pub fn roll_cycle(cfg: &mut AppConfig, now_secs: u64) -> (changed: bool)
    ensures
        changed == (old(cfg).cycle_mark@ != cycle_key_spec(old(cfg).cycle_start@, now_secs)),
        final(cfg)@ == rolled(old(cfg)@, now_secs),
{
    let key = cycle_key(cfg.cycle_start.as_str(), now_secs);
    if !str_eq(cfg.cycle_mark.as_str(), key.as_str()) {
        cfg.month_count = 0;
        cfg.cycle_mark = key;
        true
    } else {
        false
    }
}

/// Checking the period twice at the same moment is checking it once: the
/// second check changes nothing.
pub proof fn lemma_roll_cycle_idempotent(c: ConfigV, now_secs: u64)
    ensures
        rolled(rolled(c, now_secs), now_secs) == rolled(c, now_secs),
        rolled(c, now_secs).cycle_mark == cycle_key_spec(c.cycle_start, now_secs),
{
}

// ===========================================================================
// Settings form
// ===========================================================================

/// What the settings screen submits.
pub struct SettingsForm {
    pub api_key: String,
    pub from_name: String,
    /// The password used to encrypt; empty for none.
    pub crypto_password: String,
    pub plan_index: usize,
    pub encrypt_api_key: bool,
    pub encrypt_from: bool,
    pub custom_quota_text: String,
    pub cycle_start: String,
    pub keep_after_send: bool,
    pub trust_enabled: bool,
    pub trust_password: String,
    pub sig_mode: String,
    pub pubkey: String,
}

/// The custom quota a text gives: its trimmed decimal value, or 0.
pub open spec fn quota_of_text(t: Seq<char>) -> i64 {
    match parse_i64_spec(trim(t)) {
        Some(n) => n,
        None => 0,
    }
}

/// A stored secret: plain when not encrypted, else a payload that decrypts
/// to the plain text with the password.
pub open spec fn stored_secret(stored: Seq<char>, enc: bool, plain: Seq<char>, password: Seq<char>) -> bool {
    if enc {
        decrypt_spec(stored, password) == Ok::<Seq<char>, CryptoErrorKind>(plain)
    } else {
        stored == plain
    }
}

/// Takes the settings form into the configuration. The API key is stored
/// encrypted when asked for and a password is given; the sender name when
/// asked for, not empty and a password is given.
pub fn apply_settings(cfg: &mut AppConfig, form: &SettingsForm)
    ensures
        final(cfg).api_key_enc == (form.encrypt_api_key && form.crypto_password@.len() > 0),
        stored_secret(
            final(cfg).api_key@,
            final(cfg).api_key_enc,
            form.api_key@,
            form.crypto_password@,
        ),
        final(cfg).from_name_enc == (form.encrypt_from && form.from_name@.len() > 0
            && form.crypto_password@.len() > 0),
        stored_secret(
            final(cfg).from_name@,
            final(cfg).from_name_enc,
            form.from_name@,
            form.crypto_password@,
        ),
        final(cfg).plan_index == form.plan_index,
        final(cfg).custom_quota == quota_of_text(form.custom_quota_text@),
        final(cfg).cycle_start@ == form.cycle_start@,
        final(cfg).keep_after_send == form.keep_after_send,
        final(cfg).script_trust_enabled == form.trust_enabled,
        final(cfg).script_trust_password@ == trust_check_spec(form.trust_password@),
        final(cfg).script_sig_verify@ == form.sig_mode@,
        final(cfg).script_pubkey@ == form.pubkey@,
        final(cfg).total_count == old(cfg).total_count,
        final(cfg).cycle_mark@ == old(cfg).cycle_mark@,
        final(cfg).month_count == old(cfg).month_count,
        final(cfg).nav_collapsed == old(cfg).nav_collapsed,
        final(cfg).zen_mode == old(cfg).zen_mode,
        final(cfg).update_url@ == old(cfg).update_url@,
{
    let qt = trim_chars(to_chars(form.custom_quota_text.as_str()).as_slice());
    let custom_quota: i64 = match parse_i64_chars(qt.as_slice()) {
        Some(n) => n,
        None => 0,
    };
    let has_password = !form.crypto_password.as_str().is_empty();
    let mut api_key_out = form.api_key.clone();
    let mut api_enc = false;
    if form.encrypt_api_key && has_password {
        match encrypt_with_password(form.api_key.as_str(), form.crypto_password.as_str()) {
            Ok(s) => {
                api_key_out = s;
                api_enc = true;
            },
            Err(_) => {},
        }
    }
    let mut from_out = form.from_name.clone();
    let mut from_enc = false;
    if form.encrypt_from && !form.from_name.as_str().is_empty() && has_password {
        match encrypt_with_password(form.from_name.as_str(), form.crypto_password.as_str()) {
            Ok(s) => {
                from_out = s;
                from_enc = true;
            },
            Err(_) => {},
        }
    }
    cfg.api_key = api_key_out;
    cfg.api_key_enc = api_enc;
    cfg.from_name = from_out;
    cfg.from_name_enc = from_enc;
    cfg.plan_index = form.plan_index;
    cfg.custom_quota = custom_quota;
    cfg.cycle_start = form.cycle_start.clone();
    cfg.keep_after_send = form.keep_after_send;
    cfg.script_trust_enabled = form.trust_enabled;
    cfg.script_trust_password = trust_check(form.trust_password.as_str());
    cfg.script_sig_verify = form.sig_mode.clone();
    cfg.script_pubkey = form.pubkey.clone();
}

} // verus!
