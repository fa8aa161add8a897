//! The interface primitives scripts call: the status line, the log buffer,
//! confirmations, the interface texts, the theme colours and dark mode.

use vstd::prelude::*;

use super::{chars_eq_ignore_ascii_case, eq_ignore_ascii_case, TextTable};
use crate::draft::strings_view;
use crate::text::{to_chars, trim, trim_chars};

verus! {

/// The status line: its text and whether it reports an error.
pub struct StatusLine {
    pub text: String,
    pub is_err: bool,
}

impl StatusLine {
    /// The status before anything happened: `就绪` (ready), no error.
    pub fn new() -> (s: Self)
        ensures
            s.text@ == "就绪"@,
            !s.is_err,
    {
        StatusLine { text: String::from_str("就绪"), is_err: false }
    }
}

/// Sets the status line; `is_err` shows it as an error.
pub fn set_status(status: &mut StatusLine, text: &str, is_err: bool)
    ensures
        final(status).text@ == text@,
        final(status).is_err == is_err,
{
    status.text = String::from_str(text);
    status.is_err = is_err;
}

/// Whether an answer to a confirmation accepts: `y` or `yes` in any letter
/// case, surrounding white space ignored.
pub fn confirm_accepts(answer: &str) -> (r: bool)
    ensures
        r == (eq_ignore_ascii_case(trim(answer@), "y"@) || eq_ignore_ascii_case(trim(answer@), "yes"@)),
{
    let t = trim_chars(to_chars(answer).as_slice());
    let y = to_chars("y");
    let yes = to_chars("yes");
    chars_eq_ignore_ascii_case(t.as_slice(), y.as_slice()) || chars_eq_ignore_ascii_case(
        t.as_slice(),
        yes.as_slice(),
    )
}

/// Switches dark mode on or off.
pub fn set_dark(dark_mode: &mut bool, dark: bool)
    ensures
        *final(dark_mode) == dark,
{
    *dark_mode = dark;
}

/// Whether dark mode is on.
pub fn is_dark(dark_mode: &bool) -> (r: bool)
    ensures
        r == *dark_mode,
{
    *dark_mode
}

/// The most log lines the buffer keeps.
pub const LOG_BUFFER_LIMIT: usize = 500;

/// The newest [`LOG_BUFFER_LIMIT`] lines.
pub open spec fn newest_lines(s: Seq<Seq<char>>) -> Seq<Seq<char>> {
    if s.len() > LOG_BUFFER_LIMIT {
        s.skip(s.len() - LOG_BUFFER_LIMIT)
    } else {
        s
    }
}

/// Adds a line to the log buffer, which keeps the newest
/// [`LOG_BUFFER_LIMIT`] lines; answers the line.
pub fn log(buffer: &mut Vec<String>, text: &str) -> (r: String)
    ensures
        strings_view(final(buffer)@) == newest_lines(strings_view(old(buffer)@).push(text@)),
        r@ == text@,
{
    let ghost before = strings_view(buffer@);
    buffer.push(String::from_str(text));
    assert(strings_view(buffer@) =~= before.push(text@));
    let n = buffer.len();
    if n > LOG_BUFFER_LIMIT {
        let over = n - LOG_BUFFER_LIMIT;
        let ghost all = strings_view(buffer@);
        let kept = buffer.split_off(over);
        *buffer = kept;
        assert(strings_view(buffer@) =~= all.skip(over as int));
    }
    String::from_str(text)
}

/// Sets an interface text.
pub fn set_i18n(table: &mut TextTable, key: &str, value: &str)
    ensures
        final(table)@ == old(table)@.insert(key@, value@),
{
    table.set(key, value);
}

/// An interface text, or the key itself when it has none.
pub fn get_i18n(table: &TextTable, key: &str) -> (r: String)
    ensures
        table@.dom().contains(key@) ==> r@ == table@[key@],
        !table@.dom().contains(key@) ==> r@ == key@,
{
    match table.get(key) {
        Some(v) => v,
        None => String::from_str(key),
    }
}

/// Sets a theme colour.
pub fn set_theme(table: &mut TextTable, key: &str, value: &str)
    ensures
        final(table)@ == old(table)@.insert(key@, value@),
{
    table.set(key, value);
}

/// A theme colour, or the empty text when it has none.
pub fn get_theme(table: &TextTable, key: &str) -> (r: String)
    ensures
        table@.dom().contains(key@) ==> r@ == table@[key@],
        !table@.dom().contains(key@) ==> r@.len() == 0,
{
    match table.get(key) {
        Some(v) => v,
        None => String::new(),
    }
}

} // verus!
