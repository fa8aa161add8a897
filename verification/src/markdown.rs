//! Markdown to e-mail friendly HTML.
//!
//! Mail clients drop `<style>` elements or ignore most of CSS, so the styles
//! are inlined into each element's `style` attribute:
//!
//! 1. comrak renders the Markdown with the GFM extensions (tables,
//!    strikethrough, task lists, autolinks);
//! 2. the result is framed with a conservative mail style sheet;
//! 3. css-inline moves the style sheet's rules into `style` attributes. When
//!    that fails the framed document is used as it is.

use vstd::prelude::*;

use crate::text::{string_from_chars, to_chars};

verus! {

/// The mail style sheet: only properties mail clients support (no flex,
/// grid, fixed positions or web fonts).
pub const EMAIL_CSS: &'static str = r#"
body {
    margin: 0;
    padding: 0;
    background-color: #f6f7f9;
    font-family: -apple-system, BlinkMacSystemFont, "Segoe UI", "Microsoft YaHei",
                 "PingFang SC", "Hiragino Sans GB", sans-serif;
    font-size: 15px;
    line-height: 1.75;
    color: #2b2f38;
}
.container {
    max-width: 640px;
    margin: 0 auto;
    padding: 28px;
    background-color: #ffffff;
}
h1, h2, h3, h4 {
    color: #1f232b;
    line-height: 1.35;
    font-weight: 600;
}
h1 { font-size: 24px; margin: 26px 0 14px; }
h2 { font-size: 20px; margin: 22px 0 12px; }
h3 { font-size: 17px; margin: 18px 0 10px; }
h4 { font-size: 15px; margin: 16px 0 8px; }
p  { margin: 12px 0; }
a  { color: #3b82f6; text-decoration: underline; }
strong { font-weight: 600; color: #1f232b; }
hr {
    border: none;
    border-top: 1px solid #e6e8ec;
    margin: 22px 0;
}
ul, ol { padding-left: 26px; margin: 12px 0; }
li { margin: 5px 0; }
code {
    background-color: #eef1f5;
    color: #c7254e;
    padding: 2px 6px;
    border-radius: 5px;
    font-family: Consolas, Monaco, "Courier New", monospace;
    font-size: 13px;
}
pre {
    background-color: #eef1f5;
    padding: 14px 16px;
    border-radius: 8px;
    overflow-x: auto;
    margin: 14px 0;
}
pre code {
    background-color: transparent;
    color: #2b2f38;
    padding: 0;
    font-size: 13px;
}
blockquote {
    margin: 16px 0;
    padding: 10px 16px;
    border-left: 3px solid #22d3ee;
    background-color: #f4fbfd;
    color: #4a5160;
}
blockquote p { margin: 4px 0; }
table {
    border-collapse: collapse;
    width: 100%;
    margin: 16px 0;
    font-size: 14px;
}
th, td {
    border: 1px solid #dfe3ea;
    padding: 9px 12px;
    text-align: left;
}
th { background-color: #eef2ff; font-weight: 600; color: #1f232b; }
tr:nth-child(even) td { background-color: #fafbfc; }
img { max-width: 100%; height: auto; border-radius: 6px; }
.muted { color: #8a909c; font-size: 13px; }
.signature {
    margin-top: 28px;
    padding-top: 16px;
    border-top: 1px solid #e6e8ec;
    color: #8a909c;
    font-size: 12px;
}
"#;

/// What comes before the style sheet in a full document.
pub const DOC_HEAD: &'static str = "<!DOCTYPE html>\n<html lang=\"zh-CN\">\n<head>\n<meta charset=\"utf-8\">\n<meta name=\"viewport\" content=\"width=device-width, initial-scale=1.0\">\n<style>\n";

/// What comes between the style sheet and the body in a full document.
pub const DOC_MID: &'static str = "\n</style>\n</head>\n<body>\n<div class=\"container\">\n";

/// What follows the body in a full document.
pub const DOC_TAIL: &'static str = "\n</div>\n</body>\n</html>\n";

/// What comes before the style sheet in a fragment.
pub const FRAG_HEAD: &'static str = "<style>\n";

/// What comes between the style sheet and the body in a fragment.
pub const FRAG_MID: &'static str = "\n</style>\n<div class=\"container\">\n";

/// What follows the body in a fragment.
pub const FRAG_TAIL: &'static str = "\n</div>";

/// The comrak extensions used.
#[derive(Clone, Copy, Debug)]
pub struct GfmOptions {
    pub table: bool,
    pub strikethrough: bool,
    pub tasklist: bool,
    pub autolink: bool,
}

/// What `comrak::markdown_to_html` renders `md` to, with the default
/// options and the given extensions switched on or off.
pub uninterp spec fn markdown_html(
    md: Seq<char>,
    table: bool,
    strikethrough: bool,
    tasklist: bool,
    autolink: bool,
) -> Seq<char>;

/// What css-inline's inliner, with remote style sheets switched off, makes
/// of `html` (`None` for its error).
pub uninterp spec fn css_inlined(html: Seq<char>) -> Option<Seq<char>>;

/// `comrak::markdown_to_html` with default options and the given
/// extensions. Its result is taken as a function of the text and the
/// options alone.
#[verifier::external_body]
fn render_markdown(md: &str, ext: GfmOptions) -> (r: String)
    ensures
        r@ == markdown_html(md@, ext.table, ext.strikethrough, ext.tasklist, ext.autolink),
{
    let mut options = comrak::Options::default();
    options.extension.table = ext.table;
    options.extension.strikethrough = ext.strikethrough;
    options.extension.tasklist = ext.tasklist;
    options.extension.autolink = ext.autolink;
    comrak::markdown_to_html(md, &options)
}

/// `css_inline::CSSInliner::inline` with default options except that
/// remote style sheets are not fetched; its error becomes `None`. Its
/// result is taken as a function of the document alone.
#[verifier::external_body]
fn inline_styles(html: &str) -> (r: Option<String>)
    ensures
        match css_inlined(html@) {
            Some(s) => r matches Some(x) && x@ == s,
            None => r is None,
        },
{
    css_inline::CSSInliner::options().load_remote_stylesheets(false).build().inline(html).ok()
}

/// The extensions mail bodies use: tables, strikethrough, task lists and
/// autolinks.
pub fn gfm_options() -> (o: GfmOptions)
    ensures
        o.table && o.strikethrough && o.tasklist && o.autolink,
{
    GfmOptions { table: true, strikethrough: true, tasklist: true, autolink: true }
}

/// The rendered Markdown of a mail body.
pub open spec fn body_html(md: Seq<char>) -> Seq<char> {
    markdown_html(md, true, true, true, true)
}

/// A full HTML document around `body`, with the style sheet.
pub open spec fn document_spec(body: Seq<char>) -> Seq<char> {
    DOC_HEAD@ + EMAIL_CSS@ + DOC_MID@ + body + DOC_TAIL@
}

/// A fragment around `body`: the style sheet and a container.
pub open spec fn fragment_spec(body: Seq<char>) -> Seq<char> {
    FRAG_HEAD@ + EMAIL_CSS@ + FRAG_MID@ + body + FRAG_TAIL@
}

/// `doc` with its styles inlined, or `doc` itself when inlining fails.
pub open spec fn inlined_or_same(doc: Seq<char>) -> Seq<char> {
    match css_inlined(doc) {
        Some(s) => s,
        None => doc,
    }
}

/// A full HTML document around already rendered HTML.
pub fn document(body: &str) -> (r: String)
    ensures
        r@ == document_spec(body@),
{
    let mut out = to_chars(DOC_HEAD);
    out.append(&mut to_chars(EMAIL_CSS));
    out.append(&mut to_chars(DOC_MID));
    out.append(&mut to_chars(body));
    out.append(&mut to_chars(DOC_TAIL));
    string_from_chars(out.as_slice())
}

/// A fragment around already rendered HTML.
pub fn fragment(body: &str) -> (r: String)
    ensures
        r@ == fragment_spec(body@),
{
    let mut out = to_chars(FRAG_HEAD);
    out.append(&mut to_chars(EMAIL_CSS));
    out.append(&mut to_chars(FRAG_MID));
    out.append(&mut to_chars(body));
    out.append(&mut to_chars(FRAG_TAIL));
    string_from_chars(out.as_slice())
}

/// Moves the `<style>` rules of `doc` into `style` attributes; when that
/// fails `doc` comes back unchanged.
pub fn inline_css(doc: &str) -> (r: String)
    ensures
        r@ == inlined_or_same(doc@),
{
    match inline_styles(doc) {
        Some(s) => s,
        None => String::from_str(doc),
    }
}

/// Markdown to a full HTML document ready to send, styles inlined.
pub fn to_html(md: &str) -> (r: String)
    ensures
        r@ == inlined_or_same(document_spec(body_html(md@))),
{
    let body = render_markdown(md, gfm_options());
    inline_css(document(body.as_str()).as_str())
}

/// Markdown to an HTML fragment (no `<html>` frame), styles inlined.
pub fn to_fragment(md: &str) -> (r: String)
    ensures
        r@ == inlined_or_same(fragment_spec(body_html(md@))),
{
    let body = render_markdown(md, gfm_options());
    inline_css(fragment(body.as_str()).as_str())
}

} // verus!
