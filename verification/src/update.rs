//! Version check: the remote VersionFile and the comparison of dotted
//! versions (`major.minor.patch`, compared segment by segment as numbers;
//! a segment that is not a number counts as 0, missing segments count as 0).

use vstd::prelude::*;
use std::cmp::Ordering;

use crate::draft::strings_view;
use crate::sml_doc::{self, field_at, fields_view, FieldV, ScalarV, SmlField, SmlScalar};
use crate::text::{
    lemma_split_on_nonempty, lemma_split_on_step, parse_u64_chars, parse_u64_spec, split_on, string_from_chars, to_chars,
    trim, trim_chars,
};

verus! {

/// Remote version information read from a VersionFile.
#[derive(Clone, Debug)]
pub struct RemoteVersion {
    /// Project name (identification only).
    pub project: String,
    /// Latest released version.
    pub latest: String,
    /// Lowest supported version.
    pub min: String,
    /// Release note.
    pub note: String,
    /// Where to download.
    pub url: String,
}

impl Default for RemoteVersion {
    fn default() -> (r: Self)
        ensures
            r.project@.len() == 0,
            r.latest@.len() == 0,
            r.min@.len() == 0,
            r.note@.len() == 0,
            r.url@.len() == 0,
    {
        RemoteVersion {
            project: String::new(),
            latest: String::new(),
            min: String::new(),
            note: String::new(),
            url: String::new(),
        }
    }
}

/// Value of one segment: the trimmed segment read as a `u64`, else 0.
pub open spec fn segment_value(seg: Seq<char>) -> u64 {
    match parse_u64_spec(trim(seg)) {
        Some(v) => v,
        None => 0,
    }
}

/// The numeric segments of a dotted version.
pub open spec fn version_segments(s: Seq<char>) -> Seq<u64> {
    split_on(s, '.').map_values(|seg: Seq<char>| segment_value(seg))
}

/// Segment `i` of `v`, 0 past its end.
pub open spec fn seg_at(v: Seq<u64>, i: int) -> int {
    if 0 <= i < v.len() {
        v[i] as int
    } else {
        0
    }
}

pub open spec fn max_len(a: Seq<u64>, b: Seq<u64>) -> int {
    if a.len() >= b.len() {
        a.len() as int
    } else {
        b.len() as int
    }
}

/// Lexicographic comparison of `a` and `b` from segment `i` on, both
/// padded with zeros to the same length.
pub open spec fn order_from(a: Seq<u64>, b: Seq<u64>, i: int) -> Ordering
    decreases max_len(a, b) - i,
{
    if i >= max_len(a, b) || i < 0 {
        Ordering::Equal
    } else if seg_at(a, i) < seg_at(b, i) {
        Ordering::Less
    } else if seg_at(a, i) > seg_at(b, i) {
        Ordering::Greater
    } else {
        order_from(a, b, i + 1)
    }
}

/// Order of two segment sequences.
pub open spec fn segments_order(a: Seq<u64>, b: Seq<u64>) -> Ordering {
    order_from(a, b, 0)
}

/// Order of two version strings.
pub open spec fn version_order(a: Seq<char>, b: Seq<char>) -> Ordering {
    segments_order(version_segments(a), version_segments(b))
}

pub open spec fn reverse_order(o: Ordering) -> Ordering {
    match o {
        Ordering::Less => Ordering::Greater,
        Ordering::Equal => Ordering::Equal,
        Ordering::Greater => Ordering::Less,
    }
}

/// Splits `s` on '.' and reads each trimmed piece as a number (0 when it
/// is not one).
pub fn parse_version(s: &str) -> (r: Vec<u64>)
    ensures
        r@ == version_segments(s@),
{
    let cs = to_chars(s);
    let n = cs.len();
    let mut out: Vec<u64> = Vec::new();
    let mut cur: Vec<char> = Vec::new();
    let mut i: usize = 0;
    while i < n
        invariant
            i <= n == cs@.len(),
            cs@ == s@,
            split_on(cs@.take(i as int), '.').len() >= 1,
            out@ == split_on(cs@.take(i as int), '.').drop_last().map_values(
                |seg: Seq<char>| segment_value(seg),
            ),
            cur@ == split_on(cs@.take(i as int), '.').last(),
        decreases n - i,
    {
        proof {
            lemma_split_on_step(cs@, i as int, '.');
            lemma_split_on_nonempty(cs@.take(i + 1), '.');
        }
        let c = cs[i];
        if c == '.' {
            let v = segment_of(cur.as_slice());
            proof {
                let r = split_on(cs@.take(i as int), '.');
                let r2 = r.push(Seq::<char>::empty());
                assert(r2.drop_last() =~= r);
                assert(r =~= r.drop_last().push(r.last()));
                assert(r.map_values(|seg: Seq<char>| segment_value(seg)) =~= r.drop_last().map_values(
                    |seg: Seq<char>| segment_value(seg),
                ).push(segment_value(r.last())));
            }
            out.push(v);
            cur = Vec::new();
        } else {
            proof {
                let r = split_on(cs@.take(i as int), '.');
                let r2 = r.update(r.len() - 1, r.last().push(c));
                assert(r2.drop_last() =~= r.drop_last());
            }
            cur.push(c);
        }
        i = i + 1;
    }
    let v = segment_of(cur.as_slice());
    proof {
        assert(cs@.take(n as int) =~= s@);
        let r = split_on(s@, '.');
        assert(r =~= r.drop_last().push(r.last()));
        assert(r.map_values(|seg: Seq<char>| segment_value(seg)) =~= r.drop_last().map_values(
            |seg: Seq<char>| segment_value(seg),
        ).push(segment_value(r.last())));
    }
    out.push(v);
    out
}

/// `seg.trim().parse::<u64>().unwrap_or(0)`.
fn segment_of(seg: &[char]) -> (r: u64)
    ensures
        r == segment_value(seg@),
{
    let t = trim_chars(seg);
    match parse_u64_chars(t.as_slice()) {
        Some(v) => v,
        None => 0,
    }
}

/// `i` as an integer.
pub open spec fn idx(i: usize) -> int {
    i as int
}

/// Segment `i` of `v`, 0 past its end.
fn get_or_zero(v: &Vec<u64>, i: usize) -> (r: u64)
    ensures
        r == seg_at(v@, idx(i)),
{
    if i < v.len() {
        v[i]
    } else {
        0
    }
}

/// Compares two versions segment by segment.
pub fn cmp_versions(a: &str, b: &str) -> (r: Ordering)
    ensures
        r == version_order(a@, b@),
{
    let va = parse_version(a);
    let vb = parse_version(b);
    let n = if va.len() >= vb.len() {
        va.len()
    } else {
        vb.len()
    };
    let mut i: usize = 0;
    while i < n
        invariant
            i <= n,
            n == max_len(va@, vb@),
            va@ == version_segments(a@),
            vb@ == version_segments(b@),
            order_from(va@, vb@, 0) == order_from(va@, vb@, idx(i)),
        decreases n - i,
    {
        let x = get_or_zero(&va, i);
        let y = get_or_zero(&vb, i);
        if x < y {
            return Ordering::Less;
        }
        if y < x {
            return Ordering::Greater;
        }
        i = i + 1;
    }
    Ordering::Equal
}

/// Whether the remote's latest version is newer than `current`.
pub fn has_update(current: &str, remote: &RemoteVersion) -> (r: bool)
    ensures
        r == (version_order(remote.latest@, current@) == Ordering::Greater),
{
    match cmp_versions(remote.latest.as_str(), current) {
        Ordering::Greater => true,
        _ => false,
    }
}

/// The lines the update check prints once the remote version is known: the
/// remote version, its note when it has one, and whether to update.
pub open spec fn update_lines(current: Seq<char>, rv: RemoteVersion) -> Seq<Seq<char>> {
    let head = seq!["远端版本: "@ + rv.latest@];
    let noted = if rv.note@.len() > 0 {
        head.push("更新说明: "@ + rv.note@)
    } else {
        head
    };
    noted.push(
        if version_order(rv.latest@, current) == Ordering::Greater {
            "发现新版本，可前往更新: "@ + rv.url@
        } else {
            "已是最新版本"@
        },
    )
}

fn joined(a: &str, b: &str) -> (r: String)
    ensures
        r@ == a@ + b@,
{
    let mut out = to_chars(a);
    out.append(&mut to_chars(b));
    string_from_chars(out.as_slice())
}

/// What the update check reports about `rv` for version `current`.
pub fn update_report(current: &str, rv: &RemoteVersion) -> (r: Vec<String>)
    ensures
        strings_view(r@) == update_lines(current@, *rv),
{
    let mut out: Vec<String> = Vec::new();
    out.push(joined("远端版本: ", rv.latest.as_str()));
    if !rv.note.as_str().is_empty() {
        out.push(joined("更新说明: ", rv.note.as_str()));
    }
    if has_update(current, rv) {
        out.push(joined("发现新版本，可前往更新: ", rv.url.as_str()));
    } else {
        out.push(String::from_str("已是最新版本"));
    }
    assert(strings_view(out@) =~= update_lines(current@, *rv));
    out
}

/// The notice shown when a newer version is out: `发现新版本 <latest>（当前
/// <current>）`, then the note on a line of its own when there is one.
pub open spec fn notice_text(current: Seq<char>, rv: RemoteVersion) -> Seq<char> {
    "发现新版本 "@ + rv.latest@ + "（当前 "@ + current + "）"@ + if rv.note@.len() > 0 {
        "\n"@ + rv.note@
    } else {
        Seq::<char>::empty()
    }
}

/// The notice for a newer remote version; none when `current` is up to date.
pub fn update_notice(current: &str, rv: &RemoteVersion) -> (r: Option<String>)
    ensures
        version_order(rv.latest@, current@) == Ordering::Greater ==> (r matches Some(m) && m@
            == notice_text(current@, *rv)),
        version_order(rv.latest@, current@) != Ordering::Greater ==> r is None,
{
    if !has_update(current, rv) {
        return None;
    }
    let mut out = to_chars("发现新版本 ");
    out.append(&mut to_chars(rv.latest.as_str()));
    out.append(&mut to_chars("（当前 "));
    out.append(&mut to_chars(current));
    out.append(&mut to_chars("）"));
    if !rv.note.as_str().is_empty() {
        out.append(&mut to_chars("\n"));
        out.append(&mut to_chars(rv.note.as_str()));
    }
    Some(string_from_chars(out.as_slice()))
}

/// A version is equal to itself.
pub proof fn lemma_version_order_reflexive(a: Seq<char>)
    ensures
        version_order(a, a) == Ordering::Equal,
{
    lemma_order_from_reflexive(version_segments(a), 0);
}

/// Swapping the two versions reverses their order.
pub proof fn lemma_version_order_antisymmetric(a: Seq<char>, b: Seq<char>)
    ensures
        version_order(b, a) == reverse_order(version_order(a, b)),
{
    lemma_order_from_antisymmetric(version_segments(a), version_segments(b), 0);
}

/// The order of versions is transitive.
pub proof fn lemma_version_order_transitive(a: Seq<char>, b: Seq<char>, c: Seq<char>, o: Ordering)
    requires
        version_order(a, b) == o,
        version_order(b, c) == o,
    ensures
        version_order(a, c) == o,
{
    lemma_order_from_transitive(version_segments(a), version_segments(b), version_segments(c), 0, o);
}

/// Appending zero segments does not change a version's place in the order:
/// `1.0` and `1.0.0` are equal.
pub proof fn lemma_version_order_zero_padding(a: Seq<u64>, b: Seq<u64>)
    requires
        forall|i: int| 0 <= i < max_len(a, b) ==> seg_at(a, i) == seg_at(b, i),
    ensures
        segments_order(a, b) == Ordering::Equal,
{
    lemma_order_from_equal(a, b, 0);
}

proof fn lemma_order_from_equal(a: Seq<u64>, b: Seq<u64>, i: int)
    requires
        forall|j: int| 0 <= j < max_len(a, b) ==> seg_at(a, j) == seg_at(b, j),
    ensures
        order_from(a, b, i) == Ordering::Equal,
    decreases max_len(a, b) - i,
{
    if i >= 0 && i < max_len(a, b) {
        lemma_order_from_equal(a, b, i + 1);
    }
}

proof fn lemma_order_from_reflexive(a: Seq<u64>, i: int)
    ensures
        order_from(a, a, i) == Ordering::Equal,
    decreases max_len(a, a) - i,
{
    if i >= 0 && i < max_len(a, a) {
        lemma_order_from_reflexive(a, i + 1);
    }
}

proof fn lemma_order_from_antisymmetric(a: Seq<u64>, b: Seq<u64>, i: int)
    ensures
        order_from(b, a, i) == reverse_order(order_from(a, b, i)),
    decreases max_len(a, b) - i,
{
    assert(max_len(a, b) == max_len(b, a));
    if i >= 0 && i < max_len(a, b) {
        lemma_order_from_antisymmetric(a, b, i + 1);
    }
}

proof fn lemma_order_from_transitive(a: Seq<u64>, b: Seq<u64>, c: Seq<u64>, i: int, o: Ordering)
    requires
        order_from(a, b, i) == o,
        order_from(b, c, i) == o,
    ensures
        order_from(a, c, i) == o,
    decreases (max_len(a, b) + max_len(b, c) + max_len(a, c)) - i,
{
    if i >= 0 && (i < max_len(a, b) || i < max_len(b, c) || i < max_len(a, c)) {
        if seg_at(a, i) == seg_at(b, i) && seg_at(b, i) == seg_at(c, i) {
            lemma_order_from_unfold(a, b, i);
            lemma_order_from_unfold(b, c, i);
            lemma_order_from_unfold(a, c, i);
            lemma_order_from_transitive(a, b, c, i + 1, o);
        } else {
            lemma_order_from_unfold(a, b, i);
            lemma_order_from_unfold(b, c, i);
            lemma_order_from_unfold(a, c, i);
        }
    }
}

/// One step of `order_from`, also past the end of both sequences.
proof fn lemma_order_from_unfold(a: Seq<u64>, b: Seq<u64>, i: int)
    requires
        i >= 0,
    ensures
        order_from(a, b, i) == (if seg_at(a, i) < seg_at(b, i) {
            Ordering::Less
        } else if seg_at(a, i) > seg_at(b, i) {
            Ordering::Greater
        } else {
            order_from(a, b, i + 1)
        }),
{
    if i >= max_len(a, b) {
        assert(seg_at(a, i) == 0 && seg_at(b, i) == 0);
    }
}

// ---------------------------------------------------------------------------
// VersionFile
// ---------------------------------------------------------------------------

/// The text of field `key`: its string, or the empty text when the field
/// is absent or not a string (or the document is not a block).
pub open spec fn field_text(fs: Option<Seq<(Seq<char>, FieldV)>>, key: Seq<char>) -> Seq<char> {
    match fs {
        Some(f) => match field_at(f, key) {
            Some(FieldV::Scalar(ScalarV::Str(s))) => s,
            _ => Seq::<char>::empty(),
        },
        None => Seq::<char>::empty(),
    }
}

/// The remote version the fields of a VersionFile give.
pub open spec fn remote_matches(rv: RemoteVersion, fs: Option<Seq<(Seq<char>, FieldV)>>) -> bool {
    &&& rv.project@ == field_text(fs, "project"@)
    &&& rv.latest@ == field_text(fs, "latest"@)
    &&& rv.min@ == field_text(fs, "min"@)
    &&& rv.note@ == field_text(fs, "note"@)
    &&& rv.url@ == field_text(fs, "url"@)
}

pub open spec fn opt_fields_view(o: Option<Vec<(String, SmlField)>>) -> Option<Seq<(Seq<char>, FieldV)>> {
    match o {
        Some(v) => Some(fields_view(v@)),
        None => None,
    }
}

/// The remote version that the fields of a VersionFile (`None` when its
/// top level is not a block) describe.
pub fn remote_version_of(fields: &Option<Vec<(String, SmlField)>>) -> (rv: RemoteVersion)
    ensures
        remote_matches(rv, opt_fields_view(*fields)),
{
    match fields {
        Some(f) => RemoteVersion {
            project: text_field(f.as_slice(), "project"),
            latest: text_field(f.as_slice(), "latest"),
            min: text_field(f.as_slice(), "min"),
            note: text_field(f.as_slice(), "note"),
            url: text_field(f.as_slice(), "url"),
        },
        None => RemoteVersion {
            project: String::new(),
            latest: String::new(),
            min: String::new(),
            note: String::new(),
            url: String::new(),
        },
    }
}

/// Reads a VersionFile (it may declare its `@version`); the error is
/// `VersionFile 解析失败: ` and the SML library's message. (For a text that
/// mentions an environment variable, what the library reads depends on the
/// environment, and nothing is stated.)
pub fn parse_version_file(text: &str) -> (r: Result<RemoteVersion, String>)
    ensures
        sml_doc::env_free(text@) ==> match sml_doc::sml_parsed_versioned(text@) {
            Ok(fs) => r matches Ok(v) && remote_matches(v, fs),
            Err(e) => r matches Err(m) && m@ == "VersionFile 解析失败: "@ + e,
        },
{
    match sml_doc::parse_versioned(text) {
        Ok(fields) => {
            let rv = remote_version_of(&fields);
            Ok(rv)
        },
        Err(e) => {
            let mut out = to_chars("VersionFile 解析失败: ");
            out.append(&mut to_chars(e.as_str()));
            Err(string_from_chars(out.as_slice()))
        },
    }
}

fn text_field(fields: &[(String, SmlField)], key: &str) -> (r: String)
    ensures
        r@ == field_text(Some(fields_view(fields@)), key@),
{
    match sml_doc::get(fields, key) {
        Some(SmlField::Scalar(SmlScalar::Str(s))) => s.clone(),
        _ => String::new(),
    }
}

} // verus!
