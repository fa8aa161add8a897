//! The run log, kept encrypted.
//!
//! The log file holds one encrypted payload per line (the format of
//! [`crate::crypto::encrypt_with_password`], a fresh salt and nonce each),
//! all sealed with one local key made at random once. Blank lines are
//! ignored; a line that does not decrypt reads
//! as [`UNREADABLE`]. When the file holds more than [`TRIM_AT`] lines it is
//! rewritten with the newest [`MAX_LINES`].
//!
//! The store computes the contents; reading and writing the file is left to
//! the caller.

use vstd::prelude::*;

use crate::crypto::{decrypt_spec, decrypt_with_password, encrypt_with_password, is_payload_char, random_bytes, CryptoErrorKind};
use crate::draft::strings_view;
use crate::text::{
    hex_encode, hex_of, is_blank, is_ws, lemma_hex_of_len, slice_chars, split_on, str_eq, string_from_chars,
    to_chars, trim, trim_bounds, trim_chars, trim_end, trim_start,
};

verus! {

/// What a line that does not decrypt reads as.
pub const UNREADABLE: &'static str = "（一条日志无法解密：本地密钥已变更或数据损坏）";

/// How many lines a trimmed log keeps.
pub const MAX_LINES: usize = 2000;

/// Above this many lines the log is trimmed.
pub const TRIM_AT: usize = MAX_LINES + MAX_LINES / 5;

// ===========================================================================
// The model
// ===========================================================================

/// A line without its carriage return, if it ends with one.
pub open spec fn strip_cr(l: Seq<char>) -> Seq<char> {
    if l.len() > 0 && l.last() == '\r' {
        l.drop_last()
    } else {
        l
    }
}

/// The non-blank pieces that a newline ends, each without the carriage
/// return before that newline.
pub open spec fn nonblank_lines(pieces: Seq<Seq<char>>) -> Seq<Seq<char>>
    decreases pieces.len(),
{
    if pieces.len() == 0 {
        Seq::empty()
    } else {
        let rest = nonblank_lines(pieces.drop_last());
        let l = strip_cr(pieces.last());
        if is_blank(l) {
            rest
        } else {
            rest.push(l)
        }
    }
}

/// The non-blank lines of a log file, as `lines()` gives them: a line that
/// a newline ends loses a carriage return before it; a last line without a
/// newline is kept as it is.
pub open spec fn log_lines(content: Seq<char>) -> Seq<Seq<char>> {
    let pieces = split_on(content, '\n');
    let rest = nonblank_lines(pieces.drop_last());
    if is_blank(pieces.last()) {
        rest
    } else {
        rest.push(pieces.last())
    }
}

/// What one line reads as.
pub open spec fn read_line_spec(line: Seq<char>, key: Seq<char>) -> Seq<char> {
    match decrypt_spec(trim(line), key) {
        Ok(s) => s,
        Err(_) => UNREADABLE@,
    }
}

/// What the log reads as: one text per non-blank line.
pub open spec fn read_all_spec(content: Seq<char>, key: Seq<char>) -> Seq<Seq<char>> {
    log_lines(content).map_values(|l: Seq<char>| read_line_spec(l, key))
}

/// Lines written one after another, each ended by a newline.
pub open spec fn joined_lines(ls: Seq<Seq<char>>) -> Seq<char>
    decreases ls.len(),
{
    if ls.len() == 0 {
        Seq::empty()
    } else {
        joined_lines(ls.drop_last()) + ls.last() + seq!['\n']
    }
}

/// The file after trimming: unchanged up to [`TRIM_AT`] lines, else the
/// newest [`MAX_LINES`] lines.
pub open spec fn trimmed_spec(content: Seq<char>) -> Seq<char> {
    let ls = log_lines(content);
    if ls.len() <= TRIM_AT {
        content
    } else {
        joined_lines(ls.skip(ls.len() - MAX_LINES))
    }
}

/// The newest entries a log keeps after a trim.
pub open spec fn recent(s: Seq<Seq<char>>) -> Seq<Seq<char>> {
    if s.len() <= TRIM_AT {
        s
    } else {
        s.skip(s.len() - MAX_LINES)
    }
}

/// A file that is empty or ends with a newline: the form this store writes.
pub open spec fn complete_lines(content: Seq<char>) -> bool {
    content.len() == 0 || content.last() == '\n'
}

/// The file after one more payload is written and the log trimmed.
pub open spec fn appended_spec(content: Seq<char>, payload: Seq<char>) -> Seq<char> {
    trimmed_spec(content + payload + seq!['\n'])
}

/// A payload `encrypt_with_password` can give for `line` under `key`.
pub open spec fn sealed_line(p: Seq<char>, line: Seq<char>, key: Seq<char>) -> bool {
    &&& p.len() > 0
    &&& forall|i: int| 0 <= i < p.len() ==> is_payload_char(#[trigger] p[i])
    &&& decrypt_spec(p, key) == Ok::<Seq<char>, CryptoErrorKind>(line)
}

pub open spec fn chars_seqs(v: Seq<Vec<char>>) -> Seq<Seq<char>> {
    v.map_values(|x: Vec<char>| x@)
}

/// A line that stays one line: not blank, no newline.
pub open spec fn plain_line(l: Seq<char>) -> bool {
    !is_blank(l) && forall|j: int| 0 <= j < l.len() ==> l[j] != '\n'
}

// ===========================================================================
// Lemmas
// ===========================================================================

proof fn lemma_trim_push_ws(s: Seq<char>, c: char)
    requires
        is_ws(c),
    ensures
        trim(s.push(c)) == trim(s),
    decreases s.len(),
{
    if s.len() == 0 {
        assert(s.push(c).drop_first() =~= s);
        assert(trim_start(s.push(c)) == trim_start(s));
    } else if is_ws(s[0]) {
        lemma_trim_push_ws(s.drop_first(), c);
        assert(s.push(c).drop_first() =~= s.drop_first().push(c));
    } else {
        assert(trim_start(s.push(c)) == s.push(c));
        assert(trim_start(s) == s);
        assert(s.push(c).drop_last() =~= s);
    }
}

proof fn lemma_strip_cr_trim(l: Seq<char>)
    ensures
        trim(strip_cr(l)) == trim(l),
        is_blank(strip_cr(l)) == is_blank(l),
{
    if l.len() > 0 && l.last() == '\r' {
        lemma_trim_push_ws(l.drop_last(), '\r');
        assert(l.drop_last().push('\r') =~= l);
    }
}

proof fn lemma_split_no_sep(s: Seq<char>, sep: char)
    ensures
        forall|i: int, j: int|
            0 <= i < split_on(s, sep).len() && 0 <= j < split_on(s, sep)[i].len() ==> split_on(
                s,
                sep,
            )[i][j] != sep,
    decreases s.len(),
{
    if s.len() > 0 {
        lemma_split_no_sep(s.drop_last(), sep);
        crate::text::lemma_split_on_nonempty(s.drop_last(), sep);
        let r = split_on(s.drop_last(), sep);
        if s.last() != sep {
            let r2 = r.update(r.len() - 1, r.last().push(s.last()));
            assert forall|i: int, j: int| 0 <= i < r2.len() && 0 <= j < r2[i].len() implies r2[i][j]
                != sep by {
                if i == r.len() - 1 && j == r.last().len() {
                } else if i == r.len() - 1 {
                    assert(r2[i][j] == r[i][j]);
                }
            }
        }
    }
}

proof fn lemma_nonblank_plain(pieces: Seq<Seq<char>>)
    requires
        forall|i: int, j: int|
            0 <= i < pieces.len() && 0 <= j < pieces[i].len() ==> pieces[i][j] != '\n',
    ensures
        forall|i: int| 0 <= i < nonblank_lines(pieces).len() ==> plain_line(
            #[trigger] nonblank_lines(pieces)[i],
        ),
    decreases pieces.len(),
{
    if pieces.len() > 0 {
        let p = pieces.drop_last();
        assert forall|i: int, j: int| 0 <= i < p.len() && 0 <= j < p[i].len() implies p[i][j]
            != '\n' by {
            assert(p[i] == pieces[i]);
        }
        lemma_nonblank_plain(p);
        let l = strip_cr(pieces.last());
        assert forall|j: int| 0 <= j < l.len() implies l[j] != '\n' by {
            assert(l[j] == pieces[pieces.len() - 1][j]);
        }
        let rest = nonblank_lines(p);
        let all = nonblank_lines(pieces);
        assert forall|i: int| 0 <= i < all.len() implies plain_line(#[trigger] all[i]) by {
            if i < rest.len() {
                assert(all[i] == rest[i]);
            } else {
                assert(all[i] == l);
            }
        }
    }
}

/// Every line of a log is a plain line.
proof fn lemma_log_lines_plain(content: Seq<char>)
    ensures
        forall|i: int| 0 <= i < log_lines(content).len() ==> plain_line(
            #[trigger] log_lines(content)[i],
        ),
{
    lemma_split_no_sep(content, '\n');
    let pieces = split_on(content, '\n');
    crate::text::lemma_split_on_nonempty(content, '\n');
    let q = pieces.drop_last();
    assert forall|i: int, j: int| 0 <= i < q.len() && 0 <= j < q[i].len() implies q[i][j]
        != '\n' by {
        assert(q[i] == pieces[i]);
    }
    lemma_nonblank_plain(q);
    let rest = nonblank_lines(q);
    let all = log_lines(content);
    let l = pieces.last();
    assert forall|j: int| 0 <= j < l.len() implies l[j] != '\n' by {
        assert(l[j] == pieces[pieces.len() - 1][j]);
    }
    assert forall|i: int| 0 <= i < all.len() implies plain_line(#[trigger] all[i]) by {
        if i < rest.len() {
            assert(all[i] == rest[i]);
        } else {
            assert(all[i] == l);
        }
    }
}

proof fn lemma_split_append_line(c: Seq<char>, l: Seq<char>)
    requires
        complete_lines(c),
        forall|j: int| 0 <= j < l.len() ==> l[j] != '\n',
    ensures
        split_on(c, '\n').len() >= 1,
        split_on(c, '\n').last() == Seq::<char>::empty(),
        split_on(c + l + seq!['\n'], '\n') == split_on(c, '\n').drop_last().push(l).push(
            Seq::<char>::empty(),
        ),
{
    let e = Seq::<char>::empty();
    if c.len() == 0 {
        assert(split_on(c, '\n') =~= seq![e]);
    } else {
        crate::text::lemma_split_on_nonempty(c.drop_last(), '\n');
    }
    crate::text::lemma_split_on_nonempty(c, '\n');
    let r = split_on(c, '\n');
    crate::text::lemma_split_append_plain(c, l, '\n');
    assert(r.last() + l =~= l);
    let x = c + l;
    let y = x + seq!['\n'];
    assert(y.drop_last() =~= x);
    assert(c + l + seq!['\n'] =~= y);
    assert(r.update(r.len() - 1, l) =~= r.drop_last().push(l));
}

/// Writing one more line adds it to the log's lines (when it is not blank).
proof fn lemma_log_lines_append(c: Seq<char>, l: Seq<char>)
    requires
        complete_lines(c),
        forall|j: int| 0 <= j < l.len() ==> l[j] != '\n',
    ensures
        log_lines(c + l + seq!['\n']) == (if is_blank(l) {
            log_lines(c)
        } else {
            log_lines(c).push(strip_cr(l))
        }),
{
    let e = Seq::<char>::empty();
    lemma_split_append_line(c, l);
    lemma_strip_cr_trim(l);
    let q = split_on(c, '\n').drop_last();
    let ps = q.push(l).push(e);
    assert(ps.drop_last() =~= q.push(l));
    assert(q.push(l).drop_last() =~= q);
    assert(strip_cr(e) =~= e);
    assert(trim(e) =~= e);
    assert(split_on(c, '\n') =~= q.push(e));
    assert(q.push(e).drop_last() =~= q);
    assert(is_blank(e));
    assert(ps.last() == e);
    assert(log_lines(c + l + seq!['\n']) == nonblank_lines(q.push(l)));
    assert(log_lines(c) == nonblank_lines(q));
    assert(nonblank_lines(q.push(l)) == (if is_blank(strip_cr(l)) {
        nonblank_lines(q)
    } else {
        nonblank_lines(q).push(strip_cr(l))
    }));
}

/// Writing one more plain line adds what it reads as to what the log reads
/// as.
proof fn lemma_read_all_append(c: Seq<char>, l: Seq<char>, key: Seq<char>)
    requires
        complete_lines(c),
        plain_line(l),
    ensures
        read_all_spec(c + l + seq!['\n'], key) == read_all_spec(c, key).push(
            read_line_spec(l, key),
        ),
{
    lemma_log_lines_append(c, l);
    lemma_strip_cr_trim(l);
    assert(read_line_spec(strip_cr(l), key) == read_line_spec(l, key));
    assert(read_all_spec(c + l + seq!['\n'], key) =~= read_all_spec(c, key).push(
        read_line_spec(l, key),
    ));
}

proof fn lemma_joined_complete(ls: Seq<Seq<char>>)
    ensures
        complete_lines(joined_lines(ls)),
{
}

/// Reading lines written by `joined_lines` gives what each line reads as.
proof fn lemma_read_joined(ls: Seq<Seq<char>>, key: Seq<char>)
    requires
        forall|i: int| 0 <= i < ls.len() ==> plain_line(#[trigger] ls[i]),
    ensures
        read_all_spec(joined_lines(ls), key) == ls.map_values(
            |l: Seq<char>| read_line_spec(l, key),
        ),
    decreases ls.len(),
{
    if ls.len() == 0 {
        assert(joined_lines(ls) =~= Seq::<char>::empty());
        assert(split_on(Seq::<char>::empty(), '\n') =~= seq![Seq::<char>::empty()]);
        assert(seq![Seq::<char>::empty()].drop_last() =~= Seq::<Seq<char>>::empty());
        assert(trim(Seq::<char>::empty()) =~= Seq::<char>::empty());
        assert(strip_cr(Seq::<char>::empty()) =~= Seq::<char>::empty());
        assert(is_blank(Seq::<char>::empty()));
        assert(seq![Seq::<char>::empty()].last() == Seq::<char>::empty());
        assert(nonblank_lines(Seq::<Seq<char>>::empty()) =~= Seq::<Seq<char>>::empty());
        assert(nonblank_lines(seq![Seq::<char>::empty()]) =~= Seq::<Seq<char>>::empty());
        assert(log_lines(Seq::<char>::empty()) =~= Seq::<Seq<char>>::empty());
        assert(read_all_spec(joined_lines(ls), key) =~= ls.map_values(
            |l: Seq<char>| read_line_spec(l, key),
        ));
    } else {
        let p = ls.drop_last();
        assert forall|i: int| 0 <= i < p.len() implies plain_line(#[trigger] p[i]) by {
            assert(p[i] == ls[i]);
        }
        lemma_read_joined(p, key);
        lemma_joined_complete(p);
        assert(plain_line(ls[ls.len() - 1]));
        lemma_read_all_append(joined_lines(p), ls.last(), key);
        assert(ls.map_values(|l: Seq<char>| read_line_spec(l, key)) =~= p.map_values(
            |l: Seq<char>| read_line_spec(l, key),
        ).push(read_line_spec(ls.last(), key)));
    }
}

/// A payload is one plain line that trims to itself.
proof fn lemma_payload_line(p: Seq<char>)
    requires
        p.len() > 0,
        forall|i: int| 0 <= i < p.len() ==> is_payload_char(#[trigger] p[i]),
    ensures
        plain_line(p),
        strip_cr(p) == p,
        trim(p) == p,
{
    assert(is_payload_char(p[0]));
    assert(is_payload_char(p[p.len() - 1]));
    assert(trim_start(p) == p);
    assert(trim_end(p) == p);
    assert forall|j: int| 0 <= j < p.len() implies p[j] != '\n' by {
        assert(is_payload_char(p[j]));
    }
}

/// What a log reads as after one more line is appended: what it read as
/// before, followed by the new line, of which only the newest
/// [`MAX_LINES`] stay once there are more than [`TRIM_AT`]. The file keeps
/// its complete lines.
pub proof fn lemma_append_then_read(content: Seq<char>, p: Seq<char>, line: Seq<char>, key: Seq<char>)
    requires
        complete_lines(content),
        sealed_line(p, line, key),
    ensures
        complete_lines(appended_spec(content, p)),
        read_all_spec(appended_spec(content, p), key) == recent(
            read_all_spec(content, key).push(line),
        ),
{
    lemma_payload_line(p);
    let c1 = content + p + seq!['\n'];
    lemma_log_lines_append(content, p);
    lemma_read_all_append(content, p, key);
    assert(read_line_spec(p, key) == line);
    let ls = log_lines(c1);
    let a1 = read_all_spec(c1, key);
    assert(a1 == read_all_spec(content, key).push(line));
    if ls.len() > TRIM_AT {
        let k = ls.len() - MAX_LINES;
        let kept = ls.skip(k);
        lemma_log_lines_plain(c1);
        assert forall|i: int| 0 <= i < kept.len() implies plain_line(#[trigger] kept[i]) by {
            assert(kept[i] == ls[i + k]);
        }
        lemma_read_joined(kept, key);
        lemma_joined_complete(kept);
        assert(kept.map_values(|l: Seq<char>| read_line_spec(l, key)) =~= a1.skip(k));
    } else {
        assert(c1.last() == '\n');
    }
}

// ===========================================================================
// Executable side
// ===========================================================================

/// Adds a finished piece to the lines when it is not blank, without its
/// trailing carriage return when a newline ended it.
fn finish_piece(out: &mut Vec<Vec<char>>, piece: Vec<char>, ended: bool)
    ensures
        ({
            let l = if ended {
                strip_cr(piece@)
            } else {
                piece@
            };
            chars_seqs(final(out)@) == (if is_blank(l) {
                chars_seqs(old(out)@)
            } else {
                chars_seqs(old(out)@).push(l)
            })
        }),
{
    let mut l = piece;
    let n = l.len();
    if ended && n > 0 && l[n - 1] == '\r' {
        l.pop();
        assert(l@ =~= strip_cr(piece@));
    }
    let (lo, hi) = trim_bounds(l.as_slice());
    if lo < hi {
        let ghost before = chars_seqs(out@);
        out.push(l);
        assert(chars_seqs(out@) =~= before.push(l@));
    }
}

/// The non-blank lines of a log file.
fn lines_of(content: &[char]) -> (r: Vec<Vec<char>>)
    ensures
        chars_seqs(r@) == log_lines(content@),
{
    let n = content.len();
    let mut out: Vec<Vec<char>> = Vec::new();
    let mut cur: Vec<char> = Vec::new();
    let mut i: usize = 0;
    assert(content@.take(0) =~= Seq::<char>::empty());
    assert(split_on(Seq::<char>::empty(), '\n') =~= seq![Seq::<char>::empty()]);
    assert(seq![Seq::<char>::empty()].drop_last() =~= Seq::<Seq<char>>::empty());
    assert(chars_seqs(out@) =~= Seq::<Seq<char>>::empty());
    while i < n
        invariant
            i <= n == content@.len(),
            split_on(content@.take(i as int), '\n').len() >= 1,
            chars_seqs(out@) == nonblank_lines(split_on(content@.take(i as int), '\n').drop_last()),
            cur@ == split_on(content@.take(i as int), '\n').last(),
        decreases n - i,
    {
        proof {
            crate::text::lemma_split_on_step(content@, i as int, '\n');
        }
        let ghost r = split_on(content@.take(i as int), '\n');
        if content[i] == '\n' {
            let piece = cur;
            cur = Vec::new();
            finish_piece(&mut out, piece, true);
            assert(r.push(Seq::<char>::empty()).drop_last() =~= r);
            assert(r =~= r.drop_last().push(r.last()));
        } else {
            cur.push(content[i]);
            assert(r.update(r.len() - 1, r.last().push(content@[i as int])).drop_last()
                =~= r.drop_last());
        }
        i = i + 1;
    }
    let ghost r = split_on(content@, '\n');
    assert(content@.take(n as int) =~= content@);
    finish_piece(&mut out, cur, false);
    assert(r =~= r.drop_last().push(r.last()));
    out
}

/// `content` after trimming.
fn trim_content(content: &[char]) -> (r: Vec<char>)
    ensures
        r@ == trimmed_spec(content@),
{
    let lines = lines_of(content);
    let n = lines.len();
    if n <= TRIM_AT {
        return slice_chars(content, 0, content.len());
    }
    let start = n - MAX_LINES;
    let ghost ls = chars_seqs(lines@);
    let mut out: Vec<char> = Vec::new();
    let mut i = start;
    assert(ls.subrange(start as int, start as int) =~= Seq::<Seq<char>>::empty());
    while i < n
        invariant
            start <= i <= n == lines@.len(),
            ls == chars_seqs(lines@),
            out@ == joined_lines(ls.subrange(start as int, i as int)),
        decreases n - i,
    {
        let ghost before = out@;
        let mut piece = lines[i].clone();
        out.append(&mut piece);
        out.push('\n');
        let ghost t = ls.subrange(start as int, i + 1);
        assert(t.drop_last() =~= ls.subrange(start as int, i as int));
        assert(t.last() == lines@[i as int]@);
        assert(out@ =~= before + lines@[i as int]@ + seq!['\n']);
        i = i + 1;
    }
    assert(ls.subrange(start as int, n as int) =~= ls.skip(n - MAX_LINES));
    out
}

/// The file `content` becomes when the sealed line `payload` is written
/// after it: the payload on a line of its own, then the log trimmed to its
/// newest [`MAX_LINES`] lines once there are more than [`TRIM_AT`].
pub fn append_payload(content: &str, payload: &str) -> (r: String)
    ensures
        r@ == appended_spec(content@, payload@),
{
    let mut all = to_chars(content);
    all.append(&mut to_chars(payload));
    all.push('\n');
    assert(all@ =~= content@ + payload@ + seq!['\n']);
    let out = trim_content(all.as_slice());
    string_from_chars(out.as_slice())
}

/// The encrypted run log.
pub struct LogStore {
    path: String,
    key: String,
}

impl LogStore {
    /// Where the log file is.
    pub closed spec fn location(&self) -> Seq<char> {
        self.path@
    }

    /// The local key the lines are sealed with.
    pub closed spec fn secret(&self) -> Seq<char> {
        self.key@
    }

    /// A store for the file at `path`, sealing with `key`.
    pub fn new(path: &str, key: &str) -> (s: Self)
        ensures
            s.location() == path@,
            s.secret() == key@,
    {
        LogStore { path: String::from_str(path), key: String::from_str(key) }
    }

    /// Where the log file is.
    pub fn path(&self) -> (r: &str)
        ensures
            r@ == self.location(),
    {
        self.path.as_str()
    }

    /// The file `content` becomes when `line` is appended: its encryption
    /// under the local key on a line of its own, then trimmed. Reading the
    /// new file gives what the old one read as followed by `line`, of which
    /// only the newest [`MAX_LINES`] stay once there are more than
    /// [`TRIM_AT`].
    pub fn append(&self, content: &str, line: &str) -> (r: String)
        ensures
            exists|p: Seq<char>|
                sealed_line(p, line@, self.secret()) && r@ == appended_spec(content@, p),
            complete_lines(content@) ==> complete_lines(r@) && read_all_spec(r@, self.secret())
                == recent(read_all_spec(content@, self.secret()).push(line@)),
    {
        let p = encrypt_with_password(line, self.key.as_str());
        let payload = match p {
            Ok(s) => s,
            Err(_) => {
                proof {
                    assert(false);
                }
                return String::from_str(content);
            },
        };
        let out = append_payload(content, payload.as_str());
        proof {
            assert(sealed_line(payload@, line@, self.key@));
            if complete_lines(content@) {
                lemma_append_then_read(content@, payload@, line@, self.key@);
            }
        }
        out
    }

    /// What the log file `content` reads as: each non-blank line decrypted,
    /// or [`UNREADABLE`] where it does not decrypt.
    pub fn read_all(&self, content: &str) -> (r: Vec<String>)
        ensures
            strings_view(r@) == read_all_spec(content@, self.secret()),
    {
        let cs = to_chars(content);
        let lines = lines_of(cs.as_slice());
        let ghost ls = chars_seqs(lines@);
        let n = lines.len();
        let mut out: Vec<String> = Vec::new();
        let mut i: usize = 0;
        while i < n
            invariant
                i <= n == lines@.len(),
                ls == chars_seqs(lines@),
                ls == log_lines(content@),
                strings_view(out@) == ls.take(i as int).map_values(
                    |l: Seq<char>| read_line_spec(l, self.secret()),
                ),
            decreases n - i,
        {
            let t = trim_chars(lines[i].as_slice());
            let s = string_from_chars(t.as_slice());
            let text = match decrypt_with_password(s.as_str(), self.key.as_str()) {
                Ok(x) => x,
                Err(_) => String::from_str(UNREADABLE),
            };
            assert(text@ == read_line_spec(ls[i as int], self.secret()));
            let ghost before = strings_view(out@);
            out.push(text);
            assert(strings_view(out@) =~= before.push(text@));
            assert(ls.take(i + 1).map_values(|l: Seq<char>| read_line_spec(l, self.secret()))
                =~= ls.take(i as int).map_values(|l: Seq<char>| read_line_spec(l, self.secret())).push(
                read_line_spec(ls[i as int], self.secret()),
            ));
            i = i + 1;
        }
        assert(ls.take(n as int) =~= ls);
        out
    }

    /// Whether the log file has anything in it, given its length (`None`
    /// when it cannot be read).
    pub fn has_content(&self, file_len: Option<u64>) -> (r: bool)
        ensures
            r == (file_len matches Some(n) && n > 0),
    {
        match file_len {
            Some(n) => n > 0,
            None => false,
        }
    }
}

/// The lines the log panel shows: the lines in memory, then each line read
/// from the file that is not shown yet.
pub open spec fn merged_lines(shown: Seq<Seq<char>>, disk: Seq<Seq<char>>) -> Seq<Seq<char>>
    decreases disk.len(),
{
    if disk.len() == 0 {
        shown
    } else {
        let before = merged_lines(shown, disk.drop_last());
        if before.contains(disk.last()) {
            before
        } else {
            before.push(disk.last())
        }
    }
}

fn shown_already(lines: &Vec<String>, l: &str) -> (r: bool)
    ensures
        r == strings_view(lines@).contains(l@),
{
    let n = lines.len();
    let mut i: usize = 0;
    while i < n
        invariant
            i <= n == lines@.len(),
            forall|j: int| 0 <= j < i ==> #[trigger] lines@[j]@ != l@,
        decreases n - i,
    {
        if str_eq(lines[i].as_str(), l) {
            assert(strings_view(lines@)[i as int] == l@);
            return true;
        }
        i = i + 1;
    }
    assert(!strings_view(lines@).contains(l@)) by {
        if strings_view(lines@).contains(l@) {
            let j = choose|j: int| 0 <= j < n && strings_view(lines@)[j] == l@;
            assert(lines@[j]@ == l@);
        }
    }
    false
}

/// The log panel's lines: `memory`, then the lines of `disk` not already
/// among them.
pub fn merge_log_lines(memory: &[String], disk: &[String]) -> (r: Vec<String>)
    ensures
        strings_view(r@) == merged_lines(strings_view(memory@), strings_view(disk@)),
{
    let mut out: Vec<String> = Vec::new();
    let m = memory.len();
    let mut i: usize = 0;
    while i < m
        invariant
            i <= m == memory@.len(),
            strings_view(out@) == strings_view(memory@).take(i as int),
        decreases m - i,
    {
        let ghost before = strings_view(out@);
        out.push(memory[i].clone());
        assert(strings_view(out@) =~= before.push(memory@[i as int]@));
        assert(strings_view(memory@).take(i + 1) =~= strings_view(memory@).take(i as int).push(
            memory@[i as int]@,
        ));
        i = i + 1;
    }
    assert(strings_view(memory@).take(m as int) =~= strings_view(memory@));
    let ghost shown = strings_view(memory@);
    let ghost dv = strings_view(disk@);
    let n = disk.len();
    let mut k: usize = 0;
    assert(dv.take(0) =~= Seq::<Seq<char>>::empty());
    while k < n
        invariant
            k <= n == disk@.len(),
            dv == strings_view(disk@),
            strings_view(out@) == merged_lines(shown, dv.take(k as int)),
        decreases n - k,
    {
        assert(dv.take(k + 1).drop_last() =~= dv.take(k as int));
        assert(dv.take(k + 1).last() == disk@[k as int]@);
        if !shown_already(&out, disk[k].as_str()) {
            let ghost before = strings_view(out@);
            out.push(disk[k].clone());
            assert(strings_view(out@) =~= before.push(disk@[k as int]@));
        }
        k = k + 1;
    }
    assert(dv.take(n as int) =~= dv);
    out
}

/// The key a key file holds: its text without surrounding white space,
/// unless that is empty.
pub fn existing_key(text: &str) -> (r: Option<String>)
    ensures
        trim(text@).len() > 0 ==> (r matches Some(k) && k@ == trim(text@)),
        trim(text@).len() == 0 ==> r is None,
{
    let cs = to_chars(text);
    let t = trim_chars(cs.as_slice());
    if t.len() == 0 {
        None
    } else {
        Some(string_from_chars(t.as_slice()))
    }
}

/// A new local key: 32 random bytes in lower-case hex.
pub fn fresh_key() -> (r: String)
    ensures
        exists|b: Seq<u8>| b.len() == 32 && r@ == hex_of(b),
        r@.len() == 64,
{
    let b = random_bytes();
    let r = hex_encode(&b);
    proof {
        lemma_hex_of_len(b@);
    }
    r
}

} // verus!
