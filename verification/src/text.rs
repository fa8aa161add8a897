//! Character-level text utilities shared by the library: Unicode white
//! space and trimming, splitting on a separator, decimal numbers and
//! lower-case hex.

use vstd::prelude::*;

verus! {

// ---------------------------------------------------------------------------
// White space and trimming
// ---------------------------------------------------------------------------

/// The Unicode `White_Space` property (what `char::is_whitespace` tests).
pub open spec fn is_ws(c: char) -> bool {
    let u = c as u32;
    (0x09 <= u && u <= 0x0d) || u == 0x20 || u == 0x85 || u == 0xa0 || u == 0x1680 || (0x2000
        <= u && u <= 0x200a) || u == 0x2028 || u == 0x2029 || u == 0x202f || u == 0x205f || u
        == 0x3000
}

/// `char::is_whitespace`.
pub fn is_whitespace(c: char) -> (r: bool)
    ensures
        r == is_ws(c),
{
    let u = c as u32;
    (0x09 <= u && u <= 0x0d) || u == 0x20 || u == 0x85 || u == 0xa0 || u == 0x1680 || (0x2000
        <= u && u <= 0x200a) || u == 0x2028 || u == 0x2029 || u == 0x202f || u == 0x205f || u
        == 0x3000
}

/// `s` with its leading white space removed.
pub open spec fn trim_start(s: Seq<char>) -> Seq<char>
    decreases s.len(),
{
    if s.len() > 0 && is_ws(s[0]) {
        trim_start(s.drop_first())
    } else {
        s
    }
}

/// `s` with its trailing white space removed.
pub open spec fn trim_end(s: Seq<char>) -> Seq<char>
    decreases s.len(),
{
    if s.len() > 0 && is_ws(s.last()) {
        trim_end(s.drop_last())
    } else {
        s
    }
}

/// `str::trim`: `s` without leading and trailing white space.
pub open spec fn trim(s: Seq<char>) -> Seq<char> {
    trim_end(trim_start(s))
}

pub proof fn lemma_trim_start_skip(s: Seq<char>, lo: int)
    requires
        0 <= lo <= s.len(),
        forall|k: int| 0 <= k < lo ==> is_ws(#[trigger] s[k]),
        lo == s.len() || !is_ws(s[lo]),
    ensures
        trim_start(s) == s.skip(lo),
    decreases lo,
{
    if lo == 0 {
        assert(s.skip(0) =~= s);
    } else {
        let t = s.drop_first();
        assert forall|k: int| 0 <= k < lo - 1 implies is_ws(#[trigger] t[k]) by {
            assert(t[k] == s[k + 1]);
        }
        if lo - 1 < t.len() {
            assert(t[lo - 1] == s[lo]);
        }
        lemma_trim_start_skip(t, lo - 1);
        assert(t.skip(lo - 1) =~= s.skip(lo));
    }
}

pub proof fn lemma_trim_end_take(s: Seq<char>, hi: int)
    requires
        0 <= hi <= s.len(),
        forall|k: int| hi <= k < s.len() ==> is_ws(#[trigger] s[k]),
        hi == 0 || !is_ws(s[hi - 1]),
    ensures
        trim_end(s) == s.take(hi),
    decreases s.len() - hi,
{
    if hi == s.len() {
        assert(s.take(hi) =~= s);
    } else {
        let t = s.drop_last();
        assert forall|k: int| hi <= k < t.len() implies is_ws(#[trigger] t[k]) by {
            assert(t[k] == s[k]);
        }
        if hi > 0 {
            assert(t[hi - 1] == s[hi - 1]);
        }
        lemma_trim_end_take(t, hi);
        assert(t.take(hi) =~= s.take(hi));
    }
}

/// The chars of `s`.
pub fn to_chars(s: &str) -> (r: Vec<char>)
    ensures
        r@ == s@,
{
    let mut out: Vec<char> = Vec::new();
    for c in it: s.chars()
        invariant
            out@ == it.seq().take(it.index() as int),
            it.seq() == s@,
    {
        out.push(c);
    }
    out
}

/// The string made of `cs` (`Iterator::collect` of the chars into a
/// `String`).
#[verifier::external_body]
pub(crate) fn string_from_chars(cs: &[char]) -> (r: String)
    ensures
        r@ == cs@,
{
    cs.iter().collect()
}

/// `a == lit`.
pub fn chars_eq(a: &[char], lit: &str) -> (r: bool)
    ensures
        r == (a@ == lit@),
{
    let b = to_chars(lit);
    if a.len() != b.len() {
        assert(a@.len() != b@.len());
        return false;
    }
    let n = a.len();
    let mut i: usize = 0;
    while i < n
        invariant
            i <= n == a@.len() == b@.len(),
            b@ == lit@,
            forall|k: int| 0 <= k < i ==> a@[k] == b@[k],
        decreases n - i,
    {
        if a[i] != b[i] {
            assert(a@[i as int] != b@[i as int]);
            assert(a@ != b@);
            return false;
        }
        i = i + 1;
    }
    assert(a@ =~= b@);
    true
}

/// `a == b` for two strings.
pub fn str_eq(a: &str, b: &str) -> (r: bool)
    ensures
        r == (a@ == b@),
{
    let cs = to_chars(a);
    chars_eq(cs.as_slice(), b)
}

/// `s[lo..hi]` as a new vector.
pub fn slice_chars(s: &[char], lo: usize, hi: usize) -> (r: Vec<char>)
    requires
        lo <= hi <= s@.len(),
    ensures
        r@ == s@.subrange(lo as int, hi as int),
{
    let mut out: Vec<char> = Vec::new();
    let mut i = lo;
    while i < hi
        invariant
            lo <= i <= hi <= s@.len(),
            out@ == s@.subrange(lo as int, i as int),
        decreases hi - i,
    {
        out.push(s[i]);
        i = i + 1;
        assert(out@ =~= s@.subrange(lo as int, i as int));
    }
    out
}

/// Bounds of `trim(s)` inside `s`.
pub fn trim_bounds(s: &[char]) -> (r: (usize, usize))
    ensures
        r.0 <= r.1 <= s@.len(),
        trim(s@) == s@.subrange(r.0 as int, r.1 as int),
{
    let n = s.len();
    let mut lo: usize = 0;
    while lo < n && is_whitespace(s[lo])
        invariant
            lo <= n == s@.len(),
            forall|k: int| 0 <= k < lo ==> is_ws(#[trigger] s@[k]),
        decreases n - lo,
    {
        lo = lo + 1;
    }
    proof {
        lemma_trim_start_skip(s@, lo as int);
    }
    let mut hi: usize = n;
    while hi > lo && is_whitespace(s[hi - 1])
        invariant
            lo <= hi <= n == s@.len(),
            forall|k: int| hi <= k < n ==> is_ws(#[trigger] s@[k]),
        decreases hi - lo,
    {
        hi = hi - 1;
    }
    proof {
        let t = s@.skip(lo as int);
        assert forall|k: int| hi - lo <= k < t.len() implies is_ws(#[trigger] t[k]) by {
            assert(t[k] == s@[k + lo]);
        }
        if hi > lo {
            assert(t[hi - lo - 1] == s@[hi - 1]);
        }
        lemma_trim_end_take(t, hi - lo);
        assert(t.take(hi - lo) =~= s@.subrange(lo as int, hi as int));
    }
    (lo, hi)
}

/// `str::trim` on a char vector.
pub fn trim_chars(s: &[char]) -> (r: Vec<char>)
    ensures
        r@ == trim(s@),
{
    let (lo, hi) = trim_bounds(s);
    slice_chars(s, lo, hi)
}

/// Whether `trim(s)` is empty.
pub open spec fn is_blank(s: Seq<char>) -> bool {
    trim(s).len() == 0
}

/// `s.trim().is_empty()`.
pub fn str_is_blank(s: &str) -> (r: bool)
    ensures
        r == is_blank(s@),
{
    let cs = to_chars(s);
    let (lo, hi) = trim_bounds(cs.as_slice());
    lo == hi
}

// ---------------------------------------------------------------------------
// Splitting
// ---------------------------------------------------------------------------

/// `str::split(sep)`: the pieces of `s` between occurrences of `sep`
/// (there is always at least one piece).
pub open spec fn split_on(s: Seq<char>, sep: char) -> Seq<Seq<char>>
    decreases s.len(),
{
    if s.len() == 0 {
        seq![Seq::<char>::empty()]
    } else {
        let rest = split_on(s.drop_last(), sep);
        if s.last() == sep {
            rest.push(Seq::<char>::empty())
        } else {
            rest.update(rest.len() - 1, rest.last().push(s.last()))
        }
    }
}

pub proof fn lemma_split_on_nonempty(s: Seq<char>, sep: char)
    ensures
        split_on(s, sep).len() >= 1,
    decreases s.len(),
{
    if s.len() > 0 {
        lemma_split_on_nonempty(s.drop_last(), sep);
    }
}

/// Unfolds `split_on` at one more character.
pub proof fn lemma_split_on_step(s: Seq<char>, i: int, sep: char)
    requires
        0 <= i < s.len(),
    ensures
        split_on(s.take(i + 1), sep) == (if s[i] == sep {
            split_on(s.take(i), sep).push(Seq::<char>::empty())
        } else {
            let r = split_on(s.take(i), sep);
            r.update(r.len() - 1, r.last().push(s[i]))
        }),
{
    let t = s.take(i + 1);
    assert(t.drop_last() =~= s.take(i));
    assert(t.last() == s[i]);
}

/// Appending text free of the separator extends the last piece.
pub proof fn lemma_split_append_plain(x: Seq<char>, y: Seq<char>, sep: char)
    requires
        forall|i: int| 0 <= i < y.len() ==> y[i] != sep,
    ensures
        split_on(x + y, sep) == ({
            let r = split_on(x, sep);
            r.update(r.len() - 1, r.last() + y)
        }),
    decreases y.len(),
{
    lemma_split_on_nonempty(x, sep);
    if y.len() == 0 {
        assert(x + y =~= x);
        let r = split_on(x, sep);
        assert(r.last() + y =~= r.last());
        assert(r.update(r.len() - 1, r.last()) =~= r);
    } else {
        let y0 = y.drop_last();
        lemma_split_append_plain(x, y0, sep);
        assert((x + y).drop_last() =~= x + y0);
        assert((x + y).last() == y.last());
        let r = split_on(x, sep);
        let r0 = r.update(r.len() - 1, r.last() + y0);
        assert(r0.last().push(y.last()) =~= r.last() + y);
        assert(r0.update(r0.len() - 1, r0.last().push(y.last())) =~= r.update(
            r.len() - 1,
            r.last() + y,
        ));
    }
}

// ---------------------------------------------------------------------------
// Decimal numbers
// ---------------------------------------------------------------------------

pub open spec fn is_digit(c: char) -> bool {
    '0' <= c && c <= '9'
}

pub open spec fn digit_val(c: char) -> int {
    (c as int) - ('0' as int)
}

pub open spec fn all_digits(s: Seq<char>) -> bool {
    forall|i: int| 0 <= i < s.len() ==> is_digit(#[trigger] s[i])
}

/// The number written by the decimal digits `s`.
pub open spec fn digits_value(s: Seq<char>) -> nat
    decreases s.len(),
{
    if s.len() == 0 {
        0
    } else {
        (digits_value(s.drop_last()) * 10 + digit_val(s.last())) as nat
    }
}

/// The digits after an optional leading `+`.
pub open spec fn unsigned_body(s: Seq<char>) -> Seq<char> {
    if s.len() > 0 && s[0] == '+' {
        s.drop_first()
    } else {
        s
    }
}

/// `str::parse::<u64>`: an optional `+`, then one or more decimal digits
/// whose value fits in a `u64`; anything else is refused.
pub open spec fn parse_u64_spec(s: Seq<char>) -> Option<u64> {
    let d = unsigned_body(s);
    if d.len() > 0 && all_digits(d) && digits_value(d) <= u64::MAX {
        Some(digits_value(d) as u64)
    } else {
        None
    }
}

/// `str::parse::<i64>`: an optional sign, then one or more decimal digits
/// whose value fits in an `i64`; anything else is refused.
pub open spec fn parse_i64_spec(s: Seq<char>) -> Option<i64> {
    if s.len() > 0 && s[0] == '-' {
        let d = s.drop_first();
        if d.len() > 0 && all_digits(d) && digits_value(d) <= 0x8000_0000_0000_0000 {
            Some((0 - digits_value(d)) as i64)
        } else {
            None
        }
    } else {
        let d = unsigned_body(s);
        if d.len() > 0 && all_digits(d) && digits_value(d) <= i64::MAX {
            Some(digits_value(d) as i64)
        } else {
            None
        }
    }
}

/// Reads `s[lo..]` as decimal digits: whether all its chars are digits,
/// then whether their value fits a `u64`, then that value.
fn scan_digits(s: &[char], lo: usize) -> (r: (bool, bool, u64))
    requires
        lo <= s@.len(),
    ensures
        r.0 == all_digits(s@.skip(lo as int)),
        r.0 ==> (r.1 == (digits_value(s@.skip(lo as int)) <= u64::MAX)),
        r.0 && r.1 ==> r.2 == digits_value(s@.skip(lo as int)),
{
    let n = s.len();
    let mut i = lo;
    let mut acc: u64 = 0;
    let mut fits = true;
    while i < n
        invariant
            lo <= i <= n == s@.len(),
            all_digits(s@.subrange(lo as int, i as int)),
            fits ==> acc == digits_value(s@.subrange(lo as int, i as int)),
            !fits ==> digits_value(s@.subrange(lo as int, i as int)) > u64::MAX,
        decreases n - i,
    {
        let c = s[i];
        if !('0' <= c && c <= '9') {
            proof {
                let t = s@.skip(lo as int);
                assert(t[i - lo] == c);
            }
            return (false, false, 0);
        }
        let d = (c as u32 - '0' as u32) as u64;
        proof {
            let p = s@.subrange(lo as int, i + 1);
            assert(p.drop_last() =~= s@.subrange(lo as int, i as int));
            assert(p.last() == c);
            assert(d == digit_val(c));
        }
        if fits {
            if acc > (u64::MAX - d) / 10 {
                fits = false;
                assert(acc * 10 + d > u64::MAX) by (nonlinear_arith)
                    requires
                        acc > (u64::MAX - d) / 10,
                        d <= 9,
                ;
            } else {
                assert(acc * 10 + d <= u64::MAX) by (nonlinear_arith)
                    requires
                        acc <= (u64::MAX - d) / 10,
                        d <= 9,
                ;
                acc = acc * 10 + d;
            }
        }
        i = i + 1;
        proof {
            let p = s@.subrange(lo as int, i as int);
            assert forall|k: int| 0 <= k < p.len() implies is_digit(#[trigger] p[k]) by {
                if k < p.len() - 1 {
                    assert(p[k] == s@.subrange(lo as int, i - 1)[k]);
                }
            }
        }
    }
    assert(s@.subrange(lo as int, n as int) =~= s@.skip(lo as int));
    (true, fits, acc)
}

/// `str::parse::<u64>` on a char slice.
pub fn parse_u64_chars(s: &[char]) -> (r: Option<u64>)
    ensures
        r == parse_u64_spec(s@),
{
    let lo: usize = if s.len() > 0 && s[0] == '+' {
        1
    } else {
        0
    };
    assert(s@.skip(lo as int) =~= unsigned_body(s@));
    if lo >= s.len() {
        return None;
    }
    let (digits, fits, v) = scan_digits(s, lo);
    if digits && fits {
        Some(v)
    } else {
        None
    }
}

/// `str::parse::<i64>` on a char slice.
pub fn parse_i64_chars(s: &[char]) -> (r: Option<i64>)
    ensures
        r == parse_i64_spec(s@),
{
    if s.len() > 0 && s[0] == '-' {
        assert(s@.skip(1) =~= s@.drop_first());
        if s.len() == 1 {
            return None;
        }
        let (digits, fits, v) = scan_digits(s, 1);
        if digits && fits && v <= 0x8000_0000_0000_0000u64 {
            if v == 0x8000_0000_0000_0000u64 {
                Some(i64::MIN)
            } else {
                Some(0 - (v as i64))
            }
        } else {
            None
        }
    } else {
        let lo: usize = if s.len() > 0 && s[0] == '+' {
            1
        } else {
            0
        };
        assert(s@.skip(lo as int) =~= unsigned_body(s@));
        if lo >= s.len() {
            return None;
        }
        let (digits, fits, v) = scan_digits(s, lo);
        if digits && fits && v <= 0x7fff_ffff_ffff_ffffu64 {
            Some(v as i64)
        } else {
            None
        }
    }
}

/// Decimal digits of `n`, most significant first, without leading zeros
/// (`0` is written `0`).
pub open spec fn decimal(n: nat) -> Seq<char>
    decreases n,
{
    if n < 10 {
        seq![digit_char(n)]
    } else {
        decimal(n / 10).push(digit_char(n % 10))
    }
}

pub open spec fn digit_char(d: nat) -> char {
    ((d + ('0' as nat)) as u32) as char
}

/// Decimal text of `n`.
pub fn u64_to_decimal(n: u64) -> (r: Vec<char>)
    ensures
        r@ == decimal(n as nat),
    decreases n,
{
    if n < 10 {
        let c = char_of_digit(n);
        let mut v: Vec<char> = Vec::new();
        v.push(c);
        v
    } else {
        let mut v = u64_to_decimal(n / 10);
        let c = char_of_digit(n % 10);
        v.push(c);
        v
    }
}

/// Decimal text of a signed number: a `-` before the digits of a negative
/// one.
pub open spec fn signed_decimal(n: int) -> Seq<char> {
    if n < 0 {
        seq!['-'] + decimal((0 - n) as nat)
    } else {
        decimal(n as nat)
    }
}

/// `n.to_string()` for an `i64`.
pub fn i64_to_decimal(n: i64) -> (r: Vec<char>)
    ensures
        r@ == signed_decimal(n as int),
{
    if n < 0 {
        let m: u64 = (0i128 - n as i128) as u64;
        let mut out: Vec<char> = Vec::new();
        out.push('-');
        let mut d = u64_to_decimal(m);
        out.append(&mut d);
        assert(out@ =~= seq!['-'] + decimal((0 - n) as nat));
        out
    } else {
        u64_to_decimal(n as u64)
    }
}

/// `s` left-padded with zeros to at least `width` chars.
pub open spec fn zero_padded(s: Seq<char>, width: nat) -> Seq<char> {
    if s.len() >= width {
        s
    } else {
        Seq::new((width - s.len()) as nat, |i: int| '0') + s
    }
}

/// `format!("{:0w$}", n)` for an unsigned `n`.
pub fn pad_decimal(n: u64, width: usize) -> (r: Vec<char>)
    ensures
        r@ == zero_padded(decimal(n as nat), width as nat),
{
    let d = u64_to_decimal(n);
    if d.len() >= width {
        return d;
    }
    let k = width - d.len();
    let mut out: Vec<char> = Vec::new();
    let mut i: usize = 0;
    while i < k
        invariant
            i <= k,
            out@ == Seq::new(i as nat, |j: int| '0'),
        decreases k - i,
    {
        out.push('0');
        i = i + 1;
        assert(out@ =~= Seq::new(i as nat, |j: int| '0'));
    }
    let mut d2 = d;
    out.append(&mut d2);
    assert(out@ =~= zero_padded(decimal(n as nat), width as nat));
    out
}

/// The char of the decimal digit `d`.
pub fn char_of_digit(d: u64) -> (c: char)
    requires
        d < 10,
    ensures
        c == digit_char(d as nat),
{
    if d == 0 {
        '0'
    } else if d == 1 {
        '1'
    } else if d == 2 {
        '2'
    } else if d == 3 {
        '3'
    } else if d == 4 {
        '4'
    } else if d == 5 {
        '5'
    } else if d == 6 {
        '6'
    } else if d == 7 {
        '7'
    } else if d == 8 {
        '8'
    } else {
        '9'
    }
}

// ---------------------------------------------------------------------------
// Hex
// ---------------------------------------------------------------------------

/// Lower-case hex digit of `d < 16`.
pub open spec fn hex_char(d: int) -> char {
    if d < 10 {
        ((d + ('0' as int)) as u32) as char
    } else {
        ((d - 10 + ('a' as int)) as u32) as char
    }
}

/// A lower-case hex digit.
pub open spec fn is_lower_hex(c: char) -> bool {
    ('0' <= c && c <= '9') || ('a' <= c && c <= 'f')
}

/// `format!("{:02x}", b)` for each byte, concatenated.
pub open spec fn hex_of(b: Seq<u8>) -> Seq<char>
    decreases b.len(),
{
    if b.len() == 0 {
        Seq::<char>::empty()
    } else {
        hex_of(b.drop_last()) + seq![hex_char(b.last() as int / 16), hex_char(b.last() as int % 16)]
    }
}

/// Value of a hex digit (either case), or `None`.
pub open spec fn hex_digit_value(c: char) -> Option<int> {
    if '0' <= c && c <= '9' {
        Some((c as int) - ('0' as int))
    } else if 'a' <= c && c <= 'f' {
        Some((c as int) - ('a' as int) + 10)
    } else if 'A' <= c && c <= 'F' {
        Some((c as int) - ('A' as int) + 10)
    } else {
        None
    }
}

/// `u8::from_str_radix(pair, 16)` for a two-char `pair` (which, like any
/// `from_str_radix`, takes a leading `+`).
pub open spec fn hex_pair_value(a: char, b: char) -> Option<u8> {
    if a == '+' {
        match hex_digit_value(b) {
            Some(y) => Some(y as u8),
            None => None,
        }
    } else {
        match (hex_digit_value(a), hex_digit_value(b)) {
            (Some(x), Some(y)) => Some((x * 16 + y) as u8),
            _ => None,
        }
    }
}

/// Bytes of an even-length hex text, or `None` where a pair is not hex.
pub open spec fn unhex(s: Seq<char>) -> Option<Seq<u8>>
    decreases s.len(),
{
    if s.len() < 2 {
        Some(Seq::<u8>::empty())
    } else {
        match (unhex(s.subrange(0, s.len() - 2)), hex_pair_value(s[s.len() - 2], s[s.len() - 1])) {
            (Some(p), Some(b)) => Some(p.push(b)),
            _ => None,
        }
    }
}

fn hex_digit(d: u8) -> (c: char)
    requires
        d < 16,
    ensures
        c == hex_char(d as int),
{
    if d < 10 {
        char_of_digit(d as u64)
    } else if d == 10 {
        'a'
    } else if d == 11 {
        'b'
    } else if d == 12 {
        'c'
    } else if d == 13 {
        'd'
    } else if d == 14 {
        'e'
    } else {
        'f'
    }
}

/// Lower-case hex text of `b`.
pub fn hex_encode(b: &[u8]) -> (r: String)
    ensures
        r@ == hex_of(b@),
{
    let mut out: Vec<char> = Vec::new();
    let n = b.len();
    let mut i: usize = 0;
    while i < n
        invariant
            i <= n == b@.len(),
            out@ == hex_of(b@.take(i as int)),
        decreases n - i,
    {
        let x = b[i];
        proof {
            let t = b@.take(i + 1);
            assert(t.drop_last() =~= b@.take(i as int));
            assert(t.last() == x);
        }
        out.push(hex_digit(x / 16));
        out.push(hex_digit(x % 16));
        i = i + 1;
    }
    assert(b@.take(n as int) =~= b@);
    string_from_chars(out.as_slice())
}

fn hex_digit_val(c: char) -> (r: Option<u8>)
    ensures
        match hex_digit_value(c) {
            Some(v) => r == Some(v as u8),
            None => r is None,
        },
        r matches Some(v) ==> v < 16,
{
    if '0' <= c && c <= '9' {
        Some((c as u32 - '0' as u32) as u8)
    } else if 'a' <= c && c <= 'f' {
        Some((c as u32 - 'a' as u32 + 10) as u8)
    } else if 'A' <= c && c <= 'F' {
        Some((c as u32 - 'A' as u32 + 10) as u8)
    } else {
        None
    }
}

/// Bytes of the hex text `s` (even length), or `None` where a pair is not hex.
pub fn unhex_chars(s: &[char]) -> (r: Option<Vec<u8>>)
    requires
        s@.len() % 2 == 0,
    ensures
        match unhex(s@) {
            Some(b) => r matches Some(v) && v@ == b,
            None => r is None,
        },
{
    let n = s.len();
    let mut out: Vec<u8> = Vec::new();
    let mut i: usize = 0;
    while i < n
        invariant
            i <= n == s@.len(),
            i % 2 == 0,
            n % 2 == 0,
            unhex(s@.take(i as int)) == Some(out@),
        decreases n - i,
    {
        let plus = s[i] == '+';
        let a = if plus {
            Some(0u8)
        } else {
            hex_digit_val(s[i])
        };
        let b = hex_digit_val(s[i + 1]);
        proof {
            let t = s@.take(i + 2);
            assert(t.subrange(0, t.len() - 2) =~= s@.take(i as int));
            assert(t[t.len() - 2] == s@[i as int]);
            assert(t[t.len() - 1] == s@[i + 1]);
        }
        match (a, b) {
            (Some(x), Some(y)) => {
                out.push(x * 16 + y);
            },
            _ => {
                proof {
                    lemma_unhex_none_extends(s@, i + 2);
                }
                return None;
            },
        }
        i = i + 2;
    }
    assert(s@.take(n as int) =~= s@);
    Some(out)
}

/// A failing pair makes every even-length extension fail too.
pub proof fn lemma_unhex_none_extends(s: Seq<char>, k: int)
    requires
        0 <= k <= s.len(),
        k % 2 == 0,
        s.len() % 2 == 0,
        unhex(s.take(k)) is None,
    ensures
        unhex(s) is None,
    decreases s.len() - k,
{
    if k < s.len() {
        let t = s.take(k + 2);
        assert(t.subrange(0, t.len() - 2) =~= s.take(k));
        lemma_unhex_none_extends(s, k + 2);
    } else {
        assert(s.take(k) =~= s);
    }
}

/// Length of a hex text.
pub proof fn lemma_hex_of_len(b: Seq<u8>)
    ensures
        hex_of(b).len() == 2 * b.len(),
    decreases b.len(),
{
    if b.len() > 0 {
        lemma_hex_of_len(b.drop_last());
    }
}

proof fn lemma_hex_char(d: int)
    requires
        0 <= d < 16,
    ensures
        is_lower_hex(hex_char(d)),
        hex_digit_value(hex_char(d)) == Some(d),
        hex_char(d) != '+',
        !is_ws(hex_char(d)),
        '\0' <= hex_char(d) <= '\u{7f}',
{
}

/// Reading back a hex text gives the bytes.
pub proof fn lemma_unhex_hex_of(b: Seq<u8>)
    ensures
        unhex(hex_of(b)) == Some(b),
        trim(hex_of(b)) == hex_of(b),
        hex_of(b).len() % 2 == 0,
    decreases b.len(),
{
    lemma_hex_of_len(b);
    if b.len() == 0 {
        assert(trim(Seq::<char>::empty()) =~= Seq::<char>::empty());
    } else {
        let p = b.drop_last();
        let x = b.last();
        lemma_unhex_hex_of(p);
        lemma_hex_of_len(p);
        let h = hex_of(b);
        let hi = x as int / 16;
        let lo = x as int % 16;
        lemma_hex_char(hi);
        lemma_hex_char(lo);
        assert(h.subrange(0, h.len() - 2) =~= hex_of(p));
        assert(h[h.len() - 2] == hex_char(hi));
        assert(h[h.len() - 1] == hex_char(lo));
        assert((hi * 16 + lo) as u8 == x);
        assert(p.push(x) =~= b);
        // no white space anywhere in a hex text
        assert forall|k: int| 0 <= k < h.len() implies !is_ws(#[trigger] h[k]) by {
            if k < h.len() - 2 {
                assert(h[k] == hex_of(p)[k]);
                lemma_hex_no_ws(p, k);
            }
        }
        lemma_trim_start_skip(h, 0);
        assert(h.skip(0) =~= h);
        lemma_trim_end_take(h, h.len() as int);
        assert(h.take(h.len() as int) =~= h);
    }
}

pub proof fn lemma_hex_no_ws(b: Seq<u8>, k: int)
    requires
        0 <= k < hex_of(b).len(),
    ensures
        is_lower_hex(hex_of(b)[k]),
        !is_ws(hex_of(b)[k]),
        '\0' <= hex_of(b)[k] <= '\u{7f}',
    decreases b.len(),
{
    lemma_hex_of_len(b);
    let p = b.drop_last();
    lemma_hex_of_len(p);
    let h = hex_of(b);
    if k < h.len() - 2 {
        assert(h[k] == hex_of(p)[k]);
        lemma_hex_no_ws(p, k);
    } else {
        lemma_hex_char(b.last() as int / 16);
        lemma_hex_char(b.last() as int % 16);
    }
}

/// Hex text is `2 * b.len()` lower-case hex digits.
pub proof fn lemma_hex_of_lower(b: Seq<u8>)
    ensures
        hex_of(b).len() == 2 * b.len(),
        forall|k: int| 0 <= k < hex_of(b).len() ==> is_lower_hex(#[trigger] hex_of(b)[k]),
{
    lemma_hex_of_len(b);
    assert forall|k: int| 0 <= k < hex_of(b).len() implies is_lower_hex(#[trigger] hex_of(b)[k]) by {
        lemma_hex_no_ws(b, k);
    }
}

/// Hex text is ASCII.
pub proof fn lemma_hex_of_ascii(b: Seq<u8>)
    ensures
        vstd::utf8::is_ascii_chars(hex_of(b)),
{
    assert forall|k: int| 0 <= k < hex_of(b).len() implies '\0' <= #[trigger] hex_of(b)[k] <= '\u{7f}' by {
        lemma_hex_no_ws(b, k);
    }
}

} // verus!
