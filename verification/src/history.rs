//! The history of sent messages, newest first.
//!
//! The store holds the entries in memory; reading them from disk and writing
//! them back is left to the caller.

use vstd::prelude::*;

use crate::json::record_view;
use crate::text::{str_eq, string_from_chars, to_chars};

verus! {

/// The most entries the history keeps.
pub const HISTORY_LIMIT: usize = 1000;

/// One sent message.
pub struct HistoryEntry {
    /// Time stamp.
    pub ts: String,
    /// Recipients, separated by commas.
    pub to: String,
    pub subject: String,
    /// Sender name.
    pub from: String,
    /// `ok` or `fail`.
    pub status: String,
    /// Message id or error text.
    pub detail: String,
}

impl Clone for HistoryEntry {
    fn clone(&self) -> (r: Self)
        ensures
            r == *self,
    {
        HistoryEntry {
            ts: self.ts.clone(),
            to: self.to.clone(),
            subject: self.subject.clone(),
            from: self.from.clone(),
            status: self.status.clone(),
            detail: self.detail.clone(),
        }
    }
}

/// The fields of an entry as a record of named texts, in the order `ts`,
/// `to`, `subject`, `from`, `status`, `detail`.
pub open spec fn entry_fields(e: HistoryEntry) -> Seq<(Seq<char>, Seq<char>)> {
    seq![
        ("ts"@, e.ts@),
        ("to"@, e.to@),
        ("subject"@, e.subject@),
        ("from"@, e.from@),
        ("status"@, e.status@),
        ("detail"@, e.detail@),
    ]
}

impl HistoryEntry {
    /// The entry's fields, named, for its JSON form.
    pub fn json_fields(&self) -> (r: Vec<(String, String)>)
        ensures
            record_view(r@) == entry_fields(*self),
    {
        let r = vec![
            (String::from_str("ts"), self.ts.clone()),
            (String::from_str("to"), self.to.clone()),
            (String::from_str("subject"), self.subject.clone()),
            (String::from_str("from"), self.from.clone()),
            (String::from_str("status"), self.status.clone()),
            (String::from_str("detail"), self.detail.clone()),
        ];
        assert(record_view(r@) =~= entry_fields(*self));
        r
    }
}

/// The history: its entries, newest first.
pub struct HistoryStore {
    entries: Vec<HistoryEntry>,
}

impl View for HistoryStore {
    type V = Seq<HistoryEntry>;

    closed spec fn view(&self) -> Seq<HistoryEntry> {
        self.entries@
    }
}

/// `h` after `e` is recorded: `e` comes first, and only the newest
/// [`HISTORY_LIMIT`] entries stay.
pub open spec fn appended(h: Seq<HistoryEntry>, e: HistoryEntry) -> Seq<HistoryEntry> {
    let all = seq![e] + h;
    if all.len() > HISTORY_LIMIT {
        all.take(HISTORY_LIMIT as int)
    } else {
        all
    }
}

/// How many entries a request for `limit` gets: `limit`, or all when there
/// are fewer.
pub open spec fn recent_count(len: nat, limit: usize) -> int {
    if limit < len {
        limit as int
    } else {
        len as int
    }
}

/// A request for `limit` entries gets `limit` of them, or all when there
/// are fewer: never more than asked, never fewer than there are.
pub proof fn lemma_recent_count(len: nat, limit: usize)
    ensures
        0 <= recent_count(len, limit) <= len,
        recent_count(len, limit) <= limit,
        recent_count(len, limit) == limit || recent_count(len, limit) == len,
{
}

impl HistoryStore {
    /// A store holding `entries`, newest first.
    pub fn new(entries: Vec<HistoryEntry>) -> (s: Self)
        ensures
            s@ == entries@,
    {
        HistoryStore { entries }
    }

    /// All entries, newest first.
    pub fn entries(&self) -> (r: &[HistoryEntry])
        ensures
            r@ == self@,
    {
        self.entries.as_slice()
    }

    /// Records `entry` as the newest one; at most [`HISTORY_LIMIT`] stay.
    pub fn append(&mut self, entry: &HistoryEntry)
        ensures
            final(self)@ == appended(old(self)@, *entry),
    {
        let e = entry.clone();
        self.entries.insert(0, e);
        if self.entries.len() > HISTORY_LIMIT {
            self.entries.truncate(HISTORY_LIMIT);
        }
        assert(self.entries@ =~= appended(old(self)@, *entry));
    }

    /// The newest `limit` entries (all of them when there are fewer).
    pub fn get_recent(&self, limit: usize) -> (r: Vec<HistoryEntry>)
        ensures
            r@ == self@.take(recent_count(self@.len(), limit)),
            limit < self@.len() ==> r@.len() == limit,
            limit >= self@.len() ==> r@ == self@,
            forall|i: int| 0 <= i < r@.len() ==> r@[i] == self@[i],
    {
        let n = self.entries.len();
        let k: usize = if limit < n {
            limit
        } else {
            n
        };
        let mut out: Vec<HistoryEntry> = Vec::new();
        let mut i: usize = 0;
        while i < k
            invariant
                i <= k <= n == self.entries@.len(),
                k == recent_count(self@.len(), limit),
                out@ == self.entries@.take(i as int),
            decreases k - i,
        {
            out.push(self.entries[i].clone());
            assert(out@ =~= self.entries@.take(i + 1));
            i = i + 1;
        }
        out
    }

    /// Removes every entry.
    pub fn clear(&mut self)
        ensures
            final(self)@ == Seq::<HistoryEntry>::empty(),
    {
        self.entries.clear();
    }

    /// Number of entries.
    pub fn len(&self) -> (r: usize)
        ensures
            r == self@.len(),
    {
        self.entries.len()
    }

    /// Whether there is no entry.
    pub fn is_empty(&self) -> (r: bool)
        ensures
            r == (self@.len() == 0),
    {
        self.entries.len() == 0
    }
}

/// How the history list shows an entry: `[ts] ✓ | to | 主题:subject |
/// detail`, with `✗` for a status other than `ok`.
pub open spec fn history_line_spec(e: HistoryEntry) -> Seq<char> {
    "["@ + e.ts@ + "] "@ + (if e.status@ == "ok"@ {
        "✓"@
    } else {
        "✗"@
    }) + " | "@ + e.to@ + " | 主题:"@ + e.subject@ + " | "@ + e.detail@
}

/// The line the history list shows for an entry.
pub fn history_line(e: &HistoryEntry) -> (r: String)
    ensures
        r@ == history_line_spec(*e),
{
    let mut out = to_chars("[");
    out.append(&mut to_chars(e.ts.as_str()));
    out.append(&mut to_chars("] "));
    if str_eq(e.status.as_str(), "ok") {
        out.append(&mut to_chars("✓"));
    } else {
        out.append(&mut to_chars("✗"));
    }
    out.append(&mut to_chars(" | "));
    out.append(&mut to_chars(e.to.as_str()));
    out.append(&mut to_chars(" | 主题:"));
    out.append(&mut to_chars(e.subject.as_str()));
    out.append(&mut to_chars(" | "));
    out.append(&mut to_chars(e.detail.as_str()));
    string_from_chars(out.as_slice())
}

/// After an entry is recorded it is the newest one, the earlier entries
/// follow it in their order, and the history holds one entry more, up to
/// [`HISTORY_LIMIT`].
pub proof fn lemma_append_newest_first(h: Seq<HistoryEntry>, e: HistoryEntry)
    ensures
        appended(h, e).len() == (if h.len() + 1 > HISTORY_LIMIT {
            HISTORY_LIMIT as int
        } else {
            h.len() + 1int
        }),
        appended(h, e)[0] == e,
        appended(h, e).take(recent_count(appended(h, e).len(), 1)) == seq![e],
        forall|i: int| 0 <= i < appended(h, e).len() - 1 ==> #[trigger] appended(h, e)[i + 1] == h[i],
{
    let a = appended(h, e);
    assert(a.take(1) =~= seq![e]);
}

} // verus!
