//! The history of updates and rollbacks, newest last, limited to the last 500 entries.
use vstd::prelude::*;
use crate::store::{recover, recovered, Stored};
use crate::text::{decimal, decimal_text};
use vstd::string::StringExecFns;

verus! {

/// One update or rollback.
pub struct HistoryEntry {
    pub timestamp_unix: u64,
    pub action: String,
    pub from_version: String,
    pub to_version: String,
    pub asset: String,
    pub sha256: String,
    pub result: String,
}

/// How many entries the history keeps.
pub const HISTORY_LIMIT: usize = 500;

impl HistoryEntry {
    /// An entry recorded at time `now` (seconds since the Unix epoch).
    pub fn new(
        action: &str,
        from_version: &str,
        to_version: &str,
        asset: &str,
        sha256: &str,
        result: &str,
        now: u64,
    ) -> (e: HistoryEntry)
        ensures
            e.timestamp_unix == now,
            e.action@ == action@,
            e.from_version@ == from_version@,
            e.to_version@ == to_version@,
            e.asset@ == asset@,
            e.sha256@ == sha256@,
            e.result@ == result@,
    {
        HistoryEntry {
            timestamp_unix: now,
            action: String::from_str(action),
            from_version: String::from_str(from_version),
            to_version: String::from_str(to_version),
            asset: String::from_str(asset),
            sha256: String::from_str(sha256),
            result: String::from_str(result),
        }
    }
}

/// The history from the history file and its backup copy; none at all is an empty history.
pub fn load(primary: Stored<Vec<HistoryEntry>>, backup: Stored<Vec<HistoryEntry>>) -> (r: Result<
    Vec<HistoryEntry>,
    String,
>)
    ensures
        match recovered(primary, backup) {
            Ok(Some(v)) => r == Ok::<Vec<HistoryEntry>, String>(v),
            Ok(None) => r matches Ok(v) && v@.len() == 0,
            Err(e) => r == Err::<Vec<HistoryEntry>, String>(e),
        },
{
    match recover(primary, backup) {
        Ok(Some(v)) => Ok(v),
        Ok(None) => Ok(Vec::new()),
        Err(e) => Err(e),
    }
}

/// The history after recording `entry`: it comes last, and only the newest 500 entries stay.
pub open spec fn appended(items: Seq<HistoryEntry>, entry: HistoryEntry) -> Seq<HistoryEntry> {
    let all = items.push(entry);
    if all.len() > HISTORY_LIMIT {
        all.skip(all.len() - HISTORY_LIMIT)
    } else {
        all
    }
}

/// Records `entry` at the end of the history, dropping the oldest entries beyond 500.
pub fn append(items: Vec<HistoryEntry>, entry: HistoryEntry) -> (r: Vec<HistoryEntry>)
    ensures
        r@ == appended(items@, entry),
{
    let ghost all = items@.push(entry);
    let mut v = items;
    v.push(entry);
    let total = v.len();
    let mut dropped: usize = 0;
    assert(all.skip(0) == all);
    while v.len() > HISTORY_LIMIT
        invariant
            dropped <= all.len(),
            all.len() == total,
            v@ == all.skip(dropped as int),
            v@.len() == all.len() - dropped,
            dropped == 0 || all.len() - dropped >= HISTORY_LIMIT,
        decreases v@.len(),
    {
        v.remove(0);
        proof {
            assert(all.skip(dropped as int).drop_first() == all.skip(dropped + 1));
        }
        dropped = dropped + 1;
    }
    proof {
        if all.len() > HISTORY_LIMIT {
            assert(dropped == all.len() - HISTORY_LIMIT);
        } else {
            assert(dropped == 0);
        }
    }
    v
}

/// The history never holds more than 500 entries after a recording, and the recorded entry is
/// the newest.
pub proof fn lemma_append_bounded(items: Seq<HistoryEntry>, entry: HistoryEntry)
    ensures
        appended(items, entry).len() <= HISTORY_LIMIT,
        appended(items, entry).last() == entry,
        items.len() < HISTORY_LIMIT ==> appended(items, entry) == items.push(entry),
{
}

/// One line of the recent-history listing.
pub open spec fn history_line(e: HistoryEntry) -> Seq<char> {
    decimal_text(e.timestamp_unix as nat) + " | "@ + e.action@ + " | "@ + e.from_version@ + " -> "@
        + e.to_version@ + " | "@ + e.result@ + "\n"@
}

/// The lines of the newest `limit` entries, newest first.
pub open spec fn recent_text(items: Seq<HistoryEntry>, limit: nat) -> Seq<char>
    decreases items.len(),
{
    if limit == 0 || items.len() == 0 {
        seq![]
    } else {
        history_line(items.last()) + recent_text(items.drop_last(), (limit - 1) as nat)
    }
}

fn line_of(e: &HistoryEntry) -> (r: String)
    ensures
        r@ == history_line(*e),
{
    let mut s = decimal(e.timestamp_unix);
    s.append(" | ");
    s.append(e.action.as_str());
    s.append(" | ");
    s.append(e.from_version.as_str());
    s.append(" -> ");
    s.append(e.to_version.as_str());
    s.append(" | ");
    s.append(e.result.as_str());
    s.append("\n");
    s
}

/// Lists the newest `limit` entries, newest first, one line each:
/// `<time> | <action> | <from> -> <to> | <result>`.
pub fn format_recent(items: &Vec<HistoryEntry>, limit: usize) -> (r: String)
    ensures
        r@ == recent_text(items@, limit as nat),
{
    let mut out = String::new();
    let mut k = items.len();
    let mut left = limit;
    assert(items@.take(k as int) == items@);
    while k > 0 && left > 0
        invariant
            k <= items@.len(),
            left <= limit,
            recent_text(items@, limit as nat) == out@ + recent_text(items@.take(k as int), left as nat),
        decreases k,
    {
        let line = line_of(&items[k - 1]);
        proof {
            let t = items@.take(k as int);
            assert(t.last() == items@[k - 1]);
            assert(t.drop_last() == items@.take(k - 1));
            assert(out@ + (line@ + recent_text(items@.take(k - 1), (left - 1) as nat)) == (out@
                + line@) + recent_text(items@.take(k - 1), (left - 1) as nat));
        }
        out.append(line.as_str());
        k = k - 1;
        left = left - 1;
    }
    assert(recent_text(items@.take(k as int), left as nat) == Seq::<char>::empty());
    assert(out@ + Seq::<char>::empty() == out@);
    out
}

} // verus!
