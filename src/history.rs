//! The history of usage snapshots: deduplicated appends, filtered and paged
//! queries, retention cleanup and aggregate statistics.

use crate::models::{
    HistoryMetadata, HistoryQuery, RetentionPolicy, UsageData, UsageHistoryEntry, UsageLimit,
    UsageLimitSnapshot, UsageStats,
};
use crate::clock::{rfc3339_text, rfc3339_text_of};
use crate::text::{decimal, push_decimal, push_signed_decimal, signed_decimal};
use vstd::prelude::*;
use vstd::string::*;

verus! {

/// Seconds in a day.
pub const SECS_PER_DAY: i64 = 86400;

/// Results returned by a query that names no limit.
pub const DEFAULT_QUERY_LIMIT: usize = 1000;

/// The id of the entry for a snapshot: `timestamp-provider-account`.
pub open spec fn entry_id(timestamp: i64, provider: Seq<char>, account: Seq<char>) -> Seq<char> {
    signed_decimal(timestamp as int) + "-"@ + provider + "-"@ + account
}

/// The id of the entry that records the snapshot `u`.
pub open spec fn snapshot_id(u: UsageData) -> Seq<char> {
    entry_id(u.timestamp, u.provider@, u.account_id@)
}

/// Whether `e` has the id `id`. The id is the key of the history.
pub open spec fn has_key(e: UsageHistoryEntry, id: Seq<char>) -> bool {
    e.id@ == id
}

pub open spec fn holds_key(s: Seq<UsageHistoryEntry>, id: Seq<char>) -> bool {
    exists|i: int| 0 <= i < s.len() && has_key(#[trigger] s[i], id)
}

/// How many entries of `s` have the id `id`.
pub open spec fn key_count(s: Seq<UsageHistoryEntry>, id: Seq<char>) -> nat
    decreases s.len(),
{
    if s.len() == 0 {
        0
    } else {
        key_count(s.drop_last(), id) + if has_key(s.last(), id) {
            1nat
        } else {
            0nat
        }
    }
}

/// Entry ids are pairwise distinct.
pub open spec fn keys_unique(s: Seq<UsageHistoryEntry>) -> bool {
    forall|i: int, j: int| #![trigger s[i], s[j]] 0 <= i < j < s.len() ==> !has_key(s[i], s[j].id@)
}

/// `sn` records the reading `l`.
pub open spec fn snapshot_of(sn: UsageLimitSnapshot, l: UsageLimit) -> bool {
    sn.id == l.id && sn.utilization == l.utilization && sn.resets_at == l.resets_at
}

/// `e` is the history entry of the snapshot `u`.
pub open spec fn entry_of(e: UsageHistoryEntry, u: UsageData) -> bool {
    &&& e.id@ == entry_id(u.timestamp, u.provider@, u.account_id@)
    &&& e.provider == u.provider
    &&& e.account_id == u.account_id
    &&& e.account_name == u.account_name
    &&& e.timestamp == u.timestamp
    &&& e.limits@.len() == u.limits@.len()
    &&& forall|i: int| 0 <= i < e.limits@.len() ==> snapshot_of(#[trigger] e.limits@[i], u.limits@[i])
}

/// What appending `u` to the entries `s0` leaves: `s0` itself when an entry
/// with the same key is stored, else `s0` and the entry of `u` after it.
pub open spec fn appended(s0: Seq<UsageHistoryEntry>, u: UsageData, s1: Seq<UsageHistoryEntry>) -> bool {
    if holds_key(s0, snapshot_id(u)) {
        s1 == s0
    } else {
        s1.len() == s0.len() + 1 && s1.drop_last() == s0 && entry_of(s1.last(), u)
    }
}

/// `s` without the entries whose key an earlier entry holds.
pub open spec fn first_of_each_key(s: Seq<UsageHistoryEntry>) -> Seq<UsageHistoryEntry>
    decreases s.len(),
{
    if s.len() == 0 {
        seq![]
    } else {
        let d = first_of_each_key(s.drop_last());
        if holds_key(d, s.last().id@) {
            d
        } else {
            d.push(s.last())
        }
    }
}

/// Two sequences of entries that agree entry by entry.
pub open spec fn same_entries(a: Seq<UsageHistoryEntry>, b: Seq<UsageHistoryEntry>) -> bool {
    a.len() == b.len() && forall|i: int| 0 <= i < a.len() ==> (#[trigger] a[i]).same(b[i])
}

/// Whether `e` passes the filters of `q`.
pub open spec fn matches_query(q: HistoryQuery, e: UsageHistoryEntry) -> bool {
    &&& (q.provider matches Some(p) ==> e.provider@ == p@)
    &&& (q.account_id matches Some(a) ==> e.account_id@ == a@)
    &&& (q.start_date matches Some(s) ==> e.timestamp >= s)
    &&& (q.end_date matches Some(t) ==> e.timestamp <= t)
}

/// The entries of `s` that pass the filters of `q`, in stored order.
pub open spec fn filtered(s: Seq<UsageHistoryEntry>, q: HistoryQuery) -> Seq<UsageHistoryEntry>
    decreases s.len(),
{
    if s.len() == 0 {
        seq![]
    } else if matches_query(q, s.last()) {
        filtered(s.drop_last(), q).push(s.last())
    } else {
        filtered(s.drop_last(), q)
    }
}

/// `x` placed into `t` after every leading entry at least as new as it.
pub open spec fn insert_by_time(t: Seq<UsageHistoryEntry>, x: UsageHistoryEntry) -> Seq<
    UsageHistoryEntry,
>
    decreases t.len(),
{
    if t.len() == 0 {
        seq![x]
    } else if t[0].timestamp >= x.timestamp {
        seq![t[0]] + insert_by_time(t.skip(1), x)
    } else {
        seq![x] + t
    }
}

/// `s` sorted newest first; entries of equal time keep their stored order.
pub open spec fn newest_first(s: Seq<UsageHistoryEntry>) -> Seq<UsageHistoryEntry>
    decreases s.len(),
{
    if s.len() == 0 {
        seq![]
    } else {
        insert_by_time(newest_first(s.drop_last()), s.last())
    }
}

/// The page of `s` that skips `offset` entries and holds at most `limit`.
pub open spec fn page(s: Seq<UsageHistoryEntry>, offset: int, limit: int) -> Seq<UsageHistoryEntry> {
    if offset >= s.len() {
        seq![]
    } else if limit >= s.len() - offset {
        s.subrange(offset, s.len() as int)
    } else {
        s.subrange(offset, offset + limit)
    }
}

/// The result of the query `q` over the entries `s`.
pub open spec fn query_result(s: Seq<UsageHistoryEntry>, q: HistoryQuery) -> Seq<UsageHistoryEntry> {
    page(
        newest_first(filtered(s, q)),
        match q.offset {
            Some(o) => o as int,
            None => 0,
        },
        match q.limit {
            Some(l) => l as int,
            None => DEFAULT_QUERY_LIMIT as int,
        },
    )
}

/// The entries of `s` at or after `cutoff`, in stored order.
pub open spec fn kept(s: Seq<UsageHistoryEntry>, cutoff: int) -> Seq<UsageHistoryEntry>
    decreases s.len(),
{
    if s.len() == 0 {
        seq![]
    } else if s.last().timestamp >= cutoff {
        kept(s.drop_last(), cutoff).push(s.last())
    } else {
        kept(s.drop_last(), cutoff)
    }
}

/// How many entries of `s` are older than `cutoff`.
pub open spec fn older_count(s: Seq<UsageHistoryEntry>, cutoff: int) -> nat
    decreases s.len(),
{
    if s.len() == 0 {
        0
    } else {
        older_count(s.drop_last(), cutoff) + if s.last().timestamp < cutoff {
            1nat
        } else {
            0nat
        }
    }
}

/// The instant before which cleanup removes entries.
pub open spec fn cutoff_of(now: i64, retention_days: u32) -> int {
    now - retention_days * SECS_PER_DAY
}

/// Utilizations of the readings of `ls` for the limit `limit_id`.
pub open spec fn limit_readings(ls: Seq<UsageLimitSnapshot>, limit_id: Seq<char>) -> Seq<u32>
    decreases ls.len(),
{
    if ls.len() == 0 {
        seq![]
    } else if ls.last().id@ == limit_id {
        limit_readings(ls.drop_last(), limit_id).push(ls.last().utilization)
    } else {
        limit_readings(ls.drop_last(), limit_id)
    }
}

pub open spec fn in_stats_range(
    e: UsageHistoryEntry,
    provider: Seq<char>,
    start: i64,
    end: i64,
) -> bool {
    e.provider@ == provider && start <= e.timestamp <= end
}

/// Utilizations of the limit `limit_id` over the entries of `provider`
/// between `start` and `end` (inclusive), in stored order.
pub open spec fn readings(
    s: Seq<UsageHistoryEntry>,
    provider: Seq<char>,
    limit_id: Seq<char>,
    start: i64,
    end: i64,
) -> Seq<u32>
    decreases s.len(),
{
    if s.len() == 0 {
        seq![]
    } else if in_stats_range(s.last(), provider, start, end) {
        readings(s.drop_last(), provider, limit_id, start, end) + limit_readings(
            s.last().limits@,
            limit_id,
        )
    } else {
        readings(s.drop_last(), provider, limit_id, start, end)
    }
}

pub open spec fn seq_sum(s: Seq<u32>) -> int
    decreases s.len(),
{
    if s.len() == 0 {
        0
    } else {
        seq_sum(s.drop_last()) + s.last()
    }
}

/// The largest of `s`; 0 for an empty `s`.
pub open spec fn seq_max(s: Seq<u32>) -> u32
    decreases s.len(),
{
    if s.len() == 0 {
        0
    } else if s.len() == 1 || s.last() >= seq_max(s.drop_last()) {
        s.last()
    } else {
        seq_max(s.drop_last())
    }
}

/// The smallest of `s`; 0 for an empty `s`.
pub open spec fn seq_min(s: Seq<u32>) -> u32
    decreases s.len(),
{
    if s.len() == 0 {
        0
    } else if s.len() == 1 || s.last() <= seq_min(s.drop_last()) {
        s.last()
    } else {
        seq_min(s.drop_last())
    }
}

/// Earliest timestamp of `s`.
pub open spec fn oldest(s: Seq<UsageHistoryEntry>) -> Option<i64>
    decreases s.len(),
{
    if s.len() == 0 {
        None
    } else {
        match oldest(s.drop_last()) {
            Some(t) => Some(if s.last().timestamp < t { s.last().timestamp } else { t }),
            None => Some(s.last().timestamp),
        }
    }
}

/// Latest timestamp of `s`.
pub open spec fn newest(s: Seq<UsageHistoryEntry>) -> Option<i64>
    decreases s.len(),
{
    if s.len() == 0 {
        None
    } else {
        match newest(s.drop_last()) {
            Some(t) => Some(if s.last().timestamp > t { s.last().timestamp } else { t }),
            None => Some(s.last().timestamp),
        }
    }
}

/// The header line of the CSV export.
pub open spec fn csv_header() -> Seq<char> {
    "id,provider,timestamp,limit_id,utilization,resets_at\n"@
}

/// An instant as RFC 3339 text; empty when chrono cannot represent it.
pub open spec fn time_text(secs: i64) -> Seq<char> {
    match rfc3339_text_of(secs) {
        Some(t) => t,
        None => seq![],
    }
}

/// Utilization in hundredths of a percent, with two decimals.
pub open spec fn utilization_text(u: u32) -> Seq<char> {
    decimal((u / 100) as nat) + "."@ + (if u % 100 < 10 {
        "0"@
    } else {
        seq![]
    }) + decimal((u % 100) as nat)
}

/// One CSV row: a reading of an entry.
pub open spec fn csv_row(e: UsageHistoryEntry, l: UsageLimitSnapshot) -> Seq<char> {
    e.id@ + ","@ + e.provider@ + ","@ + time_text(e.timestamp) + ","@ + l.id@ + ","@
        + utilization_text(l.utilization) + ","@ + time_text(l.resets_at) + "\n"@
}

/// The CSV rows of the readings `ls` of entry `e`.
pub open spec fn csv_entry_rows(e: UsageHistoryEntry, ls: Seq<UsageLimitSnapshot>) -> Seq<char>
    decreases ls.len(),
{
    if ls.len() == 0 {
        seq![]
    } else {
        csv_entry_rows(e, ls.drop_last()) + csv_row(e, ls.last())
    }
}

/// The CSV rows of the entries `s`, one per reading.
pub open spec fn csv_rows(s: Seq<UsageHistoryEntry>) -> Seq<char>
    decreases s.len(),
{
    if s.len() == 0 {
        seq![]
    } else {
        csv_rows(s.drop_last()) + csv_entry_rows(s.last(), s.last().limits@)
    }
}

proof fn lemma_csv_rows_same(a: Seq<UsageHistoryEntry>, b: Seq<UsageHistoryEntry>)
    requires
        same_entries(a, b),
    ensures
        csv_rows(a) == csv_rows(b),
    decreases a.len(),
{
    if a.len() > 0 {
        assert(a.last().same(b.last()));
        assert(same_entries(a.drop_last(), b.drop_last())) by {
            assert forall|i: int| 0 <= i < a.len() - 1 implies (#[trigger] a.drop_last()[i]).same(b.drop_last()[i]) by {
                assert(a[i].same(b[i]));
            }
        }
        lemma_csv_rows_same(a.drop_last(), b.drop_last());
        lemma_csv_entry_rows_same(a.last(), b.last(), a.last().limits@);
    }
}

proof fn lemma_csv_entry_rows_same(x: UsageHistoryEntry, y: UsageHistoryEntry, ls: Seq<UsageLimitSnapshot>)
    requires
        x.same(y),
    ensures
        csv_entry_rows(x, ls) == csv_entry_rows(y, ls),
    decreases ls.len(),
{
    if ls.len() > 0 {
        lemma_csv_entry_rows_same(x, y, ls.drop_last());
    }
}

fn push_time(out: &mut String, secs: i64)
    ensures
        final(out)@ == old(out)@ + time_text(secs),
{
    match rfc3339_text(secs) {
        Some(t) => out.append(t.as_str()),
        None => {
            assert(old(out)@ + time_text(secs) =~= old(out)@);
        },
    }
}

fn push_utilization(out: &mut String, u: u32)
    ensures
        final(out)@ == old(out)@ + utilization_text(u),
{
    push_decimal(out, (u / 100) as u64);
    out.append(".");
    if u % 100 < 10 {
        out.append("0");
    }
    push_decimal(out, (u % 100) as u64);
    assert(final(out)@ =~= old(out)@ + utilization_text(u));
}

/// Appends the CSV rows of `entries` to `out`.
fn push_csv_rows(out: &mut String, entries: &Vec<UsageHistoryEntry>)
    ensures
        final(out)@ == old(out)@ + csv_rows(entries@),
{
    let ghost o0 = out@;
    let mut i: usize = 0;
    while i < entries.len()
        invariant
            i <= entries@.len(),
            out@ == o0 + csv_rows(entries@.take(i as int)),
        decreases entries@.len() - i,
    {
        proof {
            assert(entries@.take(i + 1).drop_last() =~= entries@.take(i as int));
            assert(entries@.take(i + 1).last() == entries@[i as int]);
        }
        let e = &entries[i];
        let ghost o1 = out@;
        let mut k: usize = 0;
        while k < e.limits.len()
            invariant
                k <= e.limits@.len(),
                out@ == o1 + csv_entry_rows(*e, e.limits@.take(k as int)),
            decreases e.limits@.len() - k,
        {
            proof {
                assert(e.limits@.take(k + 1).drop_last() =~= e.limits@.take(k as int));
                assert(e.limits@.take(k + 1).last() == e.limits@[k as int]);
            }
            let l = &e.limits[k];
            let ghost o2 = out@;
            out.append(e.id.as_str());
            out.append(",");
            out.append(e.provider.as_str());
            out.append(",");
            push_time(out, e.timestamp);
            out.append(",");
            out.append(l.id.as_str());
            out.append(",");
            push_utilization(out, l.utilization);
            out.append(",");
            push_time(out, l.resets_at);
            out.append("\n");
            assert(out@ =~= o2 + csv_row(*e, *l));
            k = k + 1;
            assert(out@ =~= o1 + csv_entry_rows(*e, e.limits@.take(k as int)));
        }
        proof {
            assert(e.limits@.take(e.limits@.len() as int) =~= e.limits@);
        }
        i = i + 1;
        assert(out@ =~= o0 + csv_rows(entries@.take(i as int)));
    }
    proof {
        assert(entries@.take(entries@.len() as int) =~= entries@);
    }
}

proof fn lemma_insert_by_time(t: Seq<UsageHistoryEntry>, x: UsageHistoryEntry, p: int)
    requires
        0 <= p <= t.len(),
        forall|j: int| 0 <= j < p ==> t[j].timestamp >= x.timestamp,
        p == t.len() || t[p].timestamp < x.timestamp,
    ensures
        insert_by_time(t, x) == t.insert(p, x),
    decreases p,
{
    if p == 0 {
        if t.len() == 0 {
            assert(t.insert(0, x) =~= seq![x]);
        } else {
            assert(t.insert(0, x) =~= seq![x] + t);
        }
    } else {
        let rest = t.skip(1);
        assert forall|j: int| 0 <= j < p - 1 implies rest[j].timestamp >= x.timestamp by {
            assert(rest[j] == t[j + 1]);
        }
        lemma_insert_by_time(rest, x, p - 1);
        assert(t.insert(p, x) =~= seq![t[0]] + rest.insert(p - 1, x));
    }
}

proof fn lemma_kept_older(s: Seq<UsageHistoryEntry>, cutoff: int)
    ensures
        kept(s, cutoff).len() + older_count(s, cutoff) == s.len(),
    decreases s.len(),
{
    if s.len() > 0 {
        lemma_kept_older(s.drop_last(), cutoff);
    }
}

proof fn lemma_key_count_absent(s: Seq<UsageHistoryEntry>, id: Seq<char>)
    requires
        !holds_key(s, id),
    ensures
        key_count(s, id) == 0,
    decreases s.len(),
{
    if s.len() > 0 {
        let t = s.drop_last();
        assert forall|i: int| 0 <= i < t.len() implies !has_key(#[trigger] t[i], id) by {
            assert(t[i] == s[i]);
        }
        assert(!has_key(s[s.len() - 1], id));
        lemma_key_count_absent(t, id);
    }
}

proof fn lemma_kept_unique(s: Seq<UsageHistoryEntry>, cutoff: int)
    requires
        keys_unique(s),
    ensures
        keys_unique(kept(s, cutoff)),
        forall|m: int|
            0 <= m < kept(s, cutoff).len() ==> exists|n: int|
                0 <= n < s.len() && #[trigger] kept(s, cutoff)[m] == s[n],
    decreases s.len(),
{
    if s.len() > 0 {
        let t = s.drop_last();
        assert forall|i: int, j: int| #![trigger t[i], t[j]] 0 <= i < j < t.len() implies !has_key(t[i], t[j].id@) by {
            assert(t[i] == s[i] && t[j] == s[j]);
        }
        lemma_kept_unique(t, cutoff);
        let k0 = kept(t, cutoff);
        let k = kept(s, cutoff);
        if s.last().timestamp >= cutoff {
            assert forall|m: int| 0 <= m < k.len() implies exists|n: int| 0 <= n < s.len() && #[trigger] k[m] == s[n] by {
                if m < k0.len() {
                    let n = choose|n: int| 0 <= n < t.len() && #[trigger] k0[m] == t[n];
                    assert(k[m] == s[n]);
                } else {
                    assert(k[m] == s[s.len() - 1]);
                }
            }
            assert forall|i: int, j: int| #![trigger k[i], k[j]] 0 <= i < j < k.len() implies !has_key(k[i], k[j].id@) by {
                if j < k0.len() {
                    assert(k[i] == k0[i] && k[j] == k0[j]);
                } else {
                    let n = choose|n: int| 0 <= n < t.len() && #[trigger] k0[i] == t[n];
                    assert(k[i] == s[n]);
                    assert(k[j] == s[s.len() - 1]);
                }
            }
        } else {
            assert forall|m: int| 0 <= m < k.len() implies exists|n: int| 0 <= n < s.len() && #[trigger] k[m] == s[n] by {
                let n = choose|n: int| 0 <= n < t.len() && #[trigger] k0[m] == t[n];
                assert(k[m] == s[n]);
            }
        }
    }
}

proof fn lemma_insert_by_time_len(t: Seq<UsageHistoryEntry>, x: UsageHistoryEntry)
    ensures
        insert_by_time(t, x).len() == t.len() + 1,
    decreases t.len(),
{
    if t.len() > 0 {
        lemma_insert_by_time_len(t.skip(1), x);
    }
}

proof fn lemma_newest_first_len(s: Seq<UsageHistoryEntry>)
    ensures
        newest_first(s).len() == s.len(),
    decreases s.len(),
{
    if s.len() > 0 {
        lemma_newest_first_len(s.drop_last());
        lemma_insert_by_time_len(newest_first(s.drop_last()), s.last());
    }
}

/// A query whose offset is at or past the number of matching entries
/// returns an empty list.
pub proof fn law_offset_past_end(s: Seq<UsageHistoryEntry>, q: HistoryQuery)
    requires
        q.offset matches Some(o) && o >= filtered(s, q).len(),
    ensures
        query_result(s, q).len() == 0,
{
    lemma_newest_first_len(filtered(s, q));
}

/// Appending two snapshots with the same (timestamp, provider, account),
/// and so the same id, to a history that holds no entry of that id stores
/// exactly one entry with it: the first snapshot's.
pub proof fn law_duplicate_append_stores_one(
    s0: Seq<UsageHistoryEntry>,
    u1: UsageData,
    s1: Seq<UsageHistoryEntry>,
    u2: UsageData,
    s2: Seq<UsageHistoryEntry>,
)
    requires
        !holds_key(s0, snapshot_id(u1)),
        u2.timestamp == u1.timestamp,
        u2.provider@ == u1.provider@,
        u2.account_id@ == u1.account_id@,
        appended(s0, u1, s1),
        appended(s1, u2, s2),
    ensures
        s2 == s1,
        s2.len() == s0.len() + 1,
        entry_of(s2.last(), u1),
        key_count(s2, snapshot_id(u1)) == 1,
{
    assert(s1.last() == s1[s1.len() - 1]);
    assert(has_key(s1[s1.len() - 1], snapshot_id(u1)));
    assert(snapshot_id(u2) == snapshot_id(u1));
    assert(holds_key(s1, snapshot_id(u2)));
    lemma_key_count_absent(s0, snapshot_id(u1));
}

/// Cleanup removes exactly the entries older than the cutoff: what it
/// keeps and what it counts as removed add up to what was stored.
pub proof fn law_cleanup_count(s: Seq<UsageHistoryEntry>, cutoff: int)
    ensures
        kept(s, cutoff).len() + older_count(s, cutoff) == s.len(),
        forall|i: int| 0 <= i < kept(s, cutoff).len() ==> (#[trigger] kept(s, cutoff)[i]).timestamp >= cutoff,
    decreases s.len(),
{
    lemma_kept_older(s, cutoff);
    if s.len() > 0 {
        law_cleanup_count(s.drop_last(), cutoff);
        let k0 = kept(s.drop_last(), cutoff);
        assert forall|i: int| 0 <= i < kept(s, cutoff).len() implies (#[trigger] kept(s, cutoff)[i]).timestamp >= cutoff by {
            if i < k0.len() {
                assert(kept(s, cutoff)[i] == k0[i]);
            }
        }
    }
}

/// Statistics over a period in which no entry of the provider falls find
/// no readings, and so report no data.
pub proof fn law_stats_empty_range(
    s: Seq<UsageHistoryEntry>,
    provider: Seq<char>,
    limit_id: Seq<char>,
    start: i64,
    end: i64,
)
    requires
        forall|i: int| 0 <= i < s.len() ==> !in_stats_range(#[trigger] s[i], provider, start, end),
    ensures
        readings(s, provider, limit_id, start, end).len() == 0,
    decreases s.len(),
{
    if s.len() > 0 {
        let t = s.drop_last();
        assert forall|i: int| 0 <= i < t.len() implies !in_stats_range(#[trigger] t[i], provider, start, end) by {
            assert(t[i] == s[i]);
        }
        assert(!in_stats_range(s[s.len() - 1], provider, start, end));
        law_stats_empty_range(t, provider, limit_id, start, end);
    }
}

/// Builds the history entry of the snapshot `u`.
pub fn entry_from_usage(u: &UsageData) -> (r: UsageHistoryEntry)
    ensures
        entry_of(r, *u),
{
    let mut id = String::new();
    push_signed_decimal(&mut id, u.timestamp);
    id.append("-");
    id.append(u.provider.as_str());
    id.append("-");
    id.append(u.account_id.as_str());
    assert(id@ =~= entry_id(u.timestamp, u.provider@, u.account_id@));
    let mut limits: Vec<UsageLimitSnapshot> = Vec::new();
    let mut i: usize = 0;
    while i < u.limits.len()
        invariant
            i <= u.limits@.len(),
            limits@.len() == i,
            forall|j: int| 0 <= j < i ==> snapshot_of(#[trigger] limits@[j], u.limits@[j]),
        decreases u.limits@.len() - i,
    {
        let l = &u.limits[i];
        limits.push(
            UsageLimitSnapshot { id: l.id.clone(), utilization: l.utilization, resets_at: l.resets_at },
        );
        i = i + 1;
    }
    UsageHistoryEntry {
        id,
        provider: u.provider.clone(),
        account_id: u.account_id.clone(),
        account_name: u.account_name.clone(),
        timestamp: u.timestamp,
        limits,
    }
}

/// Whether `q` lets `e` through.
pub fn query_matches(q: &HistoryQuery, e: &UsageHistoryEntry) -> (r: bool)
    ensures
        r == matches_query(*q, *e),
{
    match &q.provider {
        Some(p) => if e.provider != *p {
            return false;
        },
        None => {},
    }
    match &q.account_id {
        Some(a) => if e.account_id != *a {
            return false;
        },
        None => {},
    }
    match q.start_date {
        Some(s) => if e.timestamp < s {
            return false;
        },
        None => {},
    }
    match q.end_date {
        Some(t) => if e.timestamp > t {
            return false;
        },
        None => {},
    }
    true
}

/// The stored usage snapshots, with the retention policy and the time of
/// the last cleanup.
pub struct HistoryService {
    entries: Vec<UsageHistoryEntry>,
    last_cleanup: Option<i64>,
    retention: RetentionPolicy,
}

impl HistoryService {
    pub closed spec fn entries_view(&self) -> Seq<UsageHistoryEntry> {
        self.entries@
    }

    pub closed spec fn last_cleanup_view(&self) -> Option<i64> {
        self.last_cleanup
    }

    pub closed spec fn retention_view(&self) -> RetentionPolicy {
        self.retention
    }

    /// Entry keys are unique.
    pub closed spec fn wf(&self) -> bool {
        keys_unique(self.entries@)
    }

    /// An empty history under the default retention policy.
    pub fn new() -> (r: Self)
        ensures
            r.wf(),
            r.entries_view().len() == 0,
            r.last_cleanup_view() is None,
            r.retention_view().retention_days == 30,
            r.retention_view().auto_cleanup,
    {
        HistoryService { entries: Vec::new(), last_cleanup: None, retention: RetentionPolicy::default() }
    }

    /// A history holding `entries`, as loaded from storage. Later entries
    /// whose id an earlier one has are dropped.
    pub fn from_entries(entries: Vec<UsageHistoryEntry>, last_cleanup: Option<i64>, retention: RetentionPolicy) -> (r: Self)
        ensures
            r.wf(),
            r.entries_view() == first_of_each_key(entries@),
            r.last_cleanup_view() == last_cleanup,
            r.retention_view() == retention,
    {
        let mut out: Vec<UsageHistoryEntry> = Vec::new();
        let mut all = entries;
        let ghost src = all@;
        let mut rev: Vec<UsageHistoryEntry> = Vec::new();
        while all.len() > 0
            invariant
                all@.len() + rev@.len() == src.len(),
                forall|j: int| 0 <= j < all@.len() ==> all@[j] == src[j],
                forall|j: int| 0 <= j < rev@.len() ==> rev@[j] == src[src.len() - 1 - j],
            decreases all@.len(),
        {
            let e = all.pop().unwrap();
            rev.push(e);
        }
        while rev.len() > 0
            invariant
                rev@.len() <= src.len(),
                forall|j: int| 0 <= j < rev@.len() ==> rev@[j] == src[src.len() - 1 - j],
                keys_unique(out@),
                out@ == first_of_each_key(src.take(src.len() - rev@.len())),
            decreases rev@.len(),
        {
            let e = rev.pop().unwrap();
            let ghost n = src.len() - rev@.len() - 1;
            assert(e == src[n]);
            proof {
                assert(src.take(n + 1).drop_last() =~= src.take(n));
                assert(src.take(n + 1).last() == src[n]);
            }
            if !Self::key_held(&out, &e.id) {
                let ghost o0 = out@;
                out.push(e);
                proof {
                    assert forall|i: int, j: int| #![trigger out@[i], out@[j]] 0 <= i < j < out@.len() implies !has_key(out@[i], out@[j].id@) by {
                        if j < o0.len() {
                            assert(out@[i] == o0[i] && out@[j] == o0[j]);
                        } else {
                            assert(out@[i] == o0[i]);
                        }
                    }
                }
            }
        }
        proof {
            assert(src.take(src.len() as int) =~= src);
        }
        HistoryService { entries: out, last_cleanup, retention }
    }

    fn key_held(s: &Vec<UsageHistoryEntry>, id: &String) -> (r: bool)
        ensures
            r == holds_key(s@, id@),
    {
        let mut i: usize = 0;
        while i < s.len()
            invariant
                i <= s@.len(),
                forall|j: int| 0 <= j < i ==> !has_key(#[trigger] s@[j], id@),
            decreases s@.len() - i,
        {
            let e = &s[i];
            if e.id == *id {
                assert(has_key(s@[i as int], id@));
                return true;
            }
            i = i + 1;
        }
        false
    }

    /// Appends the entry of `usage` unless an entry with its id
    /// (`timestamp-provider-account`) is stored. Returns whether it appended.
    pub fn add_entry(&mut self, usage: &UsageData) -> (r: bool)
        requires
            old(self).wf(),
        ensures
            final(self).wf(),
            appended(old(self).entries_view(), *usage, final(self).entries_view()),
            r == !holds_key(old(self).entries_view(), snapshot_id(*usage)),
            final(self).last_cleanup_view() == old(self).last_cleanup_view(),
            final(self).retention_view() == old(self).retention_view(),
    {
        let entry = entry_from_usage(usage);
        if Self::key_held(&self.entries, &entry.id) {
            return false;
        }
        let ghost s0 = self.entries@;
        self.entries.push(entry);
        proof {
            let s1 = self.entries@;
            assert(s1.drop_last() =~= s0);
            assert forall|i: int, j: int| #![trigger s1[i], s1[j]] 0 <= i < j < s1.len() implies !has_key(s1[i], s1[j].id@) by {
                if j < s0.len() {
                    assert(s1[i] == s0[i] && s1[j] == s0[j]);
                } else {
                    assert(s1[i] == s0[i]);
                }
            }
        }
        true
    }

    pub fn get_all_entries(&self) -> (r: &Vec<UsageHistoryEntry>)
        ensures
            r@ == self.entries_view(),
    {
        &self.entries
    }

    /// The entries that pass the filters of `q`, newest first (entries of
    /// equal time in stored order), after skipping `q.offset` of them and
    /// holding at most `q.limit` (1000 when absent). An offset at or past
    /// the number of matches gives an empty list.
    pub fn query(&self, q: &HistoryQuery) -> (r: Vec<UsageHistoryEntry>)
        ensures
            same_entries(r@, query_result(self.entries_view(), *q)),
    {
        let ghost src = self.entries@;
        let mut sorted: Vec<UsageHistoryEntry> = Vec::new();
        let mut i: usize = 0;
        while i < self.entries.len()
            invariant
                i <= src.len(),
                src == self.entries@,
                same_entries(sorted@, newest_first(filtered(src.take(i as int), *q))),
            decreases src.len() - i,
        {
            proof {
                assert(src.take(i + 1).drop_last() =~= src.take(i as int));
                assert(src.take(i + 1).last() == src[i as int]);
            }
            let e = &self.entries[i];
            if query_matches(q, e) {
                let ghost t = newest_first(filtered(src.take(i as int), *q));
                let mut p: usize = 0;
                while p < sorted.len() && sorted[p].timestamp >= e.timestamp
                    invariant
                        p <= sorted@.len(),
                        same_entries(sorted@, t),
                        forall|j: int| 0 <= j < p ==> t[j].timestamp >= e.timestamp,
                    decreases sorted@.len() - p,
                {
                    assert(sorted@[p as int].same(t[p as int]));
                    p = p + 1;
                }
                proof {
                    if p < sorted@.len() {
                        assert(sorted@[p as int].same(t[p as int]));
                    }
                    lemma_insert_by_time(t, *e, p as int);
                    assert(filtered(src.take(i + 1), *q) =~= filtered(src.take(i as int), *q).push(*e));
                    let f1 = filtered(src.take(i + 1), *q);
                    assert(f1.drop_last() =~= filtered(src.take(i as int), *q));
                }
                let ghost before = sorted@;
                sorted.insert(p, e.duplicate());
                proof {
                    let goal = t.insert(p as int, *e);
                    assert forall|j: int| 0 <= j < sorted@.len() implies (#[trigger] sorted@[j]).same(goal[j]) by {
                        if j < p {
                            assert(sorted@[j] == before[j]);
                        } else if j > p {
                            assert(sorted@[j] == before[j - 1]);
                        }
                    }
                }
            }
            i = i + 1;
        }
        proof {
            assert(src.take(src.len() as int) =~= src);
        }
        let ghost all = newest_first(filtered(src, *q));
        let offset: usize = match q.offset {
            Some(o) => o,
            None => 0,
        };
        let limit: usize = match q.limit {
            Some(l) => l,
            None => DEFAULT_QUERY_LIMIT,
        };
        let mut out: Vec<UsageHistoryEntry> = Vec::new();
        if offset >= sorted.len() {
            assert(out@ =~= query_result(src, *q));
            return out;
        }
        let end: usize = if limit >= sorted.len() - offset {
            sorted.len()
        } else {
            offset + limit
        };
        let ghost want = query_result(src, *q);
        assert(want =~= all.subrange(offset as int, end as int));
        let mut j: usize = offset;
        while j < end
            invariant
                offset <= j <= end <= sorted@.len(),
                same_entries(sorted@, all),
                want == all.subrange(offset as int, end as int),
                out@.len() == j - offset,
                forall|m: int| 0 <= m < out@.len() ==> (#[trigger] out@[m]).same(want[m]),
            decreases end - j,
        {
            assert(sorted@[j as int].same(all[j as int]));
            out.push(sorted[j].duplicate());
            j = j + 1;
        }
        out
    }

    /// Entry count, oldest and newest timestamps, last cleanup and the
    /// retention setting.
    pub fn get_metadata(&self) -> (r: HistoryMetadata)
        ensures
            r.entry_count == self.entries_view().len(),
            r.oldest_entry == oldest(self.entries_view()),
            r.newest_entry == newest(self.entries_view()),
            r.last_cleanup == self.last_cleanup_view(),
            r.retention_days == self.retention_view().retention_days,
    {
        let mut lo: Option<i64> = None;
        let mut hi: Option<i64> = None;
        let mut i: usize = 0;
        while i < self.entries.len()
            invariant
                i <= self.entries@.len(),
                lo == oldest(self.entries@.take(i as int)),
                hi == newest(self.entries@.take(i as int)),
            decreases self.entries@.len() - i,
        {
            proof {
                assert(self.entries@.take(i + 1).drop_last() =~= self.entries@.take(i as int));
            }
            let t = self.entries[i].timestamp;
            lo = match lo {
                Some(x) => Some(if t < x { t } else { x }),
                None => Some(t),
            };
            hi = match hi {
                Some(x) => Some(if t > x { t } else { x }),
                None => Some(t),
            };
            i = i + 1;
        }
        proof {
            assert(self.entries@.take(self.entries@.len() as int) =~= self.entries@);
        }
        HistoryMetadata {
            entry_count: self.entries.len(),
            oldest_entry: lo,
            newest_entry: hi,
            last_cleanup: self.last_cleanup,
            retention_days: self.retention.retention_days,
        }
    }

    pub fn get_retention_policy(&self) -> (r: RetentionPolicy)
        ensures
            r == self.retention_view(),
    {
        self.retention
    }

    pub fn set_retention_policy(&mut self, policy: RetentionPolicy)
        ensures
            final(self).retention_view() == policy,
            final(self).entries_view() == old(self).entries_view(),
            final(self).last_cleanup_view() == old(self).last_cleanup_view(),
            final(self).wf() == old(self).wf(),
    {
        self.retention = policy;
    }

    /// Removes the entries older than `retention_days` before `now` and
    /// returns how many it removed. With `retention_days == 0` (keep
    /// everything) it removes nothing and records nothing.
    pub fn cleanup(&mut self, now: i64) -> (r: usize)
        requires
            old(self).wf(),
        ensures
            final(self).wf(),
            final(self).retention_view() == old(self).retention_view(),
            old(self).retention_view().retention_days == 0 ==> {
                &&& r == 0
                &&& final(self).entries_view() == old(self).entries_view()
                &&& final(self).last_cleanup_view() == old(self).last_cleanup_view()
            },
            old(self).retention_view().retention_days > 0 ==> {
                let cutoff = cutoff_of(now, old(self).retention_view().retention_days);
                &&& same_entries(final(self).entries_view(), kept(old(self).entries_view(), cutoff))
                &&& r == older_count(old(self).entries_view(), cutoff)
                &&& r == old(self).entries_view().len() - final(self).entries_view().len()
                &&& final(self).last_cleanup_view() == Some(now)
            },
    {
        if self.retention.retention_days == 0 {
            return 0;
        }
        let cutoff: i128 = now as i128 - (self.retention.retention_days as i128) * (SECS_PER_DAY as i128);
        let ghost c = cutoff as int;
        let ghost src = self.entries@;
        let mut out: Vec<UsageHistoryEntry> = Vec::new();
        let mut removed: usize = 0;
        let mut i: usize = 0;
        while i < self.entries.len()
            invariant
                i <= src.len(),
                src == self.entries@,
                keys_unique(src),
                c == cutoff as int,
                same_entries(out@, kept(src.take(i as int), c)),
                removed == older_count(src.take(i as int), c),
                removed <= i,
            decreases src.len() - i,
        {
            proof {
                assert(src.take(i + 1).drop_last() =~= src.take(i as int));
                assert(src.take(i + 1).last() == src[i as int]);
            }
            let e = &self.entries[i];
            if (e.timestamp as i128) >= cutoff {
                out.push(e.duplicate());
            } else {
                removed = removed + 1;
            }
            i = i + 1;
        }
        proof {
            assert(src.take(src.len() as int) =~= src);
            lemma_kept_older(src, c);
            lemma_kept_unique(src, c);
            let k = kept(src, c);
            assert forall|a: int, b: int| #![trigger out@[a], out@[b]] 0 <= a < b < out@.len() implies !has_key(out@[a], out@[b].id@) by {
                assert(out@[a].same(k[a]));
                assert(out@[b].same(k[b]));
                assert(!has_key(k[a], k[b].id@));
            }
        }
        self.entries = out;
        self.last_cleanup = Some(now);
        removed
    }

    /// Average, largest and smallest utilization of the limit `limit_id`
    /// over the entries of `provider` from `start` to `end` (inclusive), and
    /// how many readings there were; `None` when there were none.
    pub fn get_stats(&self, provider: &str, limit_id: &str, start: i64, end: i64) -> (r: Option<
        UsageStats,
    >)
        ensures
            ({
                let v = readings(self.entries_view(), provider@, limit_id@, start, end);
                &&& (r is None <==> v.len() == 0)
                &&& (r matches Some(st) ==> {
                    &&& st.provider@ == provider@
                    &&& st.limit_id@ == limit_id@
                    &&& st.period_start == start
                    &&& st.period_end == end
                    &&& st.sample_count == v.len()
                    &&& st.avg_utilization == seq_sum(v) / (v.len() as int)
                    &&& st.max_utilization == seq_max(v)
                    &&& st.min_utilization == seq_min(v)
                })
            }),
    {
        let p = String::from_str(provider);
        let l = String::from_str(limit_id);
        let ghost src = self.entries@;
        let mut vals: Vec<u32> = Vec::new();
        let mut i: usize = 0;
        while i < self.entries.len()
            invariant
                i <= src.len(),
                src == self.entries@,
                p@ == provider@,
                l@ == limit_id@,
                vals@ == readings(src.take(i as int), provider@, limit_id@, start, end),
            decreases src.len() - i,
        {
            proof {
                assert(src.take(i + 1).drop_last() =~= src.take(i as int));
                assert(src.take(i + 1).last() == src[i as int]);
            }
            let e = &self.entries[i];
            if e.provider == p && start <= e.timestamp && e.timestamp <= end {
                let ghost v0 = vals@;
                let mut k: usize = 0;
                while k < e.limits.len()
                    invariant
                        k <= e.limits@.len(),
                        l@ == limit_id@,
                        vals@ == v0 + limit_readings(e.limits@.take(k as int), limit_id@),
                    decreases e.limits@.len() - k,
                {
                    proof {
                        assert(e.limits@.take(k + 1).drop_last() =~= e.limits@.take(k as int));
                    }
                    if e.limits[k].id == l {
                        vals.push(e.limits[k].utilization);
                    }
                    k = k + 1;
                    proof {
                        assert(vals@ =~= v0 + limit_readings(e.limits@.take(k as int), limit_id@));
                    }
                }
                proof {
                    assert(e.limits@.take(e.limits@.len() as int) =~= e.limits@);
                }
            }
            i = i + 1;
        }
        proof {
            assert(src.take(src.len() as int) =~= src);
        }
        if vals.len() == 0 {
            return None;
        }
        let mut sum: u128 = 0;
        let mut mx: u32 = vals[0];
        let mut mn: u32 = vals[0];
        let mut j: usize = 0;
        while j < vals.len()
            invariant
                j <= vals@.len(),
                vals@.len() > 0,
                sum == seq_sum(vals@.take(j as int)),
                sum <= j * 0xFFFF_FFFFu128,
                j > 0 ==> mx == seq_max(vals@.take(j as int)),
                j > 0 ==> mn == seq_min(vals@.take(j as int)),
                j == 0 ==> mx == vals@[0] && mn == vals@[0],
            decreases vals@.len() - j,
        {
            let x = vals[j];
            proof {
                assert(vals@.take(j + 1).drop_last() =~= vals@.take(j as int));
                assert((j + 1) * 0xFFFF_FFFFu128 <= 0x1_0000_0000_0000_0000u128 * 0xFFFF_FFFFu128) by (nonlinear_arith)
                    requires j < 0x1_0000_0000_0000_0000u128;
            }
            sum = sum + x as u128;
            if j == 0 {
                mx = x;
                mn = x;
            } else {
                if x >= mx {
                    mx = x;
                }
                if x <= mn {
                    mn = x;
                }
            }
            j = j + 1;
        }
        proof {
            assert(vals@.take(vals@.len() as int) =~= vals@);
        }
        let n = vals.len();
        proof {
            assert(sum / (n as u128) <= 0xFFFF_FFFFu128) by (nonlinear_arith)
                requires sum <= n * 0xFFFF_FFFFu128, n > 0;
        }
        let avg = (sum / (n as u128)) as u32;
        Some(UsageStats {
            provider: p,
            limit_id: l,
            period_start: start,
            period_end: end,
            avg_utilization: avg,
            max_utilization: mx,
            min_utilization: mn,
            sample_count: n,
        })
    }

    /// The entries of `query` (all entries when absent) as CSV: a header,
    /// then one row per reading with its entry's id, provider and time, the
    /// limit id, the utilization with two decimals, and the reset time.
    pub fn export_csv(&self, query: Option<&HistoryQuery>) -> (r: String)
        ensures
            r@ == csv_header() + csv_rows(
                match query {
                    Some(q) => query_result(self.entries_view(), *q),
                    None => self.entries_view(),
                },
            ),
    {
        let mut csv = String::from_str("id,provider,timestamp,limit_id,utilization,resets_at\n");
        match query {
            Some(q) => {
                let entries = self.query(q);
                push_csv_rows(&mut csv, &entries);
                proof {
                    lemma_csv_rows_same(entries@, query_result(self.entries_view(), *q));
                }
            },
            None => push_csv_rows(&mut csv, &self.entries),
        }
        csv
    }

    /// Removes every entry.
    pub fn clear_all(&mut self)
        ensures
            final(self).wf(),
            final(self).entries_view().len() == 0,
            final(self).last_cleanup_view() == old(self).last_cleanup_view(),
            final(self).retention_view() == old(self).retention_view(),
    {
        self.entries = Vec::new();
    }
}

} // verus!
