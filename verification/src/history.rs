//! What history shows and what it forgets: ordering of entries, mapping of
//! legacy receipts, and which terminal receipts pruning removes.
use vstd::prelude::*;
use crate::runs::{opt_text, safe_diagnostic};
use vstd::string::StringSliceAdditionalSpecFns;
use vstd::utf8::encode_utf8;
use crate::text::{bytes_lt, cat, copy_str, lemma_bytes_lt_asym, lemma_bytes_lt_total, lemma_bytes_lt_trans, take_chars_seq, text_eq, text_lt};
use crate::types::{DaemonHistoryEntry, DaemonRunStatus, LegacyDaemonRunRecord};

verus! {

broadcast use vstd::string::group_string_axioms;

/// Most terminal receipts kept.
pub const MAX_HISTORY_TERMINAL_RECORDS: usize = 200;

/// Most bytes of terminal receipts kept (4 MiB).
pub const MAX_HISTORY_TERMINAL_BYTES: u64 = 4194304;

/// Age after which a terminal receipt is dropped, in days.
pub const MAX_HISTORY_TERMINAL_AGE_DAYS: i64 = 90;

/// A terminal receipt as pruning sees it: when it completed (seconds, nanoseconds),
/// if that parses, and its size on disk.
#[derive(Debug, Clone, Copy, PartialEq, Eq)]
pub struct PruneCandidate {
    pub completed: Option<(i64, u32)>,
    pub bytes: u64,
}

/// Strict order on completion times: an unknown time sorts first.
pub open spec fn time_lt(a: Option<(i64, u32)>, b: Option<(i64, u32)>) -> bool {
    match (a, b) {
        (None, Some(_)) => true,
        (Some(x), Some(y)) => x.0 < y.0 || (x.0 == y.0 && x.1 < y.1),
        _ => false,
    }
}

fn time_lt_exec(a: Option<(i64, u32)>, b: Option<(i64, u32)>) -> (r: bool)
    ensures
        r == time_lt(a, b),
{
    match (a, b) {
        (None, Some(_)) => true,
        (Some(x), Some(y)) => x.0 < y.0 || (x.0 == y.0 && x.1 < y.1),
        _ => false,
    }
}

/// Position `i` comes before `j` in a stable sort by completion time.
pub open spec fn sorts_before(c: Seq<PruneCandidate>, i: int, j: int) -> bool {
    time_lt(c[i].completed, c[j].completed) || (c[i].completed == c[j].completed && i < j)
}

/// `order` lists every index of `c` once, as a stable sort by completion time does.
pub open spec fn stable_time_order(c: Seq<PruneCandidate>, order: Seq<usize>) -> bool {
    &&& order.len() == c.len()
    &&& forall|p: int| 0 <= p < order.len() ==> (#[trigger] order[p]) < c.len()
    &&& forall|p: int, q: int|
        0 <= p < q < order.len() ==> sorts_before(c, #[trigger] order[p] as int, #[trigger] order[q] as int)
}

pub proof fn lemma_time_lt_total(a: Option<(i64, u32)>, b: Option<(i64, u32)>)
    ensures
        time_lt(a, b) || time_lt(b, a) || a == b,
{
}

pub proof fn lemma_time_lt_trans(a: Option<(i64, u32)>, b: Option<(i64, u32)>, c: Option<(i64, u32)>)
    requires
        time_lt(a, b),
        time_lt(b, c),
    ensures
        time_lt(a, c),
{
}

/// Indices of `c` in stable ascending order of completion time.
pub fn stable_time_order_of(c: &Vec<PruneCandidate>) -> (order: Vec<usize>)
    ensures
        stable_time_order(c@, order@),
{
    let mut out: Vec<usize> = Vec::new();
    let mut i: usize = 0;
    while i < c.len()
        invariant
            0 <= i <= c.len(),
            out@.len() == i,
            forall|p: int| 0 <= p < out@.len() ==> (#[trigger] out@[p]) < i,
            forall|p: int, q: int|
                0 <= p < q < out@.len() ==> sorts_before(c@, #[trigger] out@[p] as int, #[trigger] out@[q] as int),
        decreases c.len() - i,
    {
        let key = c[i].completed;
        let mut p: usize = 0;
        while p < out.len() && !time_lt_exec(key, c[out[p]].completed)
            invariant
                0 <= p <= out@.len(),
                out@.len() == i,
                i < c.len(),
                key == c@[i as int].completed,
                forall|m: int| 0 <= m < out@.len() ==> (#[trigger] out@[m]) < i,
                forall|m: int| 0 <= m < p ==> !time_lt(key, c@[#[trigger] out@[m] as int].completed),
            decreases out@.len() - p,
        {
            p = p + 1;
        }
        proof {
            assert forall|m: int| 0 <= m < p implies sorts_before(c@, #[trigger] out@[m] as int, i as int) by {
                lemma_time_lt_total(key, c@[out@[m] as int].completed);
            }
            assert forall|m: int| p <= m < out@.len() implies sorts_before(c@, i as int, #[trigger] out@[m] as int) by {
                assert(sorts_before(c@, out@[p as int] as int, out@[m] as int) || m == p);
                if m != p {
                    let a = c@[out@[p as int] as int].completed;
                    let b = c@[out@[m] as int].completed;
                    if time_lt(a, b) {
                        lemma_time_lt_trans(key, a, b);
                    }
                }
            }
        }
        let ghost before = out@;
        out.insert(p, i);
        proof {
            assert forall|a: int, b: int| 0 <= a < b < out@.len() implies sorts_before(c@, #[trigger] out@[a] as int, #[trigger] out@[b] as int) by {
                if b < p {
                    assert(out@[a] == before[a] && out@[b] == before[b]);
                } else if b == p {
                    assert(out@[a] == before[a]);
                } else if a < p {
                    assert(out@[a] == before[a] && out@[b] == before[b - 1]);
                    assert(sorts_before(c@, before[a] as int, i as int));
                    assert(sorts_before(c@, i as int, before[b - 1] as int));
                    let x = c@[before[a] as int].completed;
                    let y = c@[i as int].completed;
                    let z = c@[before[b - 1] as int].completed;
                    if time_lt(x, y) && time_lt(y, z) {
                        lemma_time_lt_trans(x, y, z);
                    }
                } else if a == p {
                    assert(out@[b] == before[b - 1]);
                } else {
                    assert(out@[a] == before[a - 1] && out@[b] == before[b - 1]);
                }
            }
        }
        i = i + 1;
    }
    out
}

/// Bytes of the receipts at positions `k..` of `order`.
pub open spec fn bytes_from(c: Seq<PruneCandidate>, order: Seq<usize>, k: int) -> int
    decreases order.len() - k,
{
    if k < 0 || k >= order.len() {
        0
    } else {
        c[order[k] as int].bytes + bytes_from(c, order, k + 1)
    }
}

/// Keeping the receipts at positions `k..` of `order` respects both caps.
pub open spec fn within_caps(c: Seq<PruneCandidate>, order: Seq<usize>, k: int) -> bool {
    order.len() - k <= MAX_HISTORY_TERMINAL_RECORDS && bytes_from(c, order, k)
        <= MAX_HISTORY_TERMINAL_BYTES
}

/// Completed strictly before `cutoff`.
pub open spec fn is_expired(completed: Option<(i64, u32)>, cutoff: (i64, u32)) -> bool {
    completed is Some && time_lt(completed, Some(cutoff))
}

/// The positions `k..` of `order` whose receipt has expired, in order.
pub open spec fn expired_from(
    c: Seq<PruneCandidate>,
    order: Seq<usize>,
    k: int,
    cutoff: (i64, u32),
) -> Seq<usize>
    decreases order.len() - k,
{
    if k < 0 || k >= order.len() {
        Seq::empty()
    } else {
        (if is_expired(c[order[k] as int].completed, cutoff) {
            seq![order[k]]
        } else {
            Seq::empty()
        }) + expired_from(c, order, k + 1, cutoff)
    }
}

/// Which terminal receipts pruning deletes, and in what order: the oldest go first
/// (stable order of completion, unknown times first) until at most 200 receipts
/// and 4 MiB remain; then every remaining receipt completed before `cutoff`.
#[derive(Debug, Clone, PartialEq, Eq)]
pub struct PrunePlan {
    pub order: Vec<usize>,
    pub evicted: usize,
    pub removals: Vec<usize>,
}

pub proof fn lemma_bytes_from_nonneg(c: Seq<PruneCandidate>, order: Seq<usize>, k: int)
    ensures
        bytes_from(c, order, k) >= 0,
    decreases order.len() - k,
{
    if 0 <= k < order.len() {
        lemma_bytes_from_nonneg(c, order, k + 1);
    }
}

pub fn prune_history_plan(c: &Vec<PruneCandidate>, cutoff: (i64, u32)) -> (plan: PrunePlan)
    ensures
        stable_time_order(c@, plan.order@),
        plan.evicted <= c@.len(),
        within_caps(c@, plan.order@, plan.evicted as int),
        forall|k: int| 0 <= k < plan.evicted ==> !within_caps(c@, plan.order@, k),
        plan.removals@ == plan.order@.take(plan.evicted as int) + expired_from(
            c@,
            plan.order@,
            plan.evicted as int,
            cutoff,
        ),
{
    let order = stable_time_order_of(c);
    let n = order.len();
    let cap: u64 = MAX_HISTORY_TERMINAL_BYTES + 1;
    // capped[k] == min(bytes of positions k.., cap), built from the back
    let mut capped: Vec<u64> = Vec::new();
    capped.push(0);
    let mut j: usize = n;
    proof {
        lemma_bytes_from_nonneg(c@, order@, n as int);
    }
    while j > 0
        invariant
            0 <= j <= n == order@.len() == c@.len(),
            stable_time_order(c@, order@),
            cap == MAX_HISTORY_TERMINAL_BYTES + 1,
            capped@.len() == n - j + 1,
            forall|m: int|
                0 <= m < capped@.len() ==> (#[trigger] capped@[m]) as int == if bytes_from(
                    c@,
                    order@,
                    n - m,
                ) < cap {
                    bytes_from(c@, order@, n - m)
                } else {
                    cap as int
                },
        decreases j,
    {
        j = j - 1;
        let b = c[order[j]].bytes;
        let prev = capped[n - j - 1];
        let next = if b >= cap || prev >= cap - b {
            cap
        } else {
            prev + b
        };
        proof {
            lemma_bytes_from_nonneg(c@, order@, j as int + 1);
            assert(bytes_from(c@, order@, j as int) == b + bytes_from(c@, order@, j as int + 1));
        }
        capped.push(next);
    }
    // the least k that respects both caps
    let mut k: usize = 0;
    while k < n && !(n - k <= MAX_HISTORY_TERMINAL_RECORDS && capped[n - k] <= MAX_HISTORY_TERMINAL_BYTES)
        invariant
            0 <= k <= n == order@.len() == c@.len(),
            capped@.len() == n + 1,
            cap == MAX_HISTORY_TERMINAL_BYTES + 1,
            forall|m: int|
                0 <= m < capped@.len() ==> (#[trigger] capped@[m]) as int == if bytes_from(
                    c@,
                    order@,
                    n - m,
                ) < cap {
                    bytes_from(c@, order@, n - m)
                } else {
                    cap as int
                },
            forall|m: int| 0 <= m < k ==> !within_caps(c@, order@, m),
        decreases n - k,
    {
        proof {
            assert(capped@[n - k] == capped@[(n - k) as int]);
        }
        k = k + 1;
    }
    proof {
        assert(capped@[(n - k) as int] as int == if bytes_from(c@, order@, k as int) < cap {
            bytes_from(c@, order@, k as int)
        } else {
            cap as int
        });
    }
    let mut removals: Vec<usize> = Vec::new();
    let mut m: usize = 0;
    while m < k
        invariant
            0 <= m <= k <= n == order@.len(),
            removals@ == order@.take(m as int),
        decreases k - m,
    {
        removals.push(order[m]);
        m = m + 1;
        assert(removals@ =~= order@.take(m as int));
    }
    let mut q: usize = k;
    assert(expired_from(c@, order@, n as int, cutoff) =~= Seq::<usize>::empty());
    while q < n
        invariant
            k <= q <= n == order@.len() == c@.len(),
            stable_time_order(c@, order@),
            removals@ + expired_from(c@, order@, q as int, cutoff) == order@.take(k as int)
                + expired_from(c@, order@, k as int, cutoff),
        decreases n - q,
    {
        let t = c[order[q]].completed;
        let expired = t.is_some() && time_lt_exec(t, Some(cutoff));
        let ghost before = removals@;
        if expired {
            removals.push(order[q]);
            assert(removals@ + expired_from(c@, order@, q + 1, cutoff) =~= before + expired_from(
                c@,
                order@,
                q as int,
                cutoff,
            ));
        } else {
            assert(removals@ + expired_from(c@, order@, q + 1, cutoff) =~= before + expired_from(
                c@,
                order@,
                q as int,
                cutoff,
            ));
        }
        q = q + 1;
    }
    assert(removals@ =~= removals@ + expired_from(c@, order@, n as int, cutoff));
    PrunePlan { order, evicted: k, removals }
}

// ------------------------------------------------------------------ display order

/// The time a history entry is shown under: a managed record's completion,
/// publication, start or reservation (the first that is set); a legacy
/// receipt's completion.
pub open spec fn entry_time(e: DaemonHistoryEntry) -> Seq<char> {
    match e {
        DaemonHistoryEntry::Managed(r) => match r.completed_at {
            Some(t) => t@,
            None => match r.publishing_at {
                Some(t) => t@,
                None => match r.started_at {
                    Some(t) => t@,
                    None => r.reserved_at@,
                },
            },
        },
        DaemonHistoryEntry::Legacy(l) => l.completed_at@,
    }
}

pub fn history_timestamp(entry: &DaemonHistoryEntry) -> (r: &str)
    ensures
        r@ == entry_time(*entry),
{
    match entry {
        DaemonHistoryEntry::Managed(record) => match &record.completed_at {
            Some(t) => t.as_str(),
            None => match &record.publishing_at {
                Some(t) => t.as_str(),
                None => match &record.started_at {
                    Some(t) => t.as_str(),
                    None => record.reserved_at.as_str(),
                },
            },
        },
        DaemonHistoryEntry::Legacy(l) => l.completed_at.as_str(),
    }
}

pub open spec fn entry_key(e: DaemonHistoryEntry) -> Seq<u8> {
    encode_utf8(entry_time(e))
}

/// Entry `i` is shown before entry `j`: it is newer, or as new and came first.
pub open spec fn shown_before(e: Seq<DaemonHistoryEntry>, i: int, j: int) -> bool {
    bytes_lt(entry_key(e[j]), entry_key(e[i])) || (entry_key(e[i]) == entry_key(e[j]) && i < j)
}

/// `order` lists every index of `e` once, newest first, ties in their given order.
pub open spec fn newest_first(e: Seq<DaemonHistoryEntry>, order: Seq<usize>) -> bool {
    &&& order.len() == e.len()
    &&& forall|p: int| 0 <= p < order.len() ==> (#[trigger] order[p]) < e.len()
    &&& forall|p: int, q: int|
        0 <= p < q < order.len() ==> shown_before(e, #[trigger] order[p] as int, #[trigger] order[q] as int)
}

/// Display order of history entries: newest first, stable.
pub fn history_order(entries: &Vec<DaemonHistoryEntry>) -> (order: Vec<usize>)
    ensures
        newest_first(entries@, order@),
{
    let ghost e = entries@;
    let mut out: Vec<usize> = Vec::new();
    let mut i: usize = 0;
    while i < entries.len()
        invariant
            0 <= i <= entries.len(),
            e == entries@,
            out@.len() == i,
            forall|p: int| 0 <= p < out@.len() ==> (#[trigger] out@[p]) < i,
            forall|p: int, q: int|
                0 <= p < q < out@.len() ==> shown_before(e, #[trigger] out@[p] as int, #[trigger] out@[q] as int),
        decreases entries.len() - i,
    {
        let key = history_timestamp(&entries[i]);
        let mut p: usize = 0;
        while p < out.len() && !text_lt(history_timestamp(&entries[out[p]]), key)
            invariant
                0 <= p <= out@.len(),
                out@.len() == i,
                i < entries.len(),
                e == entries@,
                key@ == entry_time(e[i as int]),
                forall|m: int| 0 <= m < out@.len() ==> (#[trigger] out@[m]) < i,
                forall|m: int| 0 <= m < p ==> !bytes_lt(entry_key(e[#[trigger] out@[m] as int]), entry_key(e[i as int])),
            decreases out@.len() - p,
        {
            p = p + 1;
        }
        proof {
            let ki = entry_key(e[i as int]);
            assert forall|m: int| 0 <= m < p implies shown_before(e, #[trigger] out@[m] as int, i as int) by {
                lemma_bytes_lt_total(ki, entry_key(e[out@[m] as int]));
            }
            assert forall|m: int| p <= m < out@.len() implies shown_before(e, i as int, #[trigger] out@[m] as int) by {
                let a = entry_key(e[out@[p as int] as int]);
                let b = entry_key(e[out@[m] as int]);
                if m != p {
                    assert(shown_before(e, out@[p as int] as int, out@[m] as int));
                    if bytes_lt(b, a) {
                        lemma_bytes_lt_trans(b, a, ki);
                    }
                }
            }
        }
        let ghost before = out@;
        out.insert(p, i);
        proof {
            assert forall|a: int, b: int| 0 <= a < b < out@.len() implies shown_before(e, #[trigger] out@[a] as int, #[trigger] out@[b] as int) by {
                if b < p {
                    assert(out@[a] == before[a] && out@[b] == before[b]);
                } else if b == p {
                    assert(out@[a] == before[a]);
                } else if a < p {
                    assert(out@[a] == before[a] && out@[b] == before[b - 1]);
                    assert(shown_before(e, before[a] as int, i as int));
                    assert(shown_before(e, i as int, before[b - 1] as int));
                    let x = entry_key(e[before[a] as int]);
                    let y = entry_key(e[i as int]);
                    let z = entry_key(e[before[b - 1] as int]);
                    if bytes_lt(y, x) && bytes_lt(z, y) {
                        lemma_bytes_lt_trans(z, y, x);
                    }
                } else if a == p {
                    assert(out@[b] == before[b - 1]);
                } else {
                    assert(out@[a] == before[a - 1] && out@[b] == before[b - 1]);
                }
            }
        }
        i = i + 1;
    }
    out
}

/// History entries rearranged newest first (stable).
pub fn sort_history(entries: Vec<DaemonHistoryEntry>) -> (r: Vec<DaemonHistoryEntry>)
    ensures
        exists|order: Seq<usize>|
            #[trigger] newest_first(entries@, order) && r@.len() == order.len() && forall|p: int|
                0 <= p < order.len() ==> #[trigger] r@[p] == entries@[order[p] as int],
{
    let order = history_order(&entries);
    let ghost original = entries@;
    let mut slots: Vec<Option<DaemonHistoryEntry>> = Vec::new();
    let mut source = entries;
    let mut k: usize = 0;
    let n = source.len();
    // move entries into slots, keeping positions
    while k < n
        invariant
            0 <= k <= n,
            n == original.len(),
            source@ == original.skip(k as int),
            slots@.len() == k,
            forall|m: int| 0 <= m < k ==> #[trigger] slots@[m] == Some(original[m]),
        decreases n - k,
    {
        let ghost before = source@;
        let item = source.remove(0);
        assert(source@ =~= original.skip(k + 1)) by {
            assert(before =~= original.skip(k as int));
        }
        slots.push(Some(item));
        k = k + 1;
    }
    let mut out: Vec<DaemonHistoryEntry> = Vec::new();
    let mut p: usize = 0;
    while p < order.len()
        invariant
            0 <= p <= order@.len(),
            newest_first(original, order@),
            slots@.len() == original.len(),
            out@.len() == p,
            forall|m: int| 0 <= m < p ==> #[trigger] out@[m] == original[order@[m] as int],
            forall|m: int|
                0 <= m < slots@.len() ==> (#[trigger] slots@[m] == Some(original[m])
                    || (slots@[m] is None && exists|q: int| 0 <= q < p && order@[q] == m)),
            forall|q: int| p <= q < order@.len() ==> slots@[#[trigger] order@[q] as int] == Some(
                original[order@[q] as int],
            ),
        decreases order@.len() - p,
    {
        let idx = order[p];
        let taken = slots[idx].take();
        proof {
            assert(slots@[idx as int] == None::<DaemonHistoryEntry>);
            assert forall|q: int| p + 1 <= q < order@.len() implies slots@[#[trigger] order@[q] as int]
                == Some(original[order@[q] as int]) by {
                assert(shown_before(original, order@[p as int] as int, order@[q] as int));
                assert(order@[q] != idx) by {
                    if order@[q] == idx {
                        assert(shown_before(original, idx as int, idx as int));
                        crate::text::lemma_bytes_lt_irreflexive(entry_key(original[idx as int]));
                    }
                }
            }
        }
        match taken {
            Some(item) => {
                out.push(item);
            },
            None => {
                proof {
                    assert(false);
                }
            },
        }
        p = p + 1;
    }
    assert(newest_first(original, order@));
    out
}

// ------------------------------------------------------------------ legacy receipts

/// The string fields of a legacy receipt's JSON object (`None`: absent or not a string).
#[derive(Debug, Clone, Default, PartialEq, Eq)]
pub struct LegacyReceiptFields {
    pub run_id: Option<String>,
    pub daemon_id: Option<String>,
    pub status: Option<String>,
    pub started_at: Option<String>,
    pub completed_at: Option<String>,
    pub acp_session_id: Option<String>,
    pub output_event_id: Option<String>,
    pub diagnostic: Option<String>,
}

pub open spec fn legacy_status(status: Option<String>) -> DaemonRunStatus {
    match status {
        Some(s) => if s@ == "succeeded"@ {
            DaemonRunStatus::Succeeded
        } else if s@ == "cancelled"@ {
            DaemonRunStatus::Cancelled
        } else {
            DaemonRunStatus::Failed
        },
        None => DaemonRunStatus::Failed,
    }
}

/// The first required key a legacy receipt lacks.
pub open spec fn legacy_missing(f: LegacyReceiptFields) -> Option<Seq<char>> {
    if f.run_id is None {
        Some("runId"@)
    } else if f.daemon_id is None {
        Some("daemonId"@)
    } else if f.started_at is None {
        Some("startedAt"@)
    } else if f.completed_at is None {
        Some("completedAt"@)
    } else {
        None
    }
}

fn required_field(value: Option<String>, key: &str) -> (r: Result<String, String>)
    ensures
        value matches Some(v) ==> r == Ok::<String, String>(v),
        value is None ==> (r matches Err(e) && e@ == "legacy daemon receipt is missing "@ + key@),
{
    match value {
        Some(v) => Ok(v),
        None => Err(cat("legacy daemon receipt is missing ", key)),
    }
}

/// A legacy receipt as history shows it: status mapped to `Succeeded`,
/// `Cancelled` or `Failed`, diagnostic cut to 512 characters.
pub fn legacy_history_record(fields: LegacyReceiptFields) -> (r: Result<LegacyDaemonRunRecord, String>)
    ensures
        r is Err <==> legacy_missing(fields) is Some,
        r matches Err(e) ==> e@ == "legacy daemon receipt is missing "@ + legacy_missing(fields)->0,
        r matches Ok(l) ==> {
            &&& Some(l.run_id) == fields.run_id
            &&& Some(l.daemon_id) == fields.daemon_id
            &&& l.status == legacy_status(fields.status)
            &&& Some(l.started_at) == fields.started_at
            &&& Some(l.completed_at) == fields.completed_at
            &&& l.acp_session_id == fields.acp_session_id
            &&& l.output_event_id == fields.output_event_id
            &&& opt_text(l.diagnostic) == match fields.diagnostic {
                Some(d) => Some(take_chars_seq(d@, 512)),
                None => None,
            }
        },
{
    let status = match &fields.status {
        Some(s) => if text_eq(s.as_str(), "succeeded") {
            DaemonRunStatus::Succeeded
        } else if text_eq(s.as_str(), "cancelled") {
            DaemonRunStatus::Cancelled
        } else {
            DaemonRunStatus::Failed
        },
        None => DaemonRunStatus::Failed,
    };
    let LegacyReceiptFields {
        run_id,
        daemon_id,
        status: _,
        started_at,
        completed_at,
        acp_session_id,
        output_event_id,
        diagnostic,
    } = fields;
    let run_id = required_field(run_id, "runId")?;
    let daemon_id = required_field(daemon_id, "daemonId")?;
    let started_at = required_field(started_at, "startedAt")?;
    let completed_at = required_field(completed_at, "completedAt")?;
    let diagnostic = match diagnostic {
        Some(d) => Some(safe_diagnostic(d.as_str())),
        None => None,
    };
    Ok(
        LegacyDaemonRunRecord {
            run_id,
            daemon_id,
            status,
            started_at,
            completed_at,
            acp_session_id,
            output_event_id,
            diagnostic,
        },
    )
}

} // verus!
