//! The UTC cron scheduler: occurrence arithmetic, the claim set that makes each
//! occurrence run at most once, per-binding cursors, schedule status, and the
//! plan of one scheduler tick for one binding.
use vstd::prelude::*;
use crate::foreign::{
    cron_error_text, cron_next, cron_next_after, cron_parse_error, utc_rfc3339, utc_text,
    uuid_v5, uuid_v5_text, CRON_HORIZON_SECONDS, MAX_UTC_SECONDS, MIN_UTC_SECONDS,
};
use crate::runs::{opt_text, text_sha256, text_sha256_hex};
use crate::text::{
    bytes_lt, cat, text_eq, lemma_bytes_lt_asym, lemma_bytes_lt_irreflexive, lemma_bytes_lt_total,
    lemma_bytes_lt_trans, text_lt,
};
use crate::foreign::{parse_rfc3339, rfc3339_instant};
use crate::types::{
    DaemonBinding, DaemonRunStatus, DaemonScheduleReadiness, DaemonScheduleStatus,
    DaemonSchedulerDecision, DaemonSchedulerDecisionKind,
};
use vstd::utf8::encode_utf8;

verus! {

broadcast use vstd::string::group_string_axioms;

/// Namespace of the version-5 UUIDs that name scheduled occurrences.
pub const SCHEDULER_NAMESPACE: u128 = 0x7f4f_9cc2_c315_4a99_994b_15fb_c48e_6081;

/// Most occurrence claims remembered.
pub const MAX_CLAIMS: usize = 2000;

// ------------------------------------------------------------------ time

/// The start of the UTC minute that holds `t` (whole seconds).
pub open spec fn minute_floor_spec(t: int) -> int {
    t - t % 60
}

pub fn minute_floor(t: i64) -> (r: i64)
    requires
        i64::MIN + 60 <= t,
    ensures
        r == minute_floor_spec(t as int),
        r <= t < r + 60,
        r % 60 == 0,
{
    let m = t % 60;
    let m = if m < 0 {
        m + 60
    } else {
        m
    };
    assert(m == (t as int) % 60);
    t - m
}

/// The cron text of a five-field daemon schedule: a leading seconds field `0`.
pub open spec fn cron_text(expression: Seq<char>) -> Seq<char> {
    "0 "@ + expression
}

/// Parses a five-field UTC schedule; answers its cron text.
pub fn parse_schedule(expression: &str) -> (r: Result<String, String>)
    ensures
        match cron_error_text(cron_text(expression@)) {
            None => r matches Ok(t) && t@ == cron_text(expression@),
            Some(e) => r matches Err(m) && m@ == "invalid five-field UTC cron schedule: "@ + e,
        },
{
    let text = cat("0 ", expression);
    match cron_parse_error(text.as_str()) {
        Some(error) => Err(cat("invalid five-field UTC cron schedule: ", error.as_str())),
        None => Ok(text),
    }
}

/// The occurrences due at a tick: the latest one strictly before `now`
/// (older ones are not replayed), and `now` itself if it is one.
#[derive(Debug, Clone, Copy, PartialEq, Eq, Structural)]
pub struct DueOccurrences {
    pub latest_missed: Option<i64>,
    pub current: Option<i64>,
}

/// Walks the occurrences after `cur` up to `now`, remembering the last one before `now`.
pub open spec fn due_from(text: Seq<char>, cur: int, now: int, missed: Option<int>) -> (
    Option<int>,
    Option<int>,
)
    decreases now - cur,
{
    match cron_next(text, cur) {
        Some(t) => if cur < t && t < now {
            due_from(text, t, now, Some(t))
        } else if cur < t && t == now {
            (missed, Some(t))
        } else {
            (missed, None)
        },
        None => (missed, None),
    }
}

pub open spec fn due_spec(text: Seq<char>, observed_through: int, now: int) -> (
    Option<int>,
    Option<int>,
) {
    due_from(text, observed_through, now, None)
}

pub open spec fn due_view(d: DueOccurrences) -> (Option<int>, Option<int>) {
    (
        match d.latest_missed {
            Some(t) => Some(t as int),
            None => None,
        },
        match d.current {
            Some(t) => Some(t as int),
            None => None,
        },
    )
}

pub proof fn lemma_due_from_bounds(text: Seq<char>, cur: int, now: int, missed: Option<int>)
    requires
        missed matches Some(m) ==> m < now,
    ensures
        due_from(text, cur, now, missed).0 matches Some(m) ==> m < now && (m > cur || Some(m) == missed),
        due_from(text, cur, now, missed).1 matches Some(c) ==> c == now && c > cur,
    decreases now - cur,
{
    match cron_next(text, cur) {
        Some(t) => if cur < t && t < now {
            lemma_due_from_bounds(text, t, now, Some(t));
        },
        None => {},
    }
}

/// The occurrences of the schedule `text` after `observed_through` that a tick
/// at `now` acts on.
pub fn due_occurrences(text: &str, observed_through: i64, now: i64) -> (r: DueOccurrences)
    requires
        MIN_UTC_SECONDS <= observed_through <= MAX_UTC_SECONDS,
    ensures
        due_view(r) == due_spec(text@, observed_through as int, now as int),
        r.latest_missed matches Some(m) ==> observed_through < m < now,
        r.current matches Some(c) ==> c == now && observed_through < c,
{
    let mut due = DueOccurrences { latest_missed: None, current: None };
    let mut cur = observed_through;
    proof {
        lemma_due_from_bounds(text@, observed_through as int, now as int, None);
    }
    loop
        invariant_except_break
            MIN_UTC_SECONDS <= cur <= MAX_UTC_SECONDS,
            observed_through <= cur,
            due.current is None,
            due.latest_missed matches Some(m) ==> m == cur && cur < now,
            due.latest_missed is None ==> cur == observed_through,
            due_from(text@, cur as int, now as int, due_view(due).0) == due_spec(
                text@,
                observed_through as int,
                now as int,
            ),
        ensures
            due_view(due) == due_spec(text@, observed_through as int, now as int),
        decreases now - cur,
    {
        match cron_next_after(text, cur) {
            None => break ,
            Some(t) => {
                if t > now {
                    break ;
                }
                if t == now {
                    due.current = Some(t);
                    break ;
                }
                due.latest_missed = Some(t);
                cur = t;
            },
        }
    }
    proof {
        lemma_due_from_bounds(text@, observed_through as int, now as int, None);
    }
    due
}

// ------------------------------------------------------------------ occurrences

/// `binding:hash:time`, the claim that names one occurrence of one binding's schedule.
pub open spec fn claim_text(binding_id: Seq<char>, schedule_hash: Seq<char>, occurrence: int) -> Seq<
    char,
> {
    binding_id + ":"@ + schedule_hash + ":"@ + utc_rfc3339(occurrence)
}

pub fn occurrence_claim(binding_id: &str, schedule_hash: &str, occurrence: i64) -> (r: String)
    requires
        MIN_UTC_SECONDS <= occurrence <= MAX_UTC_SECONDS,
    ensures
        r@ == claim_text(binding_id@, schedule_hash@, occurrence as int),
{
    let mut r = cat(binding_id, ":");
    r.append(schedule_hash);
    r.append(":");
    let t = utc_text(occurrence);
    r.append(t.as_str());
    r
}

/// The run ID of an occurrence: the version-5 UUID of its claim.
pub open spec fn occurrence_run_id_text(claim: Seq<char>) -> Seq<char> {
    uuid_v5_text(SCHEDULER_NAMESPACE, vstd::utf8::encode_utf8(claim))
}

pub fn occurrence_run_id(claim: &str) -> (r: String)
    ensures
        r@ == occurrence_run_id_text(claim@),
{
    uuid_v5(SCHEDULER_NAMESPACE, claim.as_bytes())
}

/// Hex SHA-256 of a schedule expression, which keys its cursor.
pub fn schedule_hash(expression: &str) -> (r: String)
    ensures
        r@ == text_sha256_hex(expression@),
{
    text_sha256(expression)
}

// ------------------------------------------------------------------ claims

/// Claims are kept in the order of their UTF-8 bytes, each once.
pub open spec fn claim_lt(a: Seq<char>, b: Seq<char>) -> bool {
    bytes_lt(encode_utf8(a), encode_utf8(b))
}

pub open spec fn claims_sorted(cs: Seq<Seq<char>>) -> bool {
    forall|i: int, j: int| 0 <= i < j < cs.len() ==> claim_lt(#[trigger] cs[i], #[trigger] cs[j])
}

pub open spec fn claims_view(v: Seq<String>) -> Seq<Seq<char>> {
    v.map_values(|s: String| s@)
}

/// `cs` with `c` added in its place (unchanged when `c` is there already).
pub open spec fn insert_claim(cs: Seq<Seq<char>>, c: Seq<char>) -> Seq<Seq<char>>
    decreases cs.len(),
{
    if cs.len() == 0 {
        seq![c]
    } else if claim_lt(c, cs[0]) {
        seq![c] + cs
    } else if c == cs[0] {
        cs
    } else {
        seq![cs[0]] + insert_claim(cs.drop_first(), c)
    }
}

/// The claims kept after trimming: the greatest `MAX_CLAIMS`.
pub open spec fn trim_claim_seq(cs: Seq<Seq<char>>) -> Seq<Seq<char>> {
    if cs.len() > MAX_CLAIMS {
        cs.skip(cs.len() - MAX_CLAIMS)
    } else {
        cs
    }
}

pub proof fn lemma_claim_key_injective(a: Seq<char>, b: Seq<char>)
    requires
        encode_utf8(a) == encode_utf8(b),
    ensures
        a == b,
{
    vstd::utf8::encode_utf8_decode_utf8(a);
    vstd::utf8::encode_utf8_decode_utf8(b);
}

pub proof fn lemma_insert_claim_at(cs: Seq<Seq<char>>, c: Seq<char>, p: int)
    requires
        0 <= p <= cs.len(),
        forall|m: int| 0 <= m < p ==> claim_lt(#[trigger] cs[m], c),
        p < cs.len() ==> !claim_lt(cs[p], c),
    ensures
        insert_claim(cs, c) == if p < cs.len() && cs[p] == c {
            cs
        } else {
            cs.take(p) + seq![c] + cs.skip(p)
        },
    decreases p,
{
    if p == 0 {
        if cs.len() > 0 {
            lemma_bytes_lt_total(encode_utf8(c), encode_utf8(cs[0]));
            if encode_utf8(c) == encode_utf8(cs[0]) {
                lemma_claim_key_injective(c, cs[0]);
            }
            if claim_lt(c, cs[0]) {
                assert(cs.take(0) + seq![c] + cs.skip(0) =~= seq![c] + cs);
            } else {
                assert(c == cs[0]);
            }
        } else {
            assert(cs.take(0) + seq![c] + cs.skip(0) =~= seq![c]);
        }
    } else {
        let rest = cs.drop_first();
        assert(claim_lt(cs[0], c));
        lemma_bytes_lt_asym(encode_utf8(cs[0]), encode_utf8(c));
        lemma_bytes_lt_irreflexive(encode_utf8(c));
        assert forall|m: int| 0 <= m < p - 1 implies claim_lt(#[trigger] rest[m], c) by {
            assert(rest[m] == cs[m + 1]);
        }
        lemma_insert_claim_at(rest, c, p - 1);
        if p < cs.len() && cs[p] == c {
            assert(rest[p - 1] == cs[p]);
            assert(seq![cs[0]] + rest =~= cs);
        } else {
            assert(seq![cs[0]] + (rest.take(p - 1) + seq![c] + rest.skip(p - 1)) =~= cs.take(p)
                + seq![c] + cs.skip(p));
        }
    }
}

pub proof fn lemma_insert_claim_present(cs: Seq<Seq<char>>, c: Seq<char>)
    requires
        claims_sorted(cs),
        cs.contains(c),
    ensures
        insert_claim(cs, c) == cs,
    decreases cs.len(),
{
    if cs[0] != c {
        let k = choose|k: int| 0 <= k < cs.len() && cs[k] == c;
        assert(k > 0);
        assert(claim_lt(cs[0], cs[k]));
        lemma_bytes_lt_asym(encode_utf8(cs[0]), encode_utf8(c));
        let rest = cs.drop_first();
        assert(rest[k - 1] == c);
        assert(claims_sorted(rest)) by {
            assert forall|i: int, j: int| 0 <= i < j < rest.len() implies claim_lt(#[trigger] rest[i], #[trigger] rest[j]) by {
                assert(rest[i] == cs[i + 1] && rest[j] == cs[j + 1]);
            }
        }
        lemma_insert_claim_present(rest, c);
        assert(seq![cs[0]] + rest =~= cs);
    } else {
        lemma_bytes_lt_irreflexive(encode_utf8(c));
    }
}

pub proof fn lemma_claims_view_insert(v: Seq<String>, p: int, x: String)
    requires
        0 <= p <= v.len(),
    ensures
        claims_view(v.insert(p, x)) == claims_view(v).take(p) + seq![x@] + claims_view(v).skip(p),
{
    assert(claims_view(v.insert(p, x)) =~= claims_view(v).take(p) + seq![x@] + claims_view(v).skip(
        p,
    ));
}

/// Adds `claim` to the sorted claims; answers whether it was new.
pub fn claims_insert(claims: &mut Vec<String>, claim: String) -> (r: bool)
    requires
        claims_sorted(claims_view(old(claims)@)),
    ensures
        claims_sorted(claims_view(final(claims)@)),
        claims_view(final(claims)@) == insert_claim(claims_view(old(claims)@), claim@),
        r == !claims_view(old(claims)@).contains(claim@),
{
    let ghost cs = claims_view(claims@);
    let mut p: usize = 0;
    while p < claims.len() && text_lt(claims[p].as_str(), claim.as_str())
        invariant
            0 <= p <= claims@.len(),
            cs == claims_view(claims@),
            forall|m: int| 0 <= m < p ==> claim_lt(#[trigger] cs[m], claim@),
        decreases claims@.len() - p,
    {
        proof {
            assert(cs[p as int] == claims@[p as int]@);
        }
        p = p + 1;
    }
    proof {
        if p < claims@.len() {
            assert(cs[p as int] == claims@[p as int]@);
        }
        lemma_insert_claim_at(cs, claim@, p as int);
    }
    if p < claims.len() && claims[p] == claim {
        proof {
            assert(cs.contains(claim@)) by {
                assert(cs[p as int] == claim@);
            }
        }
        return false;
    }
    proof {
        let c = claim@;
        if p < cs.len() {
            assert(cs[p as int] == claims@[p as int]@);
            assert(cs[p as int] != c);
            lemma_bytes_lt_total(encode_utf8(c), encode_utf8(cs[p as int]));
            if encode_utf8(c) == encode_utf8(cs[p as int]) {
                lemma_claim_key_injective(c, cs[p as int]);
            }
            assert(claim_lt(c, cs[p as int]));
        }
        assert(!cs.contains(c)) by {
            if cs.contains(c) {
                let k = choose|k: int| 0 <= k < cs.len() && cs[k] == c;
                lemma_bytes_lt_irreflexive(encode_utf8(c));
                if k > p {
                    assert(claim_lt(cs[p as int], cs[k]));
                    lemma_bytes_lt_trans(encode_utf8(c), encode_utf8(cs[p as int]), encode_utf8(cs[k]));
                }
            }
        }
        let ins = cs.take(p as int) + seq![c] + cs.skip(p as int);
        assert forall|i: int, j: int| 0 <= i < j < ins.len() implies claim_lt(#[trigger] ins[i], #[trigger] ins[j]) by {
            if j < p {
                assert(ins[i] == cs[i] && ins[j] == cs[j]);
            } else if j == p {
                assert(ins[i] == cs[i] && ins[j] == c);
            } else if i < p {
                assert(ins[i] == cs[i] && ins[j] == cs[j - 1]);
                assert(claim_lt(cs[i], c));
                if j - 1 > p {
                    assert(claim_lt(cs[p as int], cs[j - 1]));
                    lemma_bytes_lt_trans(encode_utf8(c), encode_utf8(cs[p as int]), encode_utf8(cs[j - 1]));
                }
                lemma_bytes_lt_trans(encode_utf8(cs[i]), encode_utf8(c), encode_utf8(cs[j - 1]));
            } else if i == p {
                assert(ins[i] == c && ins[j] == cs[j - 1]);
                if j - 1 > p {
                    assert(claim_lt(cs[p as int], cs[j - 1]));
                    lemma_bytes_lt_trans(encode_utf8(c), encode_utf8(cs[p as int]), encode_utf8(cs[j - 1]));
                }
            } else {
                assert(ins[i] == cs[i - 1] && ins[j] == cs[j - 1]);
            }
        }
    }
    let ghost before = claims@;
    claims.insert(p, claim);
    proof {
        lemma_claims_view_insert(before, p as int, claims@[p as int]);
    }
    true
}

/// Drops the least claims until at most `MAX_CLAIMS` remain.
pub fn trim_claims(claims: &mut Vec<String>)
    requires
        claims_sorted(claims_view(old(claims)@)),
    ensures
        claims_view(final(claims)@) == trim_claim_seq(claims_view(old(claims)@)),
        claims_sorted(claims_view(final(claims)@)),
        final(claims)@.len() <= MAX_CLAIMS,
{
    let ghost cs = claims_view(claims@);
    let ghost n = claims@.len();
    assert(n <= usize::MAX) by {
        assert(claims@.len() == claims.len());
    }
    let mut dropped: usize = 0;
    while claims.len() > MAX_CLAIMS
        invariant
            cs.len() == n,
            n <= usize::MAX,
            dropped <= n,
            claims@.len() == n - dropped,
            claims_view(claims@) == cs.skip(dropped as int),
            n > MAX_CLAIMS ==> dropped <= n - MAX_CLAIMS,
            n <= MAX_CLAIMS ==> dropped == 0,
        decreases claims@.len(),
    {
        let ghost before = claims@;
        claims.remove(0);
        dropped = dropped + 1;
        assert(claims@ =~= before.skip(1));
        assert(claims_view(claims@) =~= cs.skip(dropped as int)) by {
            assert(claims_view(before) =~= cs.skip(dropped - 1));
            assert forall|k: int| 0 <= k < claims@.len() implies claims_view(claims@)[k] == cs.skip(dropped as int)[k] by {
                assert(claims@[k] == before[k + 1]);
                assert(claims_view(before)[k + 1] == cs.skip(dropped - 1)[k + 1]);
            }
        }
    }
    assert(claims_view(claims@) =~= trim_claim_seq(cs));
}

// ------------------------------------------------------------------ cursors

/// A decision as contracts see it.
pub struct DecisionView {
    pub kind: DaemonSchedulerDecisionKind,
    pub decided_at_utc: Seq<char>,
    pub scheduled_for_utc: Option<Seq<char>>,
    pub diagnostic: Option<Seq<char>>,
}

pub open spec fn decision_view(d: DaemonSchedulerDecision) -> DecisionView {
    DecisionView {
        kind: d.kind,
        decided_at_utc: d.decided_at_utc@,
        scheduled_for_utc: opt_text(d.scheduled_for_utc),
        diagnostic: opt_text(d.diagnostic),
    }
}

/// Where the scheduler stands for one binding.
#[derive(Debug, Clone, PartialEq, Eq)]
pub struct SchedulerCursor {
    pub schedule_hash: String,
    pub observed_through_utc: String,
    pub last_decision: Option<DaemonSchedulerDecision>,
}

pub struct CursorView {
    pub schedule_hash: Seq<char>,
    pub observed_through_utc: Seq<char>,
    pub last_decision: Option<DecisionView>,
}

pub open spec fn cursor_view(c: SchedulerCursor) -> CursorView {
    CursorView {
        schedule_hash: c.schedule_hash@,
        observed_through_utc: c.observed_through_utc@,
        last_decision: match c.last_decision {
            Some(d) => Some(decision_view(d)),
            None => None,
        },
    }
}

#[derive(Debug, Clone, PartialEq, Eq)]
pub struct CursorEntry {
    pub binding_id: String,
    pub cursor: SchedulerCursor,
}

/// The cursor of each binding.
pub open spec fn cursor_map(entries: Seq<CursorEntry>) -> Map<Seq<char>, CursorView>
    decreases entries.len(),
{
    if entries.len() == 0 {
        Map::empty()
    } else {
        cursor_map(entries.drop_last()).insert(
            entries.last().binding_id@,
            cursor_view(entries.last().cursor),
        )
    }
}

pub open spec fn distinct_keys(entries: Seq<CursorEntry>) -> bool {
    forall|i: int, j: int|
        0 <= i < j < entries.len() ==> (#[trigger] entries[i]).binding_id@ != (#[trigger] entries[j]).binding_id@
}

pub proof fn lemma_cursor_map_lookup(entries: Seq<CursorEntry>, i: int)
    requires
        distinct_keys(entries),
        0 <= i < entries.len(),
    ensures
        cursor_map(entries).contains_key(entries[i].binding_id@),
        cursor_map(entries)[entries[i].binding_id@] == cursor_view(entries[i].cursor),
    decreases entries.len(),
{
    if i < entries.len() - 1 {
        let rest = entries.drop_last();
        assert(rest[i] == entries[i]);
        assert(distinct_keys(rest)) by {
            assert forall|a: int, b: int| 0 <= a < b < rest.len() implies (#[trigger] rest[a]).binding_id@ != (#[trigger] rest[b]).binding_id@ by {
                assert(rest[a] == entries[a] && rest[b] == entries[b]);
            }
        }
        lemma_cursor_map_lookup(rest, i);
        assert(entries.last().binding_id@ != entries[i].binding_id@);
    }
}

pub proof fn lemma_cursor_map_absent(entries: Seq<CursorEntry>, k: Seq<char>)
    requires
        forall|i: int| 0 <= i < entries.len() ==> (#[trigger] entries[i]).binding_id@ != k,
    ensures
        !cursor_map(entries).contains_key(k),
    decreases entries.len(),
{
    if entries.len() > 0 {
        let rest = entries.drop_last();
        assert forall|i: int| 0 <= i < rest.len() implies (#[trigger] rest[i]).binding_id@ != k by {
            assert(rest[i] == entries[i]);
        }
        lemma_cursor_map_absent(rest, k);
        assert(entries.last() == entries[entries.len() - 1]);
    }
}

pub proof fn lemma_cursor_map_update(entries: Seq<CursorEntry>, i: int, e: CursorEntry)
    requires
        distinct_keys(entries),
        0 <= i < entries.len(),
        e.binding_id@ == entries[i].binding_id@,
    ensures
        cursor_map(entries.update(i, e)) == cursor_map(entries).insert(
            e.binding_id@,
            cursor_view(e.cursor),
        ),
    decreases entries.len(),
{
    let u = entries.update(i, e);
    let rest = entries.drop_last();
    assert(distinct_keys(rest)) by {
        assert forall|a: int, b: int| 0 <= a < b < rest.len() implies (#[trigger] rest[a]).binding_id@ != (#[trigger] rest[b]).binding_id@ by {
            assert(rest[a] == entries[a] && rest[b] == entries[b]);
        }
    }
    if i == entries.len() - 1 {
        assert(u.drop_last() =~= rest);
        assert forall|a: int| 0 <= a < rest.len() implies (#[trigger] rest[a]).binding_id@ != e.binding_id@ by {
            assert(rest[a] == entries[a]);
        }
        lemma_cursor_map_absent(rest, e.binding_id@);
        assert(cursor_map(u) =~= cursor_map(entries).insert(e.binding_id@, cursor_view(e.cursor)));
    } else {
        assert(u.drop_last() =~= rest.update(i, e));
        assert(rest[i] == entries[i]);
        lemma_cursor_map_update(rest, i, e);
        assert(entries.last().binding_id@ != e.binding_id@);
        assert(u.last() == entries.last());
        assert(cursor_map(u) =~= cursor_map(entries).insert(e.binding_id@, cursor_view(e.cursor)));
    }
}

/// The scheduler's persistent state: cursors keyed by binding ID, and the sorted
/// set of occurrence claims.
#[derive(Debug, Clone, PartialEq, Eq)]
pub struct SchedulerStore {
    pub cursors: Vec<CursorEntry>,
    pub claims: Vec<String>,
}

impl SchedulerStore {
    /// One cursor per binding; claims sorted, each once.
    pub open spec fn wf(&self) -> bool {
        distinct_keys(self.cursors@) && claims_sorted(claims_view(self.claims@))
    }

    pub open spec fn cursors_view(&self) -> Map<Seq<char>, CursorView> {
        cursor_map(self.cursors@)
    }

    pub open spec fn claims_seq(&self) -> Seq<Seq<char>> {
        claims_view(self.claims@)
    }

    pub fn new() -> (r: Self)
        ensures
            r.wf(),
            r.cursors_view() == Map::<Seq<char>, CursorView>::empty(),
            r.claims_seq() == Seq::<Seq<char>>::empty(),
    {
        let r = SchedulerStore { cursors: Vec::new(), claims: Vec::new() };
        assert(r.claims_seq() =~= Seq::<Seq<char>>::empty());
        r
    }

    /// The cursor of `binding_id`, if any.
    pub fn cursor(&self, binding_id: &str) -> (r: Option<&SchedulerCursor>)
        requires
            self.wf(),
        ensures
            r matches Some(c) ==> self.cursors_view().contains_key(binding_id@)
                && self.cursors_view()[binding_id@] == cursor_view(*c),
            r is None ==> !self.cursors_view().contains_key(binding_id@),
    {
        let key = binding_id.to_owned();
        let mut i: usize = 0;
        while i < self.cursors.len()
            invariant
                0 <= i <= self.cursors@.len(),
                self.wf(),
                key@ == binding_id@,
                forall|k: int| 0 <= k < i ==> (#[trigger] self.cursors@[k]).binding_id@ != binding_id@,
            decreases self.cursors@.len() - i,
        {
            if self.cursors[i].binding_id == key {
                proof {
                    lemma_cursor_map_lookup(self.cursors@, i as int);
                }
                return Some(&self.cursors[i].cursor);
            }
            i = i + 1;
        }
        proof {
            lemma_cursor_map_absent(self.cursors@, binding_id@);
        }
        None
    }

    /// Sets the cursor of `binding_id`.
    pub fn set_cursor(&mut self, binding_id: String, cursor: SchedulerCursor)
        requires
            old(self).wf(),
        ensures
            final(self).wf(),
            final(self).cursors_view() == old(self).cursors_view().insert(
                binding_id@,
                cursor_view(cursor),
            ),
            final(self).claims == old(self).claims,
    {
        let mut i: usize = 0;
        while i < self.cursors.len()
            invariant
                0 <= i <= self.cursors@.len(),
                old(self).wf(),
                self.cursors == old(self).cursors,
                self.claims == old(self).claims,
                forall|k: int| 0 <= k < i ==> (#[trigger] self.cursors@[k]).binding_id@ != binding_id@,
            decreases self.cursors@.len() - i,
        {
            if self.cursors[i].binding_id == binding_id {
                let entry = CursorEntry { binding_id, cursor };
                proof {
                    lemma_cursor_map_update(self.cursors@, i as int, entry);
                }
                let ghost before = self.cursors@;
                self.cursors.set(i, entry);
                proof {
                    assert(self.cursors@ == before.update(i as int, entry));
                    assert forall|a: int, b: int| 0 <= a < b < self.cursors@.len() implies (#[trigger] self.cursors@[a]).binding_id@ != (#[trigger] self.cursors@[b]).binding_id@ by {
                        assert(self.cursors@[a].binding_id@ == before[a].binding_id@);
                        assert(self.cursors@[b].binding_id@ == before[b].binding_id@);
                    }
                }
                return;
            }
            i = i + 1;
        }
        let entry = CursorEntry { binding_id, cursor };
        let ghost before = self.cursors@;
        self.cursors.push(entry);
        proof {
            assert(self.cursors@.drop_last() =~= before);
            assert(self.cursors@.last() == entry);
        }
    }

    /// Adds a claim; answers whether it was new.
    pub fn insert_claim(&mut self, claim: String) -> (r: bool)
        requires
            old(self).wf(),
        ensures
            final(self).wf(),
            final(self).claims_seq() == insert_claim(old(self).claims_seq(), claim@),
            r == !old(self).claims_seq().contains(claim@),
            final(self).cursors == old(self).cursors,
    {
        claims_insert(&mut self.claims, claim)
    }

    /// Keeps the greatest `MAX_CLAIMS` claims.
    pub fn trim_claims(&mut self)
        requires
            old(self).wf(),
        ensures
            final(self).wf(),
            final(self).claims_seq() == trim_claim_seq(old(self).claims_seq()),
            final(self).cursors == old(self).cursors,
    {
        trim_claims(&mut self.claims)
    }
}

// ------------------------------------------------------------------ copies

fn copy_opt_string(o: &Option<String>) -> (r: Option<String>)
    ensures
        r == *o,
{
    match o {
        Some(s) => Some(s.clone()),
        None => None,
    }
}

pub fn copy_decision(d: &DaemonSchedulerDecision) -> (r: DaemonSchedulerDecision)
    ensures
        r == *d,
{
    DaemonSchedulerDecision {
        kind: d.kind,
        decided_at_utc: d.decided_at_utc.clone(),
        scheduled_for_utc: copy_opt_string(&d.scheduled_for_utc),
        diagnostic: copy_opt_string(&d.diagnostic),
    }
}

fn copy_opt_decision(o: &Option<DaemonSchedulerDecision>) -> (r: Option<DaemonSchedulerDecision>)
    ensures
        r == *o,
{
    match o {
        Some(d) => Some(copy_decision(d)),
        None => None,
    }
}

fn copy_entry(e: &CursorEntry) -> (r: CursorEntry)
    ensures
        r == *e,
{
    CursorEntry {
        binding_id: e.binding_id.clone(),
        cursor: SchedulerCursor {
            schedule_hash: e.cursor.schedule_hash.clone(),
            observed_through_utc: e.cursor.observed_through_utc.clone(),
            last_decision: copy_opt_decision(&e.cursor.last_decision),
        },
    }
}

impl SchedulerStore {
    /// A copy of the store, to be saved while the original keeps changing.
    pub fn snapshot(&self) -> (r: SchedulerStore)
        ensures
            r.cursors@ == self.cursors@,
            r.claims@ == self.claims@,
    {
        let mut cursors: Vec<CursorEntry> = Vec::new();
        let mut i: usize = 0;
        while i < self.cursors.len()
            invariant
                0 <= i <= self.cursors@.len(),
                cursors@ == self.cursors@.take(i as int),
            decreases self.cursors@.len() - i,
        {
            cursors.push(copy_entry(&self.cursors[i]));
            i = i + 1;
            assert(cursors@ =~= self.cursors@.take(i as int));
        }
        let mut claims: Vec<String> = Vec::new();
        let mut j: usize = 0;
        while j < self.claims.len()
            invariant
                0 <= j <= self.claims@.len(),
                claims@ == self.claims@.take(j as int),
            decreases self.claims@.len() - j,
        {
            claims.push(self.claims[j].clone());
            j = j + 1;
            assert(claims@ =~= self.claims@.take(j as int));
        }
        assert(cursors@ =~= self.cursors@);
        assert(claims@ =~= self.claims@);
        SchedulerStore { cursors, claims }
    }
}

// ------------------------------------------------------------------ decisions and status

pub open spec fn opt_utc(t: Option<int>) -> Option<Seq<char>> {
    match t {
        Some(x) => Some(utc_rfc3339(x)),
        None => None,
    }
}

pub open spec fn decision_spec(
    kind: DaemonSchedulerDecisionKind,
    decided_at: int,
    scheduled_for: Option<int>,
    diagnostic: Option<Seq<char>>,
) -> DecisionView {
    DecisionView {
        kind,
        decided_at_utc: utc_rfc3339(decided_at),
        scheduled_for_utc: opt_utc(scheduled_for),
        diagnostic,
    }
}

pub open spec fn in_utc_range(t: Option<i64>) -> bool {
    t matches Some(x) ==> MIN_UTC_SECONDS <= x <= MAX_UTC_SECONDS
}

pub fn decision(
    kind: DaemonSchedulerDecisionKind,
    decided_at: i64,
    scheduled_for: Option<i64>,
    diagnostic: Option<String>,
) -> (r: DaemonSchedulerDecision)
    requires
        MIN_UTC_SECONDS <= decided_at <= MAX_UTC_SECONDS,
        in_utc_range(scheduled_for),
    ensures
        decision_view(r) == decision_spec(
            kind,
            decided_at as int,
            match scheduled_for {
                Some(t) => Some(t as int),
                None => None,
            },
            opt_text(diagnostic),
        ),
{
    DaemonSchedulerDecision {
        kind,
        decided_at_utc: utc_text(decided_at),
        scheduled_for_utc: match scheduled_for {
            Some(t) => Some(utc_text(t)),
            None => None,
        },
        diagnostic,
    }
}

pub open spec fn last_decision_of(store: SchedulerStore, binding_id: Seq<char>) -> Option<DecisionView> {
    if store.cursors_view().contains_key(binding_id) {
        store.cursors_view()[binding_id].last_decision
    } else {
        None
    }
}

pub open spec fn opt_decision_view(d: Option<DaemonSchedulerDecision>) -> Option<DecisionView> {
    match d {
        Some(x) => Some(decision_view(x)),
        None => None,
    }
}

/// A schedule status as contracts see it.
pub struct StatusView {
    pub binding_id: Seq<char>,
    pub schedule: Option<Seq<char>>,
    pub schedule_hash: Option<Seq<char>>,
    pub readiness: DaemonScheduleReadiness,
    pub readiness_reason: Option<Seq<char>>,
    pub next_occurrence_utc: Option<Seq<char>>,
    pub last_decision: Option<DecisionView>,
}

pub open spec fn status_view(s: DaemonScheduleStatus) -> StatusView {
    StatusView {
        binding_id: s.binding_id@,
        schedule: opt_text(s.schedule),
        schedule_hash: opt_text(s.schedule_hash),
        readiness: s.readiness,
        readiness_reason: opt_text(s.readiness_reason),
        next_occurrence_utc: opt_text(s.next_occurrence_utc),
        last_decision: opt_decision_view(s.last_decision),
    }
}

/// A binding's schedule status, carrying the last decision recorded for it.
pub fn status(
    binding: &DaemonBinding,
    schedule: Option<String>,
    schedule_hash: Option<String>,
    readiness: DaemonScheduleReadiness,
    readiness_reason: Option<String>,
    next_occurrence_utc: Option<String>,
    store: &SchedulerStore,
) -> (r: DaemonScheduleStatus)
    requires
        store.wf(),
    ensures
        status_view(r) == (StatusView {
            binding_id: binding.id@,
            schedule: opt_text(schedule),
            schedule_hash: opt_text(schedule_hash),
            readiness,
            readiness_reason: opt_text(readiness_reason),
            next_occurrence_utc: opt_text(next_occurrence_utc),
            last_decision: last_decision_of(*store, binding.id@),
        }),
{
    let last_decision = match store.cursor(binding.id.as_str()) {
        Some(cursor) => copy_opt_decision(&cursor.last_decision),
        None => None,
    };
    DaemonScheduleStatus {
        binding_id: binding.id.clone(),
        schedule,
        schedule_hash,
        readiness,
        readiness_reason,
        next_occurrence_utc,
        last_decision,
    }
}

/// The next occurrence shown in a status: the first after the current minute.
pub open spec fn next_after_minute(text: Seq<char>, now: int) -> Option<Seq<char>> {
    match cron_next(text, minute_floor_spec(now)) {
        Some(t) => Some(utc_rfc3339(t)),
        None => None,
    }
}

pub open spec fn status_spec(
    binding: DaemonBinding,
    store: SchedulerStore,
    now: int,
    package: Result<Option<String>, String>,
    context: Result<(), String>,
    agent: Result<(), (DaemonScheduleReadiness, Option<String>)>,
) -> StatusView {
    let last = last_decision_of(store, binding.id@);
    match package {
        Err(e) => StatusView {
            binding_id: binding.id@,
            schedule: None,
            schedule_hash: None,
            readiness: DaemonScheduleReadiness::MissingPackage,
            readiness_reason: Some(e@),
            next_occurrence_utc: None,
            last_decision: last,
        },
        Ok(None) => StatusView {
            binding_id: binding.id@,
            schedule: None,
            schedule_hash: None,
            readiness: DaemonScheduleReadiness::WatchOnly,
            readiness_reason: Some("DAEMON.md has no schedule; manual Run now remains available"@),
            next_occurrence_utc: None,
            last_decision: last,
        },
        Ok(Some(expr)) => {
            let hash = Some(text_sha256_hex(expr@));
            let text = cron_text(expr@);
            match cron_error_text(text) {
                Some(err) => StatusView {
                    binding_id: binding.id@,
                    schedule: Some(expr@),
                    schedule_hash: hash,
                    readiness: DaemonScheduleReadiness::InvalidSchedule,
                    readiness_reason: Some("invalid five-field UTC cron schedule: "@ + err),
                    next_occurrence_utc: None,
                    last_decision: last,
                },
                None => {
                    let next = next_after_minute(text, now);
                    let (readiness, reason) = if !binding.schedule_enabled {
                        (
                            DaemonScheduleReadiness::Disabled,
                            Some(
                                "scheduled execution is disabled; manual Run now remains available"@,
                            ),
                        )
                    } else if context is Err {
                        (DaemonScheduleReadiness::InvalidContext, Some(context->Err_0@))
                    } else {
                        match agent {
                            Ok(()) => (DaemonScheduleReadiness::Ready, None),
                            Err((r, why)) => (r, opt_text(why)),
                        }
                    };
                    StatusView {
                        binding_id: binding.id@,
                        schedule: Some(expr@),
                        schedule_hash: hash,
                        readiness,
                        readiness_reason: reason,
                        next_occurrence_utc: next,
                        last_decision: last,
                    }
                },
            }
        },
    }
}

/// The schedule status of a binding at `now`, given its package's schedule (or
/// why the package did not load), whether its context directory still
/// validates, and whether its agent is ready.
pub fn schedule_status_for_binding(
    binding: &DaemonBinding,
    store: &SchedulerStore,
    now: i64,
    package: Result<Option<String>, String>,
    context: Result<(), String>,
    agent: Result<(), (DaemonScheduleReadiness, Option<String>)>,
) -> (r: DaemonScheduleStatus)
    requires
        store.wf(),
        MIN_UTC_SECONDS + 60 <= now <= MAX_UTC_SECONDS,
    ensures
        status_view(r) == status_spec(*binding, *store, now as int, package, context, agent),
{
    let expression = match package {
        Err(e) => {
            return status(
                binding,
                None,
                None,
                DaemonScheduleReadiness::MissingPackage,
                Some(e),
                None,
                store,
            );
        },
        Ok(None) => {
            return status(
                binding,
                None,
                None,
                DaemonScheduleReadiness::WatchOnly,
                Some("DAEMON.md has no schedule; manual Run now remains available".to_string()),
                None,
                store,
            );
        },
        Ok(Some(expression)) => expression,
    };
    let hash = schedule_hash(expression.as_str());
    let text = match parse_schedule(expression.as_str()) {
        Ok(text) => text,
        Err(error) => {
            return status(
                binding,
                Some(expression),
                Some(hash),
                DaemonScheduleReadiness::InvalidSchedule,
                Some(error),
                None,
                store,
            );
        },
    };
    let next = match cron_next_after(text.as_str(), minute_floor(now)) {
        Some(t) => Some(utc_text(t)),
        None => None,
    };
    if !binding.schedule_enabled {
        return status(
            binding,
            Some(expression),
            Some(hash),
            DaemonScheduleReadiness::Disabled,
            Some(
                "scheduled execution is disabled; manual Run now remains available".to_string(),
            ),
            next,
            store,
        );
    }
    if let Err(error) = context {
        return status(
            binding,
            Some(expression),
            Some(hash),
            DaemonScheduleReadiness::InvalidContext,
            Some(error),
            next,
            store,
        );
    }
    let (readiness, reason) = match agent {
        Ok(()) => (DaemonScheduleReadiness::Ready, None),
        Err(value) => value,
    };
    status(binding, Some(expression), Some(hash), readiness, reason, next, store)
}

// ------------------------------------------------------------------ one tick

/// Where the previous tick stopped for this binding: its cursor's instant when
/// the cursor belongs to the same schedule and its time parses (within the
/// range the library hands to chrono), else one minute before `now`.
pub open spec fn previous_observed(
    cursors: Map<Seq<char>, CursorView>,
    binding_id: Seq<char>,
    hash: Seq<char>,
    now: int,
) -> int {
    if cursors.contains_key(binding_id) && cursors[binding_id].schedule_hash == hash {
        match rfc3339_instant(cursors[binding_id].observed_through_utc) {
            Some(p) => if MIN_UTC_SECONDS <= p.0 <= MAX_UTC_SECONDS {
                p.0
            } else {
                now - 60
            },
            None => now - 60,
        }
    } else {
        now - 60
    }
}

/// What to do with the occurrence of the current minute.
#[derive(Debug)]
pub enum CurrentAction {
    /// Record a terminal receipt and do not run.
    Receipt { status: DaemonRunStatus, diagnostic: String },
    /// Start the managed run with this wake instruction.
    Start { wake_instruction: String },
}

/// A receipt to record after saving `store`.
#[derive(Debug)]
pub struct PlannedReceipt {
    pub store: SchedulerStore,
    pub run_id: String,
    pub scheduled_for_utc: String,
    pub status: DaemonRunStatus,
    pub diagnostic: String,
}

/// The current occurrence's run ID and action, to carry out after saving `store`.
#[derive(Debug)]
pub struct PlannedCurrent {
    pub store: SchedulerStore,
    pub run_id: String,
    pub scheduled_for_utc: String,
    pub action: CurrentAction,
}

/// What one tick does for one binding, in order: the missed occurrence's
/// receipt (if newly claimed), then the current occurrence (if newly claimed);
/// afterwards the final store is saved.
#[derive(Debug)]
pub struct TickPlan {
    pub missed: Option<PlannedReceipt>,
    pub current: Option<PlannedCurrent>,
}

pub open spec fn missed_receipt_text() -> Seq<char> {
    "scheduled occurrence elapsed while Buzz was not evaluating the current UTC minute; backlog was not replayed"@
}

pub open spec fn missed_decision_text() -> Seq<char> {
    "recorded only the latest missed occurrence; backlog was not replayed"@
}

pub open spec fn overlap_receipt_text() -> Seq<char> {
    "scheduled occurrence skipped because the binding already had an active run"@
}

/// The wake instruction of a scheduled run.
pub open spec fn scheduled_wake_instruction(scheduled_for: Seq<char>) -> Seq<char> {
    "Run the scheduled daemon occurrence for "@ + scheduled_for + ". This timestamp is UTC."@
}

pub open spec fn cursor_with(hash: Seq<char>, now: int, d: DecisionView) -> CursorView {
    CursorView {
        schedule_hash: hash,
        observed_through_utc: utc_rfc3339(now),
        last_decision: Some(d),
    }
}

pub open spec fn unready_text(reason: Option<String>) -> Seq<char> {
    match reason {
        Some(r) => r@,
        None => "daemon binding is not ready"@,
    }
}

/// The decision for a newly claimed current occurrence.
pub open spec fn current_decision(
    now: int,
    occurrence: int,
    readiness: Result<(), Option<String>>,
    busy: bool,
) -> DecisionView {
    match readiness {
        Err(reason) => decision_spec(
            DaemonSchedulerDecisionKind::SkippedUnready,
            now,
            Some(occurrence),
            opt_text(reason),
        ),
        Ok(()) => if busy {
            decision_spec(
                DaemonSchedulerDecisionKind::SkippedOverlap,
                now,
                Some(occurrence),
                Some("binding already had an active run"@),
            )
        } else {
            decision_spec(DaemonSchedulerDecisionKind::Executed, now, Some(occurrence), None)
        },
    }
}

/// The action for a newly claimed current occurrence.
pub open spec fn current_action_ok(
    a: CurrentAction,
    scheduled_for: Seq<char>,
    readiness: Result<(), Option<String>>,
    busy: bool,
) -> bool {
    match readiness {
        Err(reason) => a matches CurrentAction::Receipt { status, diagnostic } && status
            == DaemonRunStatus::SkippedUnready && diagnostic@ == unready_text(reason),
        Ok(()) => if busy {
            a matches CurrentAction::Receipt { status, diagnostic } && status
                == DaemonRunStatus::SkippedOverlap && diagnostic@ == overlap_receipt_text()
        } else {
            a matches CurrentAction::Start { wake_instruction } && wake_instruction@
                == scheduled_wake_instruction(scheduled_for)
        },
    }
}

/// What a tick does for an enabled, valid schedule.
pub open spec fn scheduled_tick(
    old: SchedulerStore,
    new: SchedulerStore,
    plan: TickPlan,
    binding_id: Seq<char>,
    hash: Seq<char>,
    text: Seq<char>,
    now: int,
    readiness: Result<(), Option<String>>,
    busy: bool,
) -> bool {
    let due = due_spec(text, previous_observed(old.cursors_view(), binding_id, hash, now), now);
    let c0 = old.claims_seq();
    let missed_claim = claim_text(binding_id, hash, due.0->0);
    let missed_new = due.0 is Some && !c0.contains(missed_claim);
    let c1 = if missed_new {
        trim_claim_seq(insert_claim(c0, missed_claim))
    } else {
        c0
    };
    let current_claim = claim_text(binding_id, hash, due.1->0);
    let current_new = due.1 is Some && !c1.contains(current_claim);
    let c2 = if current_new {
        trim_claim_seq(insert_claim(c1, current_claim))
    } else {
        c1
    };
    let last = if current_new {
        current_decision(now, due.1->0, readiness, busy)
    } else if due.0 is Some {
        decision_spec(
            DaemonSchedulerDecisionKind::Missed,
            now,
            due.0,
            Some(missed_decision_text()),
        )
    } else {
        decision_spec(DaemonSchedulerDecisionKind::Ready, now, None, None)
    };
    &&& (plan.missed is Some <==> missed_new)
    &&& (plan.missed matches Some(p) ==> {
        &&& p.store.wf()
        &&& p.store.claims_seq() == c1
        &&& p.store.cursors_view() == old.cursors_view()
        &&& p.run_id@ == occurrence_run_id_text(missed_claim)
        &&& p.scheduled_for_utc@ == utc_rfc3339(due.0->0)
        &&& p.status == DaemonRunStatus::Missed
        &&& p.diagnostic@ == missed_receipt_text()
    })
    &&& (plan.current is Some <==> current_new)
    &&& (plan.current matches Some(p) ==> {
        &&& p.store.wf()
        &&& p.store.claims_seq() == c2
        &&& p.store.cursors_view() == old.cursors_view()
        &&& p.run_id@ == occurrence_run_id_text(current_claim)
        &&& p.scheduled_for_utc@ == utc_rfc3339(due.1->0)
        &&& current_action_ok(p.action, utc_rfc3339(due.1->0), readiness, busy)
    })
    &&& new.claims_seq() == trim_claim_seq(c2)
    &&& new.cursors_view() == old.cursors_view().insert(binding_id, cursor_with(hash, now, last))
}

/// What a tick does for one binding, given its package's schedule (or why the
/// package did not load), whether its current occurrence could run, and whether
/// the binding already has an active run.
pub open spec fn tick_spec(
    old: SchedulerStore,
    new: SchedulerStore,
    plan: TickPlan,
    binding: DaemonBinding,
    now: int,
    package: Result<Option<String>, String>,
    readiness: Result<(), Option<String>>,
    busy: bool,
) -> bool {
    let id = binding.id@;
    &&& rfc3339_instant(new.cursors_view()[id].observed_through_utc) == Some((now, 0int))
    &&& forall|t: int|
        MIN_UTC_SECONDS <= t < now ==> bytes_lt(
            encode_utf8(#[trigger] utc_rfc3339(t)),
            encode_utf8(new.cursors_view()[id].observed_through_utc),
        )
    &&& {
    let only_cursor = |hash: Seq<char>, d: DecisionView|
        {
            &&& plan.missed is None
            &&& plan.current is None
            &&& new.claims_seq() == old.claims_seq()
            &&& new.cursors_view() == old.cursors_view().insert(id, cursor_with(hash, now, d))
        };
    match package {
        Err(e) => only_cursor(
            "missing-package"@,
            decision_spec(DaemonSchedulerDecisionKind::SkippedUnready, now, None, Some(e@)),
        ),
        Ok(None) => only_cursor(
            "watch-only"@,
            decision_spec(DaemonSchedulerDecisionKind::WatchOnly, now, None, None),
        ),
        Ok(Some(expr)) => {
            let hash = text_sha256_hex(expr@);
            let text = cron_text(expr@);
            match cron_error_text(text) {
                Some(err) => only_cursor(
                    hash,
                    decision_spec(
                        DaemonSchedulerDecisionKind::SkippedUnready,
                        now,
                        None,
                        Some("invalid five-field UTC cron schedule: "@ + err),
                    ),
                ),
                None => if !binding.schedule_enabled {
                    only_cursor(
                        hash,
                        decision_spec(
                            DaemonSchedulerDecisionKind::Disabled,
                            now,
                            None,
                            Some("scheduled execution is disabled"@),
                        ),
                    )
                } else {
                    scheduled_tick(old, new, plan, id, hash, text, now, readiness, busy)
                },
            }
        },
    }
    }
}

fn previous_observed_exec(store: &SchedulerStore, binding_id: &str, hash: &str, now: i64) -> (r: i64)
    requires
        store.wf(),
        MIN_UTC_SECONDS + 60 <= now <= MAX_UTC_SECONDS,
    ensures
        r == previous_observed(store.cursors_view(), binding_id@, hash@, now as int),
        MIN_UTC_SECONDS <= r <= MAX_UTC_SECONDS,
{
    match store.cursor(binding_id) {
        Some(cursor) => {
            if text_eq(cursor.schedule_hash.as_str(), hash) {
                match parse_rfc3339(cursor.observed_through_utc.as_str()) {
                    Some(p) => if MIN_UTC_SECONDS <= p.0 && p.0 <= MAX_UTC_SECONDS {
                        p.0
                    } else {
                        now - 60
                    },
                    None => now - 60,
                }
            } else {
                now - 60
            }
        },
        None => now - 60,
    }
}

fn cursor_at(hash: String, now: i64, d: DaemonSchedulerDecision) -> (r: SchedulerCursor)
    requires
        MIN_UTC_SECONDS <= now <= MAX_UTC_SECONDS,
    ensures
        cursor_view(r) == cursor_with(hash@, now as int, decision_view(d)),
        rfc3339_instant(cursor_view(r).observed_through_utc) == Some((now as int, 0int)),
        forall|t: int|
            MIN_UTC_SECONDS <= t < now ==> bytes_lt(
                encode_utf8(#[trigger] utc_rfc3339(t)),
                encode_utf8(cursor_view(r).observed_through_utc),
            ),
{
    SchedulerCursor {
        schedule_hash: hash,
        observed_through_utc: utc_text(now),
        last_decision: Some(d),
    }
}

/// Plans one scheduler tick for one binding and updates `store` to what the
/// tick leaves behind (to be saved last).
pub fn plan_binding_tick(
    store: &mut SchedulerStore,
    binding: &DaemonBinding,
    now: i64,
    package: Result<Option<String>, String>,
    readiness: Result<(), Option<String>>,
    binding_busy: bool,
) -> (plan: TickPlan)
    requires
        old(store).wf(),
        MIN_UTC_SECONDS + 60 <= now <= MAX_UTC_SECONDS,
    ensures
        final(store).wf(),
        tick_spec(*old(store), *final(store), plan, *binding, now as int, package, readiness, binding_busy),
{
    let ghost old_store = *store;
    let expression = match package {
        Err(error) => {
            let d = decision(DaemonSchedulerDecisionKind::SkippedUnready, now, None, Some(error));
            store.set_cursor(binding.id.clone(), cursor_at("missing-package".to_string(), now, d));
            return TickPlan { missed: None, current: None };
        },
        Ok(None) => {
            let d = decision(DaemonSchedulerDecisionKind::WatchOnly, now, None, None);
            store.set_cursor(binding.id.clone(), cursor_at("watch-only".to_string(), now, d));
            return TickPlan { missed: None, current: None };
        },
        Ok(Some(expression)) => expression,
    };
    let hash = schedule_hash(expression.as_str());
    let text = match parse_schedule(expression.as_str()) {
        Ok(text) => text,
        Err(error) => {
            let d = decision(DaemonSchedulerDecisionKind::SkippedUnready, now, None, Some(error));
            store.set_cursor(binding.id.clone(), cursor_at(hash, now, d));
            return TickPlan { missed: None, current: None };
        },
    };
    let previous = previous_observed_exec(store, binding.id.as_str(), hash.as_str(), now);
    let due = due_occurrences(text.as_str(), previous, now);
    if !binding.schedule_enabled {
        let d = decision(
            DaemonSchedulerDecisionKind::Disabled,
            now,
            None,
            Some("scheduled execution is disabled".to_string()),
        );
        store.set_cursor(binding.id.clone(), cursor_at(hash, now, d));
        return TickPlan { missed: None, current: None };
    }
    let mut missed_plan: Option<PlannedReceipt> = None;
    if let Some(missed) = due.latest_missed {
        let claim = occurrence_claim(binding.id.as_str(), hash.as_str(), missed);
        let run_id = occurrence_run_id(claim.as_str());
        let ghost before = store.claims_seq();
        if store.insert_claim(claim) {
            store.trim_claims();
            missed_plan = Some(
                PlannedReceipt {
                    store: store.snapshot(),
                    run_id,
                    scheduled_for_utc: utc_text(missed),
                    status: DaemonRunStatus::Missed,
                    diagnostic: "scheduled occurrence elapsed while Buzz was not evaluating the current UTC minute; backlog was not replayed".to_string(),
                },
            );
        } else {
            proof {
                lemma_insert_claim_present(before, claim_text(binding.id@, hash@, missed as int));
            }
        }
    }
    let ghost store1 = *store;
    let mut last_decision: Option<DaemonSchedulerDecision> = match due.latest_missed {
        Some(missed) => Some(
            decision(
                DaemonSchedulerDecisionKind::Missed,
                now,
                Some(missed),
                Some(
                    "recorded only the latest missed occurrence; backlog was not replayed".to_string(),
                ),
            ),
        ),
        None => None,
    };
    let mut current_plan: Option<PlannedCurrent> = None;
    if let Some(current) = due.current {
        let claim = occurrence_claim(binding.id.as_str(), hash.as_str(), current);
        let run_id = occurrence_run_id(claim.as_str());
        let ghost before = store.claims_seq();
        let ghost cclaim = claim@;
        if store.insert_claim(claim) {
            store.trim_claims();
            let snapshot = store.snapshot();
            let scheduled_for = utc_text(current);
            let action = match readiness {
                Err(reason) => {
                    let diagnostic = match &reason {
                        Some(r) => r.clone(),
                        None => "daemon binding is not ready".to_string(),
                    };
                    last_decision = Some(
                        decision(
                            DaemonSchedulerDecisionKind::SkippedUnready,
                            now,
                            Some(current),
                            reason,
                        ),
                    );
                    CurrentAction::Receipt { status: DaemonRunStatus::SkippedUnready, diagnostic }
                },
                Ok(()) => {
                    if binding_busy {
                        last_decision = Some(
                            decision(
                                DaemonSchedulerDecisionKind::SkippedOverlap,
                                now,
                                Some(current),
                                Some("binding already had an active run".to_string()),
                            ),
                        );
                        CurrentAction::Receipt {
                            status: DaemonRunStatus::SkippedOverlap,
                            diagnostic: "scheduled occurrence skipped because the binding already had an active run".to_string(),
                        }
                    } else {
                        last_decision = Some(
                            decision(
                                DaemonSchedulerDecisionKind::Executed,
                                now,
                                Some(current),
                                None,
                            ),
                        );
                        let mut wake = cat("Run the scheduled daemon occurrence for ", scheduled_for.as_str());
                        wake.append(". This timestamp is UTC.");
                        CurrentAction::Start { wake_instruction: wake }
                    }
                },
            };
            current_plan = Some(
                PlannedCurrent { store: snapshot, run_id, scheduled_for_utc: scheduled_for, action },
            );
        } else {
            proof {
                lemma_insert_claim_present(before, cclaim);
            }
        }
    }
    let last = match last_decision {
        Some(d) => d,
        None => decision(DaemonSchedulerDecisionKind::Ready, now, None, None),
    };
    store.set_cursor(binding.id.clone(), cursor_at(hash, now, last));
    store.trim_claims();
    TickPlan { missed: missed_plan, current: current_plan }
}

/// Whether `pat` occurs somewhere in `s`.
pub open spec fn contains_text(s: Seq<char>, pat: Seq<char>) -> bool {
    crate::text::find_from(s, pat, 0) is Some
}

/// The receipt status of a scheduled run that could not start, read from the
/// error it failed with: an overlap with an active run, a missed minute, or
/// an unready binding.
pub fn spawned_run_failure_status(error: &str) -> (r: DaemonRunStatus)
    ensures
        contains_text(error@, "active run"@) ==> r == DaemonRunStatus::SkippedOverlap,
        !contains_text(error@, "active run"@) && contains_text(error@, "current UTC minute"@) ==> r
            == DaemonRunStatus::Missed,
        !contains_text(error@, "active run"@) && !contains_text(error@, "current UTC minute"@) ==> r
            == DaemonRunStatus::SkippedUnready,
{
    let v = crate::text::chars_of(error);
    let overlap = crate::text::chars_of("active run");
    let minute = crate::text::chars_of("current UTC minute");
    if crate::text::find_chars(&v, &overlap).is_some() {
        DaemonRunStatus::SkippedOverlap
    } else if crate::text::find_chars(&v, &minute).is_some() {
        DaemonRunStatus::Missed
    } else {
        DaemonRunStatus::SkippedUnready
    }
}

} // verus!
