//! Properties that span several operations: what a completion callback, a
//! replayed reservation, a rewrite of a terminal receipt, or a second
//! scheduler tick can and cannot do, and how a DAEMON.md with CRLF line
//! endings reads.
use vstd::prelude::*;
use crate::control::{
    completion_status, kept_markdown, terminal_spec, CompletionOutcome, ControlStatus, RunSlot,
    StopReason, MAX_OUTPUT_BYTES,
};
use crate::foreign::{
    cron_error_text, cron_next, rfc3339_instant, utc_rfc3339, uuid_v5_text, MAX_UTC_SECONDS,
    MIN_UTC_SECONDS,
};
use crate::text::{bytes_lt, lemma_bytes_lt_irreflexive, trim_seq};
use vstd::utf8::{encode_scalar, encode_utf8, is_ascii_chars, is_ascii_chars_encode_utf8};
use crate::runs::{reservation_outcome, same_record, write_error, ReservationOutcome};
use crate::runs::text_sha256_hex;
use crate::schedule::{
    SCHEDULER_NAMESPACE, claim_lt, claim_text, cron_text, due_from, due_spec, insert_claim, previous_observed, tick_spec,
    trim_claim_seq, SchedulerStore, TickPlan, MAX_CLAIMS,
};
use crate::bindings::{one_binding_per_daemon, without_id};
use crate::direct::crlf_to_lf;
use crate::validation::{daemon_md_split, frontmatter_error, normalize_newlines};
use crate::types::{DaemonBinding, DaemonFrontmatter, DaemonRunLifecycle, DaemonRunRecord};

verus! {

// ------------------------------------------------------------------ the control plane

/// A run's completion is accepted at most once: after the control plane has
/// accepted one completion for a run, every later callback for that run, with
/// whatever token, outcome and markdown, is refused.
pub proof fn law_completion_accepted_once(
    runs: Map<Seq<char>, RunSlot>,
    run_id: Seq<char>,
    token: Seq<char>,
    outcome: CompletionOutcome,
    markdown: Option<Seq<char>>,
    later_token: Seq<char>,
    later_outcome: CompletionOutcome,
    later_markdown: Option<Seq<char>>,
)
    requires
        completion_status(runs, run_id, token, outcome, markdown) == ControlStatus::NoContent,
    ensures
        completion_status(
            runs.insert(run_id, (runs[run_id].0, Some((outcome, kept_markdown(markdown))))),
            run_id,
            later_token,
            later_outcome,
            later_markdown,
        ) != ControlStatus::NoContent,
{
}

/// Only the run's own callback token can complete it.
pub proof fn law_completion_needs_run_token(
    runs: Map<Seq<char>, RunSlot>,
    run_id: Seq<char>,
    token: Seq<char>,
    outcome: CompletionOutcome,
    markdown: Option<Seq<char>>,
)
    requires
        runs.contains_key(run_id),
        runs[run_id].0 != token,
    ensures
        completion_status(runs, run_id, token, outcome, markdown) != ControlStatus::NoContent,
{
}

/// A cancelled turn answers `cancelled`, with no output, whatever completion
/// the agent reported.
pub proof fn law_cancellation_wins(
    run_id: Seq<char>,
    session_id: Seq<char>,
    completion: Option<(CompletionOutcome, Option<Seq<char>>)>,
)
    ensures
        terminal_spec(run_id, session_id, StopReason::Cancelled, completion).2 == "cancelled"@,
        terminal_spec(run_id, session_id, StopReason::Cancelled, completion).3 is None,
{
}

/// An activation succeeds only when its turn ended and the agent completed it
/// as a success with markdown; that markdown is the output.
pub proof fn law_success_needs_completion(
    run_id: Seq<char>,
    session_id: Seq<char>,
    reason: StopReason,
    completion: Option<(CompletionOutcome, Option<Seq<char>>)>,
)
    requires
        terminal_spec(run_id, session_id, reason, completion).2 == "succeeded"@,
    ensures
        reason == StopReason::EndTurn,
        completion matches Some((CompletionOutcome::Succeeded, Some(m))) && terminal_spec(
            run_id,
            session_id,
            reason,
            completion,
        ).3 == Some(m),
{
    reveal_strlit("succeeded");
    reveal_strlit("cancelled");
    reveal_strlit("no_op");
    reveal_strlit("failed");
    assert("succeeded"@[0] != "cancelled"@[0]);
    assert("succeeded"@.len() != "no_op"@.len());
    assert("succeeded"@.len() != "failed"@.len());
}

// ------------------------------------------------------------------ run records

/// Replaying a request under a run ID that already holds it never reserves a
/// second run: the stored run is returned or the replay is refused as in progress.
pub proof fn law_reservation_replay_never_duplicates(
    existing: DaemonRunRecord,
    fingerprint: Seq<char>,
    binding_busy: bool,
)
    requires
        existing.fingerprint@ == fingerprint,
    ensures
        reservation_outcome(Some(existing), fingerprint, binding_busy) != ReservationOutcome::Fresh,
        reservation_outcome(Some(existing), fingerprint, binding_busy)
            != ReservationOutcome::Conflict,
        existing.lifecycle == DaemonRunLifecycle::Terminal ==> reservation_outcome(
            Some(existing),
            fingerprint,
            binding_busy,
        ) == ReservationOutcome::ReturnTerminal,
{
}

/// A run ID is bound to one request: a request with another fingerprint is
/// refused, whatever state the stored run is in.
pub proof fn law_reservation_conflict(
    existing: DaemonRunRecord,
    fingerprint: Seq<char>,
    binding_busy: bool,
)
    requires
        existing.fingerprint@ != fingerprint,
    ensures
        reservation_outcome(Some(existing), fingerprint, binding_busy)
            == ReservationOutcome::Conflict,
{
}

/// Terminal receipts are immutable: writing anything but the very same content
/// over a terminal record is refused, while rewriting it unchanged is allowed.
pub proof fn law_terminal_receipts_immutable(stored: DaemonRunRecord, record: DaemonRunRecord)
    requires
        stored.lifecycle == DaemonRunLifecycle::Terminal,
    ensures
        !same_record(stored, record) ==> write_error(Some(stored), record) is Some,
        write_error(Some(stored), stored) is None,
{
}

// ------------------------------------------------------------------ the scheduler

proof fn lemma_due_last(text: Seq<char>, cur: int, now: int, missed: Option<int>)
    requires
        missed matches Some(m) ==> m == cur,
    ensures
        due_from(text, cur, now, missed).0 matches Some(m) ==> (cron_next(text, m) matches Some(t)
            ==> !(m < t && t < now)),
    decreases now - cur,
{
    match cron_next(text, cur) {
        Some(t) => if cur < t && t < now {
            lemma_due_last(text, t, now, Some(t));
        },
        None => {},
    }
}

proof fn lemma_due_bounds(text: Seq<char>, cur: int, now: int, missed: Option<int>, start: int)
    requires
        start <= cur,
        missed matches Some(m) ==> start < m && m == cur && m < now,
        missed is None ==> cur == start,
    ensures
        due_from(text, cur, now, missed).0 matches Some(m) ==> start < m < now,
        due_from(text, cur, now, missed).1 matches Some(c) ==> c == now && start < c,
    decreases now - cur,
{
    match cron_next(text, cur) {
        Some(t) => if cur < t && t < now {
            lemma_due_bounds(text, t, now, Some(t), start);
        },
        None => {},
    }
}

/// Downtime is not replayed: of the occurrences since the last observed
/// instant, a tick reports only the latest one strictly before now (no
/// occurrence lies between it and now), and the occurrence of now itself.
pub proof fn law_latest_missed_only(text: Seq<char>, observed_through: int, now: int)
    ensures
        due_spec(text, observed_through, now).0 matches Some(m) ==> observed_through < m < now && (
        cron_next(text, m) matches Some(t) ==> !(m < t && t < now)),
        due_spec(text, observed_through, now).1 matches Some(c) ==> c == now && observed_through
            < c,
{
    lemma_due_last(text, observed_through, now, None);
    lemma_due_bounds(text, observed_through, now, None, observed_through);
}

/// A tick never replays the minute it handled: a second tick in the same
/// minute, on the store the first left, plans no receipt and starts no run.
pub proof fn law_no_replay_within_minute(
    s0: SchedulerStore,
    s1: SchedulerStore,
    s2: SchedulerStore,
    first: TickPlan,
    second: TickPlan,
    binding: DaemonBinding,
    now: int,
    package: Result<Option<String>, String>,
    readiness: Result<(), Option<String>>,
    busy: bool,
    later_readiness: Result<(), Option<String>>,
    later_busy: bool,
)
    requires
        MIN_UTC_SECONDS <= now <= MAX_UTC_SECONDS,
        tick_spec(s0, s1, first, binding, now, package, readiness, busy),
        tick_spec(s1, s2, second, binding, now, package, later_readiness, later_busy),
    ensures
        second.missed is None,
        second.current is None,
{
    let id = binding.id@;
    assert(rfc3339_instant(s1.cursors_view()[id].observed_through_utc) == Some((now, 0int)));
    match package {
        Ok(Some(expr)) => {
            let text = crate::schedule::cron_text(expr@);
            assert(due_from(text, now, now, None) == (None::<int>, None::<int>));
        },
        _ => {},
    }
}

proof fn lemma_encode_utf8_concat(a: Seq<char>, b: Seq<char>)
    ensures
        encode_utf8(a + b) == encode_utf8(a) + encode_utf8(b),
    decreases a.len(),
{
    if a.len() == 0 {
        assert(a + b =~= b);
        assert(encode_utf8(a) + encode_utf8(b) =~= encode_utf8(b));
    } else {
        lemma_encode_utf8_concat(a.drop_first(), b);
        assert((a + b).drop_first() =~= a.drop_first() + b);
        assert((a + b)[0] == a[0]);
        let e = encode_scalar(a[0] as u32);
        assert(e + (encode_utf8(a.drop_first()) + encode_utf8(b)) =~= (e + encode_utf8(
            a.drop_first(),
        )) + encode_utf8(b));
    }
}

proof fn lemma_bytes_lt_common_prefix(p: Seq<u8>, x: Seq<u8>, y: Seq<u8>)
    requires
        bytes_lt(x, y),
    ensures
        bytes_lt(p + x, p + y),
    decreases p.len(),
{
    if p.len() == 0 {
        assert(p + x =~= x);
        assert(p + y =~= y);
    } else {
        lemma_bytes_lt_common_prefix(p.drop_first(), x, y);
        assert((p + x).drop_first() =~= p.drop_first() + x);
        assert((p + y).drop_first() =~= p.drop_first() + y);
    }
}

/// Claims of one binding and schedule sort in the order of their occurrences.
proof fn lemma_claims_follow_time(id: Seq<char>, hash: Seq<char>, earlier: int, later: int)
    requires
        bytes_lt(encode_utf8(utc_rfc3339(earlier)), encode_utf8(utc_rfc3339(later))),
    ensures
        claim_lt(claim_text(id, hash, earlier), claim_text(id, hash, later)),
{
    let prefix = id + ":"@ + hash + ":"@;
    lemma_encode_utf8_concat(prefix, utc_rfc3339(earlier));
    lemma_encode_utf8_concat(prefix, utc_rfc3339(later));
    lemma_bytes_lt_common_prefix(
        encode_utf8(prefix),
        encode_utf8(utc_rfc3339(earlier)),
        encode_utf8(utc_rfc3339(later)),
    );
}

/// Inserting a claim that sorts before a held claim moves that claim one place on.
proof fn lemma_insert_claim_before(cs: Seq<Seq<char>>, c: Seq<char>, q: int)
    requires
        0 <= q < cs.len(),
        claim_lt(c, cs[q]),
        !cs.contains(c),
    ensures
        insert_claim(cs, c).len() == cs.len() + 1,
        insert_claim(cs, c)[q + 1] == cs[q],
    decreases cs.len(),
{
    if claim_lt(c, cs[0]) {
    } else {
        assert(c != cs[0]);
        assert(q != 0);
        let rest = cs.drop_first();
        assert(rest[q - 1] == cs[q]);
        assert(!rest.contains(c)) by {
            if rest.contains(c) {
                let k = choose|k: int| 0 <= k < rest.len() && rest[k] == c;
                assert(cs[k + 1] == c);
            }
        }
        lemma_insert_claim_before(rest, c, q - 1);
    }
}

/// An occurrence is run at most once: a tick plans no receipt for the latest
/// missed occurrence when the store already holds that occurrence's claim, and
/// starts nothing and records nothing for the current minute when the store
/// holds its claim among the claims that trimming keeps (the greatest
/// `MAX_CLAIMS` in claim order).
pub proof fn law_claimed_occurrence_not_rerun(
    old: SchedulerStore,
    new: SchedulerStore,
    plan: TickPlan,
    binding: DaemonBinding,
    now: int,
    expression: String,
    readiness: Result<(), Option<String>>,
    busy: bool,
)
    requires
        MIN_UTC_SECONDS + 60 <= now <= MAX_UTC_SECONDS,
        tick_spec(old, new, plan, binding, now, Ok(Some(expression)), readiness, busy),
    ensures
        ({
            let hash = text_sha256_hex(expression@);
            let observed = previous_observed(old.cursors_view(), binding.id@, hash, now);
            due_spec(cron_text(expression@), observed, now).0 matches Some(m)
                && old.claims_seq().contains(claim_text(binding.id@, hash, m))
        }) ==> plan.missed is None,
        trim_claim_seq(old.claims_seq()).contains(
            claim_text(binding.id@, text_sha256_hex(expression@), now),
        ) ==> plan.current is None,
{
    let id = binding.id@;
    let hash = text_sha256_hex(expression@);
    let text = cron_text(expression@);
    let observed = previous_observed(old.cursors_view(), id, hash, now);
    let due = due_spec(text, observed, now);
    lemma_due_bounds(text, observed, now, None, observed);
    let c0 = old.claims_seq();
    let current = claim_text(id, hash, now);
    if trim_claim_seq(c0).contains(current) && due.0 is Some && !c0.contains(
        claim_text(id, hash, due.0->0),
    ) && cron_error_text(text) is None && binding.schedule_enabled {
        let m = due.0->0;
        let missed = claim_text(id, hash, m);
        assert(MIN_UTC_SECONDS <= observed);
        assert(bytes_lt(
            encode_utf8(utc_rfc3339(m)),
            encode_utf8(new.cursors_view()[id].observed_through_utc),
        ));
        assert(new.cursors_view()[id].observed_through_utc == utc_rfc3339(now));
        lemma_claims_follow_time(id, hash, m, now);
        let t0 = trim_claim_seq(c0);
        let k = choose|k: int| 0 <= k < t0.len() && t0[k] == current;
        let q = if c0.len() > MAX_CLAIMS {
            k + (c0.len() - MAX_CLAIMS)
        } else {
            k
        };
        assert(c0[q] == current);
        lemma_insert_claim_before(c0, missed, q);
        let ins = insert_claim(c0, missed);
        let c1 = trim_claim_seq(ins);
        if ins.len() > MAX_CLAIMS {
            let d = ins.len() - MAX_CLAIMS;
            assert(c1[q + 1 - d] == current);
        } else {
            assert(c1[q + 1] == current);
        }
        assert(c1.contains(current));
    }
}

// ------------------------------------------------------------------ the binding store

proof fn lemma_without_id_members(bs: Seq<DaemonBinding>, id: Seq<char>)
    ensures
        forall|j: int|
            0 <= j < without_id(bs, id).len() ==> exists|k: int|
                0 <= k < bs.len() && #[trigger] without_id(bs, id)[j] == bs[k],
    decreases bs.len(),
{
    if bs.len() > 0 {
        let pre = bs.drop_last();
        lemma_without_id_members(pre, id);
        let w = without_id(bs, id);
        assert forall|j: int| 0 <= j < w.len() implies exists|k: int|
            0 <= k < bs.len() && #[trigger] w[j] == bs[k] by {
            if bs.last().id@ != id && j == w.len() - 1 {
                assert(w[j] == bs[bs.len() - 1]);
            } else {
                let k = choose|k: int| 0 <= k < pre.len() && without_id(pre, id)[j] == pre[k];
                assert(w[j] == without_id(pre, id)[j]);
                assert(pre[k] == bs[k]);
            }
        }
    }
}

/// Deleting a binding keeps every daemon at one binding at most.
pub proof fn law_delete_keeps_one_binding_per_daemon(bindings: Seq<DaemonBinding>, binding_id: Seq<char>)
    requires
        one_binding_per_daemon(bindings),
    ensures
        one_binding_per_daemon(without_id(bindings, binding_id)),
    decreases bindings.len(),
{
    if bindings.len() > 0 {
        let pre = bindings.drop_last();
        assert(one_binding_per_daemon(pre)) by {
            assert forall|i: int, j: int| 0 <= i < j < pre.len() implies (#[trigger] pre[i]).daemon_id@
                != (#[trigger] pre[j]).daemon_id@ by {
                assert(pre[i] == bindings[i] && pre[j] == bindings[j]);
            }
        }
        law_delete_keeps_one_binding_per_daemon(pre, binding_id);
        if bindings.last().id@ != binding_id {
            lemma_without_id_members(pre, binding_id);
            let w = without_id(bindings, binding_id);
            let wp = without_id(pre, binding_id);
            assert forall|i: int, j: int| 0 <= i < j < w.len() implies (#[trigger] w[i]).daemon_id@
                != (#[trigger] w[j]).daemon_id@ by {
                assert(w[i] == wp[i]);
                if j < wp.len() {
                    assert(w[j] == wp[j]);
                } else {
                    let k = choose|k: int| 0 <= k < pre.len() && wp[i] == pre[k];
                    assert(pre[k] == bindings[k]);
                    assert(w[j] == bindings[bindings.len() - 1]);
                }
            }
        }
    }
}


// ------------------------------------------------------------------ line endings

/// `s` holds no carriage return.
pub open spec fn no_carriage_return(s: Seq<char>) -> bool {
    forall|i: int| 0 <= i < s.len() ==> s[i] != '\r'
}

/// `s` with every line feed written as a carriage return and a line feed.
pub open spec fn crlf_of(s: Seq<char>) -> Seq<char>
    decreases s.len(),
{
    if s.len() == 0 {
        s
    } else if s[0] == '\n' {
        seq!['\r', '\n'] + crlf_of(s.skip(1))
    } else {
        seq![s[0]] + crlf_of(s.skip(1))
    }
}

/// A DAEMON.md written with CRLF line endings reads as the same text written
/// with LF endings: both splitters see the LF text, so the frontmatter, the
/// body and any refusal are the same; and the LF text is no longer in UTF-8
/// bytes, so a CRLF text within the size limit has its LF text within it too.
pub proof fn law_crlf_reads_as_lf(s: Seq<char>)
    requires
        no_carriage_return(s),
    ensures
        normalize_newlines(crlf_of(s)) == s,
        crlf_to_lf(crlf_of(s)) == s,
        daemon_md_split(crlf_of(s)) == daemon_md_split(s),
        encode_utf8(s).len() <= encode_utf8(crlf_of(s)).len(),
    decreases s.len(),
{
    lemma_crlf_not_shorter(s);
    if s.len() == 0 {
        assert(normalize_newlines(s) =~= s);
        assert(crlf_to_lf(s) =~= s);
    } else {
        let rest = s.skip(1);
        assert(no_carriage_return(rest)) by {
            assert forall|i: int| 0 <= i < rest.len() implies rest[i] != '\r' by {
                assert(rest[i] == s[i + 1]);
            }
        }
        law_crlf_reads_as_lf(rest);
        let c = crlf_of(rest);
        let t = crlf_of(s);
        if s[0] == '\n' {
            assert(t == seq!['\r', '\n'] + c);
            assert(t.skip(2) =~= c);
            assert(normalize_newlines(t) == seq!['\n'] + normalize_newlines(t.skip(2)));
            assert(crlf_to_lf(t) == seq!['\n'] + crlf_to_lf(t.skip(2)));
        } else {
            assert(t == seq![s[0]] + c);
            assert(t.skip(1) =~= c);
            assert(t[0] != '\r');
            assert(normalize_newlines(t) == seq![s[0]] + normalize_newlines(t.skip(1)));
            assert(crlf_to_lf(t) == seq![s[0]] + crlf_to_lf(t.skip(1)));
        }
        assert(seq![s[0]] + rest =~= s);
        assert(normalize_newlines(s) =~= s) by {
            lemma_normalize_without_cr(s);
        }
    }
}

/// Writing line feeds as CRLF never shortens a text's UTF-8 encoding.
proof fn lemma_crlf_not_shorter(s: Seq<char>)
    ensures
        encode_utf8(s).len() <= encode_utf8(crlf_of(s)).len(),
    decreases s.len(),
{
    if s.len() > 0 {
        let rest = s.skip(1);
        lemma_crlf_not_shorter(rest);
        let head = seq![s[0]];
        assert(head + rest =~= s);
        lemma_encode_utf8_concat(head, rest);
        if s[0] == '\n' {
            let crlf = seq!['\r', '\n'];
            assert(is_ascii_chars(crlf));
            assert(is_ascii_chars(head));
            is_ascii_chars_encode_utf8(crlf);
            is_ascii_chars_encode_utf8(head);
            lemma_encode_utf8_concat(crlf, crlf_of(rest));
        } else {
            lemma_encode_utf8_concat(head, crlf_of(rest));
        }
    }
}

/// Normalising line endings changes nothing in a text without carriage returns.
proof fn lemma_normalize_without_cr(s: Seq<char>)
    requires
        no_carriage_return(s),
    ensures
        normalize_newlines(s) == s,
    decreases s.len(),
{
    if s.len() > 0 {
        let rest = s.skip(1);
        assert(no_carriage_return(rest)) by {
            assert forall|i: int| 0 <= i < rest.len() implies rest[i] != '\r' by {
                assert(rest[i] == s[i + 1]);
            }
        }
        lemma_normalize_without_cr(rest);
        assert(seq![s[0]] + rest =~= s);
    } else {
        assert(normalize_newlines(s) =~= s);
    }
}

// ------------------------------------------------------------------ run identities

/// The name a scheduled occurrence's run ID is derived from: the binding, the
/// schedule's hash and the occurrence's UTC time, joined by colons.
pub open spec fn occurrence_name(binding_id: Seq<char>, hash: Seq<char>, at: int) -> Seq<u8> {
    encode_utf8(binding_id + ":"@ + hash + ":"@ + utc_rfc3339(at))
}

/// Each scheduled occurrence runs under its own run ID: the current minute's
/// run, and a missed occurrence's receipt, are planned under the version-5 UUID
/// (in the scheduler namespace) of `binding:hash:time` for that occurrence, so
/// two different occurrences of one binding and schedule are named from
/// different texts.
pub proof fn law_each_occurrence_has_its_own_run_id(
    old1: SchedulerStore,
    new1: SchedulerStore,
    plan1: TickPlan,
    old2: SchedulerStore,
    new2: SchedulerStore,
    plan2: TickPlan,
    binding: DaemonBinding,
    expression: String,
    now1: int,
    now2: int,
    readiness1: Result<(), Option<String>>,
    busy1: bool,
    readiness2: Result<(), Option<String>>,
    busy2: bool,
)
    requires
        MIN_UTC_SECONDS + 60 <= now1 < now2 <= MAX_UTC_SECONDS,
        tick_spec(old1, new1, plan1, binding, now1, Ok(Some(expression)), readiness1, busy1),
        tick_spec(old2, new2, plan2, binding, now2, Ok(Some(expression)), readiness2, busy2),
    ensures
        plan1.current matches Some(p) ==> p.run_id@ == uuid_v5_text(
            SCHEDULER_NAMESPACE,
            occurrence_name(binding.id@, text_sha256_hex(expression@), now1),
        ),
        plan2.current matches Some(p) ==> p.run_id@ == uuid_v5_text(
            SCHEDULER_NAMESPACE,
            occurrence_name(binding.id@, text_sha256_hex(expression@), now2),
        ),
        occurrence_name(binding.id@, text_sha256_hex(expression@), now1) != occurrence_name(
            binding.id@,
            text_sha256_hex(expression@),
            now2,
        ),
        plan1.missed matches Some(p) ==> exists|m: int|
            MIN_UTC_SECONDS <= m < now1 && p.scheduled_for_utc@ == utc_rfc3339(m) && p.run_id@
                == uuid_v5_text(
                SCHEDULER_NAMESPACE,
                #[trigger] occurrence_name(binding.id@, text_sha256_hex(expression@), m),
            ) && occurrence_name(binding.id@, text_sha256_hex(expression@), m) != occurrence_name(
                binding.id@,
                text_sha256_hex(expression@),
                now1,
            ),
{
    let id = binding.id@;
    let hash = text_sha256_hex(expression@);
    let text = cron_text(expression@);
    let o1 = previous_observed(old1.cursors_view(), id, hash, now1);
    let o2 = previous_observed(old2.cursors_view(), id, hash, now2);
    lemma_due_last(text, o1, now1, None);
    lemma_due_bounds(text, o1, now1, None, o1);
    if plan1.missed is Some {
        let m = due_spec(text, o1, now1).0->0;
        assert(new1.cursors_view()[id].observed_through_utc == utc_rfc3339(now1));
        assert(bytes_lt(encode_utf8(utc_rfc3339(m)), encode_utf8(utc_rfc3339(now1))));
        lemma_claims_follow_time(id, hash, m, now1);
        lemma_bytes_lt_irreflexive(occurrence_name(id, hash, m));
        assert(occurrence_name(id, hash, m) != occurrence_name(id, hash, now1));
    }
    lemma_due_last(text, o2, now2, None);
    lemma_due_bounds(text, o2, now2, None, o2);
    assert(new2.cursors_view()[id].observed_through_utc == utc_rfc3339(now2));
    assert(bytes_lt(encode_utf8(utc_rfc3339(now1)), encode_utf8(utc_rfc3339(now2))));
    lemma_claims_follow_time(id, hash, now1, now2);
    let a = occurrence_name(id, hash, now1);
    let b = occurrence_name(id, hash, now2);
    assert(bytes_lt(a, b));
    lemma_bytes_lt_irreflexive(a);
}

/// A run request never gets a second active run on its binding: when nothing
/// is stored under the run ID, a fresh reservation is made exactly when the
/// binding has no active run, and a busy binding is refused.
pub proof fn law_busy_binding_gets_no_new_run(
    existing: Option<DaemonRunRecord>,
    fingerprint: Seq<char>,
    binding_busy: bool,
)
    ensures
        reservation_outcome(existing, fingerprint, binding_busy) == ReservationOutcome::Fresh
            <==> existing is None && !binding_busy,
        existing is None && binding_busy ==> reservation_outcome(existing, fingerprint, binding_busy)
            == ReservationOutcome::BindingBusy,
{
}

// ------------------------------------------------------------------ no-op completions

/// A turn that ended with a no-op completion answers `no_op`, with no output
/// and no diagnostic, whatever markdown the completion carried.
pub proof fn law_noop_end_turn_answers_no_op(
    run_id: Seq<char>,
    session_id: Seq<char>,
    markdown: Option<Seq<char>>,
)
    ensures
        terminal_spec(run_id, session_id, StopReason::EndTurn, Some((CompletionOutcome::NoOp, markdown)))
            == (run_id, Some(session_id), "no_op"@, None::<Seq<char>>, None::<Seq<char>>),
{
}

/// Markdown is optional for a no-op completion: one whose markdown fits in
/// 128 KiB of UTF-8 is answered as the same completion without markdown, and
/// from the run's own token, for an active run with no completion yet, it is
/// accepted.
pub proof fn law_noop_completion_markdown_optional(
    runs: Map<Seq<char>, RunSlot>,
    run_id: Seq<char>,
    token: Seq<char>,
    markdown: Seq<char>,
)
    requires
        encode_utf8(markdown).len() <= MAX_OUTPUT_BYTES,
    ensures
        completion_status(runs, run_id, token, CompletionOutcome::NoOp, Some(markdown))
            == completion_status(runs, run_id, token, CompletionOutcome::NoOp, None),
        runs.contains_key(run_id) && runs[run_id].0 == token && runs[run_id].1 is None
            ==> completion_status(runs, run_id, token, CompletionOutcome::NoOp, Some(markdown))
            == ControlStatus::NoContent,
        runs.contains_key(run_id) && runs[run_id].0 == token && runs[run_id].1 is None
            ==> completion_status(runs, run_id, token, CompletionOutcome::NoOp, None)
            == ControlStatus::NoContent,
{
}

// ------------------------------------------------------------------ policy

/// `deny` is optional: a frontmatter with no deny entries is judged exactly as
/// the same frontmatter with any list of non-blank deny entries.
pub proof fn law_deny_is_optional(
    fm: DaemonFrontmatter,
    other: DaemonFrontmatter,
    body: Seq<char>,
    expected_id: Option<Seq<char>>,
)
    requires
        fm.id@ == other.id@,
        fm.purpose@ == other.purpose@,
        fm.watch@ == other.watch@,
        fm.routines@ == other.routines@,
        fm.schedule == other.schedule,
        fm.deny@.len() == 0,
        forall|i: int| 0 <= i < other.deny@.len() ==> trim_seq(#[trigger] other.deny@[i]@).len() > 0,
    ensures
        frontmatter_error(fm, body, expected_id) == frontmatter_error(other, body, expected_id),
{
}

} // verus!
