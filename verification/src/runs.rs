//! Durable daemon run records: fingerprints, idempotent reservation, lifecycle
//! transitions, the immutability guard on writes, scheduler receipts, recovery
//! of interrupted runs, and what history pruning removes.
use vstd::prelude::*;
use vstd::string::StringSliceAdditionalSpecFns;
use vstd::utf8::encode_utf8;
use crate::foreign::{hex_encode, json_quote, json_string_literal, lower_hex, sha256, sha256_digest};
use crate::text::{cat, copy_str, take_chars, take_chars_seq};
use crate::types::{
    snapshot_of, DaemonBinding, DaemonBindingSnapshot, DaemonRunLifecycle, DaemonRunRecord,
    DaemonRunStatus, DaemonRunTrigger,
};

verus! {

broadcast use vstd::string::group_string_axioms;

/// Longest diagnostic kept in a receipt, in characters.
pub const MAX_DIAGNOSTIC_CHARS: usize = 512;

/// The first 512 characters of a diagnostic.
pub fn safe_diagnostic(value: &str) -> (r: String)
    ensures
        r@ == take_chars_seq(value@, 512),
{
    take_chars(value, MAX_DIAGNOSTIC_CHARS)
}

pub open spec fn opt_text(o: Option<String>) -> Option<Seq<char>> {
    match o {
        Some(s) => Some(s@),
        None => None,
    }
}

// ------------------------------------------------------------------ hashing

/// Lower-case hex SHA-256 of the UTF-8 bytes of a text.
pub open spec fn text_sha256_hex(text: Seq<char>) -> Seq<char> {
    lower_hex(sha256(encode_utf8(text)))
}

pub fn sha256_hex(bytes: &[u8]) -> (r: String)
    ensures
        r@ == lower_hex(sha256(bytes@)),
{
    let digest = sha256_digest(bytes);
    hex_encode(digest.as_slice())
}

pub fn text_sha256(text: &str) -> (r: String)
    ensures
        r@ == text_sha256_hex(text@),
{
    sha256_hex(text.as_bytes())
}

pub open spec fn json_bool(b: bool) -> Seq<char> {
    if b {
        "true"@
    } else {
        "false"@
    }
}

pub open spec fn trigger_json(t: DaemonRunTrigger) -> Seq<char> {
    match t {
        DaemonRunTrigger::Manual => ",\"manual\","@,
        DaemonRunTrigger::Watch => ",\"watch\","@,
        DaemonRunTrigger::Schedule => ",\"schedule\","@,
    }
}

/// The compact JSON that serde writes for the array
/// `[snapshot, package_hash, wake_hash, trigger, scheduled_for]`
/// (the snapshot as an object with camelCase keys in field order).
pub open spec fn fingerprint_json(
    s: DaemonBindingSnapshot,
    package_hash: Seq<char>,
    wake_hash: Seq<char>,
    trigger: DaemonRunTrigger,
    scheduled_for: Option<Seq<char>>,
) -> Seq<char> {
    "[{\"bindingId\":"@ + json_string_literal(s.binding_id@) + ",\"daemonId\":"@
        + json_string_literal(s.daemon_id@) + ",\"agentPubkey\":"@ + json_string_literal(
        s.agent_pubkey@,
    ) + ",\"relayUrl\":"@ + json_string_literal(s.relay_url@) + ",\"channelId\":"@
        + json_string_literal(s.channel_id@) + ",\"contextConfigured\":"@ + json_bool(
        s.context_configured,
    ) + ",\"scheduleEnabled\":"@ + json_bool(s.schedule_enabled) + "},"@ + json_string_literal(
        package_hash,
    ) + ","@ + json_string_literal(wake_hash) + trigger_json(trigger) + match scheduled_for {
        Some(x) => json_string_literal(x),
        None => "null"@,
    } + "]"@
}

/// The immutable fingerprint of a run request: hex SHA-256 of its JSON array.
pub open spec fn run_fingerprint(
    s: DaemonBindingSnapshot,
    package_hash: Seq<char>,
    wake_hash: Seq<char>,
    trigger: DaemonRunTrigger,
    scheduled_for: Option<Seq<char>>,
) -> Seq<char> {
    text_sha256_hex(fingerprint_json(s, package_hash, wake_hash, trigger, scheduled_for))
}

fn append_json_field(out: &mut String, key: &str, value: &str)
    ensures
        final(out)@ == old(out)@ + key@ + json_string_literal(value@),
{
    out.append(key);
    let q = json_quote(value);
    out.append(q.as_str());
}

fn append_bool(out: &mut String, key: &str, value: bool)
    ensures
        final(out)@ == old(out)@ + key@ + json_bool(value),
{
    out.append(key);
    if value {
        out.append("true");
    } else {
        out.append("false");
    }
}

pub fn immutable_fingerprint(
    binding: &DaemonBindingSnapshot,
    package_hash: &str,
    wake_hash: &str,
    trigger: DaemonRunTrigger,
    scheduled_for_utc: Option<&str>,
) -> (r: String)
    ensures
        r@ == run_fingerprint(
            *binding,
            package_hash@,
            wake_hash@,
            trigger,
            scheduled_for_utc.deep_view(),
        ),
{
    let mut out = String::new();
    append_json_field(&mut out, "[{\"bindingId\":", binding.binding_id.as_str());
    append_json_field(&mut out, ",\"daemonId\":", binding.daemon_id.as_str());
    append_json_field(&mut out, ",\"agentPubkey\":", binding.agent_pubkey.as_str());
    append_json_field(&mut out, ",\"relayUrl\":", binding.relay_url.as_str());
    append_json_field(&mut out, ",\"channelId\":", binding.channel_id.as_str());
    append_bool(&mut out, ",\"contextConfigured\":", binding.context_configured);
    append_bool(&mut out, ",\"scheduleEnabled\":", binding.schedule_enabled);
    append_json_field(&mut out, "},", package_hash);
    append_json_field(&mut out, ",", wake_hash);
    match trigger {
        DaemonRunTrigger::Manual => out.append(",\"manual\","),
        DaemonRunTrigger::Watch => out.append(",\"watch\","),
        DaemonRunTrigger::Schedule => out.append(",\"schedule\","),
    }
    match scheduled_for_utc {
        Some(s) => {
            let q = json_quote(s);
            out.append(q.as_str());
        },
        None => out.append("null"),
    }
    out.append("]");
    assert(out@ =~= fingerprint_json(
        *binding,
        package_hash@,
        wake_hash@,
        trigger,
        scheduled_for_utc.deep_view(),
    ));
    text_sha256(out.as_str())
}

// ------------------------------------------------------------------ record equality

pub open spec fn same_snapshot(a: DaemonBindingSnapshot, b: DaemonBindingSnapshot) -> bool {
    &&& a.binding_id@ == b.binding_id@
    &&& a.daemon_id@ == b.daemon_id@
    &&& a.agent_pubkey@ == b.agent_pubkey@
    &&& a.relay_url@ == b.relay_url@
    &&& a.channel_id@ == b.channel_id@
    &&& a.context_configured == b.context_configured
    &&& a.schedule_enabled == b.schedule_enabled
}

/// Two records hold the same content, field by field.
pub open spec fn same_record(a: DaemonRunRecord, b: DaemonRunRecord) -> bool {
    &&& a.run_id@ == b.run_id@
    &&& a.binding_id@ == b.binding_id@
    &&& a.daemon_id@ == b.daemon_id@
    &&& opt_text(a.package_hash) == opt_text(b.package_hash)
    &&& opt_text(a.policy_hash) == opt_text(b.policy_hash)
    &&& a.fingerprint@ == b.fingerprint@
    &&& a.wake_hash@ == b.wake_hash@
    &&& same_snapshot(a.binding, b.binding)
    &&& a.trigger == b.trigger
    &&& opt_text(a.scheduled_for_utc) == opt_text(b.scheduled_for_utc)
    &&& a.lifecycle == b.lifecycle
    &&& a.status == b.status
    &&& a.reserved_at@ == b.reserved_at@
    &&& opt_text(a.started_at) == opt_text(b.started_at)
    &&& opt_text(a.publishing_at) == opt_text(b.publishing_at)
    &&& opt_text(a.completed_at) == opt_text(b.completed_at)
    &&& opt_text(a.acp_session_id) == opt_text(b.acp_session_id)
    &&& opt_text(a.output_event_id) == opt_text(b.output_event_id)
    &&& opt_text(a.diagnostic) == opt_text(b.diagnostic)
}

fn opt_text_eq(a: &Option<String>, b: &Option<String>) -> (r: bool)
    ensures
        r == (opt_text(*a) == opt_text(*b)),
{
    match a {
        Some(x) => match b {
            Some(y) => {
                let e = *x == *y;
                e
            },
            None => false,
        },
        None => b.is_none(),
    }
}

fn status_eq(a: Option<DaemonRunStatus>, b: Option<DaemonRunStatus>) -> (r: bool)
    ensures
        r == (a == b),
{
    match (a, b) {
        (Some(x), Some(y)) => x == y,
        (None, None) => true,
        _ => false,
    }
}

pub fn records_equal(a: &DaemonRunRecord, b: &DaemonRunRecord) -> (r: bool)
    ensures
        r == same_record(*a, *b),
{
    let s = &a.binding;
    let t = &b.binding;
    let snapshots = s.binding_id == t.binding_id && s.daemon_id == t.daemon_id && s.agent_pubkey
        == t.agent_pubkey && s.relay_url == t.relay_url && s.channel_id == t.channel_id
        && s.context_configured == t.context_configured && s.schedule_enabled
        == t.schedule_enabled;
    a.run_id == b.run_id && a.binding_id == b.binding_id && a.daemon_id == b.daemon_id
        && opt_text_eq(&a.package_hash, &b.package_hash) && opt_text_eq(
        &a.policy_hash,
        &b.policy_hash,
    ) && a.fingerprint == b.fingerprint && a.wake_hash == b.wake_hash && snapshots && a.trigger
        == b.trigger && opt_text_eq(&a.scheduled_for_utc, &b.scheduled_for_utc) && a.lifecycle
        == b.lifecycle && status_eq(a.status, b.status) && a.reserved_at == b.reserved_at
        && opt_text_eq(&a.started_at, &b.started_at) && opt_text_eq(
        &a.publishing_at,
        &b.publishing_at,
    ) && opt_text_eq(&a.completed_at, &b.completed_at) && opt_text_eq(
        &a.acp_session_id,
        &b.acp_session_id,
    ) && opt_text_eq(&a.output_event_id, &b.output_event_id) && opt_text_eq(
        &a.diagnostic,
        &b.diagnostic,
    )
}

// ------------------------------------------------------------------ the write guard

/// Whether a record may be written over what is stored: a terminal record only
/// by the same content, and never with another fingerprint.
pub open spec fn write_error(existing: Option<DaemonRunRecord>, record: DaemonRunRecord) -> Option<
    Seq<char>,
> {
    match existing {
        None => None,
        Some(e) => if e.lifecycle == DaemonRunLifecycle::Terminal && !same_record(e, record) {
            Some("terminal daemon run receipts are immutable"@)
        } else if e.fingerprint@ != record.fingerprint@ {
            Some("daemon run immutable fingerprint changed"@)
        } else {
            None
        },
    }
}

/// The guard applied before a run record is written where `existing` is stored.
pub fn check_run_write(existing: &Option<DaemonRunRecord>, record: &DaemonRunRecord) -> (r: Result<
    (),
    String,
>)
    ensures
        r is Ok <==> write_error(*existing, *record) is None,
        r matches Err(e) ==> write_error(*existing, *record) == Some(e@),
{
    match existing {
        None => Ok(()),
        Some(e) => {
            if e.lifecycle == DaemonRunLifecycle::Terminal && !records_equal(e, record) {
                return Err("terminal daemon run receipts are immutable".to_string());
            }
            if e.fingerprint != record.fingerprint {
                return Err("daemon run immutable fingerprint changed".to_string());
            }
            Ok(())
        },
    }
}

// ------------------------------------------------------------------ reservation

/// What a reservation does, given what is stored under the run ID.
#[derive(Debug, Clone, Copy, PartialEq, Eq, Structural)]
pub enum ReservationOutcome {
    /// Nothing stored and the binding idle: a new reserved record.
    Fresh,
    /// Nothing stored but the binding already has an active run.
    BindingBusy,
    /// Stored record with another fingerprint: refused.
    Conflict,
    /// Same request already terminal: its receipt is returned.
    ReturnTerminal,
    /// Same request publishing: its record is returned for reconciliation.
    ReturnPublishing,
    /// Same request reserved or running: refused.
    InProgress,
}

pub open spec fn reservation_outcome(
    existing: Option<DaemonRunRecord>,
    fingerprint: Seq<char>,
    binding_busy: bool,
) -> ReservationOutcome {
    match existing {
        None => if binding_busy {
            ReservationOutcome::BindingBusy
        } else {
            ReservationOutcome::Fresh
        },
        Some(e) => if e.fingerprint@ != fingerprint {
            ReservationOutcome::Conflict
        } else if e.lifecycle == DaemonRunLifecycle::Terminal {
            ReservationOutcome::ReturnTerminal
        } else if e.lifecycle == DaemonRunLifecycle::Publishing {
            ReservationOutcome::ReturnPublishing
        } else {
            ReservationOutcome::InProgress
        },
    }
}

#[derive(Debug)]
pub enum Reservation {
    New(DaemonRunRecord),
    ExistingTerminal(DaemonRunRecord),
    ExistingPublishing(DaemonRunRecord),
}

/// The fingerprint of a run request against a binding.
pub open spec fn request_fingerprint(
    binding: DaemonBinding,
    package_hash: Seq<char>,
    wake_instruction: Seq<char>,
    trigger: DaemonRunTrigger,
    scheduled_for: Option<Seq<char>>,
) -> Seq<char> {
    run_fingerprint(
        snapshot_of(binding),
        package_hash,
        text_sha256_hex(wake_instruction),
        trigger,
        scheduled_for,
    )
}

/// A freshly reserved record for the request.
pub open spec fn fresh_reservation(
    rec: DaemonRunRecord,
    run_id: Seq<char>,
    binding: DaemonBinding,
    package_hash: Seq<char>,
    wake_instruction: Seq<char>,
    trigger: DaemonRunTrigger,
    scheduled_for: Option<Seq<char>>,
    reserved_at: String,
) -> bool {
    &&& rec.run_id@ == run_id
    &&& rec.binding_id@ == binding.id@
    &&& rec.daemon_id@ == binding.daemon_id@
    &&& opt_text(rec.package_hash) == Some(package_hash)
    &&& opt_text(rec.policy_hash) == Some(package_hash)
    &&& rec.fingerprint@ == request_fingerprint(
        binding,
        package_hash,
        wake_instruction,
        trigger,
        scheduled_for,
    )
    &&& rec.wake_hash@ == text_sha256_hex(wake_instruction)
    &&& rec.binding == snapshot_of(binding)
    &&& rec.trigger == trigger
    &&& opt_text(rec.scheduled_for_utc) == scheduled_for
    &&& rec.lifecycle == DaemonRunLifecycle::Reserved
    &&& rec.status is None
    &&& rec.reserved_at == reserved_at
    &&& rec.started_at is None
    &&& rec.publishing_at is None
    &&& rec.completed_at is None
    &&& rec.acp_session_id is None
    &&& rec.output_event_id is None
    &&& rec.diagnostic is None
}

fn opt_copy(s: Option<&str>) -> (r: Option<String>)
    ensures
        opt_text(r) == s.deep_view(),
{
    match s {
        Some(x) => Some(copy_str(x)),
        None => None,
    }
}

/// Reserves a run, given the record stored under `run_id` (if any) and whether
/// the binding already has another active run.
pub fn reserve_run(
    existing: Option<DaemonRunRecord>,
    binding_busy: bool,
    run_id: &str,
    binding: &DaemonBinding,
    package_hash: &str,
    wake_instruction: &str,
    trigger: DaemonRunTrigger,
    scheduled_for_utc: Option<&str>,
    reserved_at: String,
) -> (r: Result<Reservation, String>)
    ensures
        ({
            let fp = request_fingerprint(
                *binding,
                package_hash@,
                wake_instruction@,
                trigger,
                scheduled_for_utc.deep_view(),
            );
            match reservation_outcome(existing, fp, binding_busy) {
                ReservationOutcome::Fresh => r matches Ok(Reservation::New(rec)) && fresh_reservation(
                    rec,
                    run_id@,
                    *binding,
                    package_hash@,
                    wake_instruction@,
                    trigger,
                    scheduled_for_utc.deep_view(),
                    reserved_at,
                ),
                ReservationOutcome::BindingBusy => r matches Err(e) && e@
                    == "daemon binding already has an active run"@,
                ReservationOutcome::Conflict => r matches Err(e) && e@
                    == "run UUID conflicts with a different immutable daemon request"@,
                ReservationOutcome::ReturnTerminal => r matches Ok(Reservation::ExistingTerminal(rec))
                    && Some(rec) == existing,
                ReservationOutcome::ReturnPublishing => r matches Ok(
                    Reservation::ExistingPublishing(rec),
                ) && Some(rec) == existing,
                ReservationOutcome::InProgress => r matches Err(e) && e@
                    == "matching daemon run is already reserved or in progress"@,
            }
        }),
        existing is None && binding_busy ==> (r matches Err(e) && e@
            == "daemon binding already has an active run"@),
        r matches Ok(Reservation::New(_)) ==> existing is None && !binding_busy,
{
    if existing.is_none() && binding_busy {
        return Err("daemon binding already has an active run".to_string());
    }
    let wake_hash = text_sha256(wake_instruction);
    let snapshot = DaemonBindingSnapshot::from(binding);
    let fingerprint = immutable_fingerprint(
        &snapshot,
        package_hash,
        wake_hash.as_str(),
        trigger,
        scheduled_for_utc,
    );
    match existing {
        Some(e) => {
            if e.fingerprint != fingerprint {
                return Err(
                    "run UUID conflicts with a different immutable daemon request".to_string(),
                );
            }
            if e.lifecycle == DaemonRunLifecycle::Terminal {
                return Ok(Reservation::ExistingTerminal(e));
            }
            if e.lifecycle == DaemonRunLifecycle::Publishing {
                return Ok(Reservation::ExistingPublishing(e));
            }
            Err("matching daemon run is already reserved or in progress".to_string())
        },
        None => {
            let record = DaemonRunRecord {
                run_id: copy_str(run_id),
                binding_id: binding.id.clone(),
                daemon_id: binding.daemon_id.clone(),
                package_hash: Some(copy_str(package_hash)),
                policy_hash: Some(copy_str(package_hash)),
                fingerprint,
                wake_hash,
                binding: snapshot,
                trigger,
                scheduled_for_utc: opt_copy(scheduled_for_utc),
                lifecycle: DaemonRunLifecycle::Reserved,
                status: None,
                reserved_at,
                started_at: None,
                publishing_at: None,
                completed_at: None,
                acp_session_id: None,
                output_event_id: None,
                diagnostic: None,
            };
            Ok(Reservation::New(record))
        },
    }
}

// ------------------------------------------------------------------ lifecycle

pub open spec fn lifecycle_name(l: DaemonRunLifecycle) -> Seq<char> {
    match l {
        DaemonRunLifecycle::Reserved => "Reserved"@,
        DaemonRunLifecycle::Running => "Running"@,
        DaemonRunLifecycle::Publishing => "Publishing"@,
        DaemonRunLifecycle::Terminal => "Terminal"@,
    }
}

fn lifecycle_text(l: DaemonRunLifecycle) -> (r: &'static str)
    ensures
        r@ == lifecycle_name(l),
{
    match l {
        DaemonRunLifecycle::Reserved => "Reserved",
        DaemonRunLifecycle::Running => "Running",
        DaemonRunLifecycle::Publishing => "Publishing",
        DaemonRunLifecycle::Terminal => "Terminal",
    }
}

pub open spec fn transition_error(from: DaemonRunLifecycle, expected: DaemonRunLifecycle) -> Seq<
    char,
> {
    "invalid daemon run lifecycle transition from "@ + lifecycle_name(from) + "; expected "@
        + lifecycle_name(expected)
}

/// Refuses a record whose lifecycle is not `expected`.
pub fn require_lifecycle(record: &DaemonRunRecord, expected: DaemonRunLifecycle) -> (r: Result<
    (),
    String,
>)
    ensures
        r is Ok <==> record.lifecycle == expected,
        r matches Err(e) ==> e@ == transition_error(record.lifecycle, expected),
{
    if record.lifecycle != expected {
        let mut e = cat(
            "invalid daemon run lifecycle transition from ",
            lifecycle_text(record.lifecycle),
        );
        e.append("; expected ");
        e.append(lifecycle_text(expected));
        return Err(e);
    }
    Ok(())
}

/// A reserved run starts: lifecycle `Running`, `started_at` set.
pub fn mark_run_running(record: &mut DaemonRunRecord, now: String) -> (r: Result<(), String>)
    ensures
        r is Ok <==> old(record).lifecycle == DaemonRunLifecycle::Reserved,
        r matches Err(e) ==> e@ == transition_error(
            old(record).lifecycle,
            DaemonRunLifecycle::Reserved,
        ) && *final(record) == *old(record),
        r is Ok ==> *final(record) == (DaemonRunRecord {
            lifecycle: DaemonRunLifecycle::Running,
            started_at: Some(now),
            ..*old(record)
        }),
{
    require_lifecycle(record, DaemonRunLifecycle::Reserved)?;
    record.lifecycle = DaemonRunLifecycle::Running;
    record.started_at = Some(now);
    Ok(())
}

/// A running run reports output to publish: lifecycle `Publishing`.
pub fn mark_run_publishing(
    record: &mut DaemonRunRecord,
    acp_session_id: Option<String>,
    now: String,
) -> (r: Result<(), String>)
    ensures
        r is Ok <==> old(record).lifecycle == DaemonRunLifecycle::Running,
        r matches Err(e) ==> e@ == transition_error(
            old(record).lifecycle,
            DaemonRunLifecycle::Running,
        ) && *final(record) == *old(record),
        r is Ok ==> *final(record) == (DaemonRunRecord {
            lifecycle: DaemonRunLifecycle::Publishing,
            publishing_at: Some(now),
            acp_session_id: acp_session_id,
            diagnostic: final(record).diagnostic,
            ..*old(record)
        }) && opt_text(final(record).diagnostic) == Some(
            "publication pending marker reconciliation"@,
        ),
{
    require_lifecycle(record, DaemonRunLifecycle::Running)?;
    record.lifecycle = DaemonRunLifecycle::Publishing;
    record.publishing_at = Some(now);
    record.acp_session_id = acp_session_id;
    record.diagnostic = Some("publication pending marker reconciliation".to_string());
    Ok(())
}

/// A published run becomes a terminal success carrying its output event.
pub fn finalize_run(record: &mut DaemonRunRecord, output_event_id: String, now: String) -> (r:
    Result<(), String>)
    ensures
        r is Ok <==> old(record).lifecycle == DaemonRunLifecycle::Publishing,
        r matches Err(e) ==> e@ == transition_error(
            old(record).lifecycle,
            DaemonRunLifecycle::Publishing,
        ) && *final(record) == *old(record),
        r is Ok ==> *final(record) == (DaemonRunRecord {
            lifecycle: DaemonRunLifecycle::Terminal,
            status: Some(DaemonRunStatus::Succeeded),
            output_event_id: Some(output_event_id),
            completed_at: Some(now),
            diagnostic: None,
            ..*old(record)
        }),
{
    require_lifecycle(record, DaemonRunLifecycle::Publishing)?;
    record.lifecycle = DaemonRunLifecycle::Terminal;
    record.status = Some(DaemonRunStatus::Succeeded);
    record.output_event_id = Some(output_event_id);
    record.completed_at = Some(now);
    record.diagnostic = None;
    Ok(())
}

pub open spec fn terminalize_error(l: DaemonRunLifecycle) -> Option<Seq<char>> {
    if l == DaemonRunLifecycle::Terminal {
        Some("terminal daemon run receipts are immutable"@)
    } else if l == DaemonRunLifecycle::Publishing {
        Some("publishing daemon runs require marker reconciliation before terminalization"@)
    } else {
        None
    }
}

pub open spec fn opt_diagnostic(d: Option<&str>) -> Option<Seq<char>> {
    match d {
        Some(x) => Some(take_chars_seq(x@, 512)),
        None => None,
    }
}

/// A reserved or running run ends without publication (failure, cancellation, no-op).
pub fn terminalize_run(
    record: &mut DaemonRunRecord,
    status: DaemonRunStatus,
    acp_session_id: Option<String>,
    diagnostic: Option<&str>,
    now: String,
) -> (r: Result<(), String>)
    ensures
        r is Ok <==> terminalize_error(old(record).lifecycle) is None,
        r matches Err(e) ==> terminalize_error(old(record).lifecycle) == Some(e@) && *final(record)
            == *old(record),
        r is Ok ==> *final(record) == (DaemonRunRecord {
            lifecycle: DaemonRunLifecycle::Terminal,
            status: Some(status),
            acp_session_id: acp_session_id,
            completed_at: Some(now),
            diagnostic: final(record).diagnostic,
            ..*old(record)
        }) && opt_text(final(record).diagnostic) == opt_diagnostic(diagnostic),
{
    if record.lifecycle == DaemonRunLifecycle::Terminal {
        return Err("terminal daemon run receipts are immutable".to_string());
    }
    if record.lifecycle == DaemonRunLifecycle::Publishing {
        return Err(
            "publishing daemon runs require marker reconciliation before terminalization".to_string(),
        );
    }
    record.lifecycle = DaemonRunLifecycle::Terminal;
    record.status = Some(status);
    record.acp_session_id = acp_session_id;
    record.completed_at = Some(now);
    record.diagnostic = match diagnostic {
        Some(d) => Some(safe_diagnostic(d)),
        None => None,
    };
    Ok(())
}

/// A run left reserved or running (by a crash or restart) becomes a terminal
/// `Interrupted` receipt; any other record is left as it is. Answers whether it changed.
pub fn recover_interrupted_run(record: &mut DaemonRunRecord, now: String) -> (r: bool)
    ensures
        r == (old(record).lifecycle == DaemonRunLifecycle::Reserved || old(record).lifecycle
            == DaemonRunLifecycle::Running),
        !r ==> *final(record) == *old(record),
        r ==> *final(record) == (DaemonRunRecord {
            lifecycle: DaemonRunLifecycle::Terminal,
            status: Some(DaemonRunStatus::Interrupted),
            completed_at: Some(now),
            diagnostic: final(record).diagnostic,
            ..*old(record)
        }) && opt_text(final(record).diagnostic) == Some(
            "daemon run was interrupted before completion"@,
        ),
{
    if record.lifecycle == DaemonRunLifecycle::Reserved || record.lifecycle
        == DaemonRunLifecycle::Running {
        record.lifecycle = DaemonRunLifecycle::Terminal;
        record.status = Some(DaemonRunStatus::Interrupted);
        record.completed_at = Some(now);
        record.diagnostic = Some("daemon run was interrupted before completion".to_string());
        true
    } else {
        false
    }
}

/// Whether some record of `binding_id` is not yet terminal.
pub fn binding_has_active_run(records: &Vec<DaemonRunRecord>, binding_id: &str) -> (r: bool)
    ensures
        r == exists|i: int|
            0 <= i < records@.len() && (#[trigger] records@[i]).binding_id@ == binding_id@
                && records@[i].lifecycle != DaemonRunLifecycle::Terminal,
{
    let target = copy_str(binding_id);
    let mut i: usize = 0;
    while i < records.len()
        invariant
            0 <= i <= records.len(),
            target@ == binding_id@,
            forall|k: int|
                0 <= k < i ==> !((#[trigger] records@[k]).binding_id@ == binding_id@
                    && records@[k].lifecycle != DaemonRunLifecycle::Terminal),
        decreases records.len() - i,
    {
        if records[i].binding_id == target && records[i].lifecycle != DaemonRunLifecycle::Terminal {
            return true;
        }
        i = i + 1;
    }
    false
}

// ------------------------------------------------------------------ scheduler receipts

/// The wake text that stands for a scheduled occurrence in its receipt's fingerprint.
pub open spec fn scheduled_wake(scheduled_for: Seq<char>) -> Seq<char> {
    "Scheduled daemon occurrence at "@ + scheduled_for
}

pub open spec fn receipt_package_hash(package_hash: Option<&str>) -> Seq<char> {
    match package_hash {
        Some(h) => h@,
        None => "unavailable"@,
    }
}

/// The fingerprint of the receipt of one scheduled occurrence.
pub open spec fn receipt_fingerprint(
    binding: DaemonBinding,
    package_hash: Seq<char>,
    scheduled_for: Seq<char>,
) -> Seq<char> {
    request_fingerprint(
        binding,
        package_hash,
        scheduled_wake(scheduled_for),
        DaemonRunTrigger::Schedule,
        Some(scheduled_for),
    )
}

/// A terminal scheduler receipt for an occurrence, made at `now`.
pub open spec fn fresh_receipt(
    rec: DaemonRunRecord,
    run_id: Seq<char>,
    binding: DaemonBinding,
    package_hash: Seq<char>,
    scheduled_for: Seq<char>,
    status: DaemonRunStatus,
    diagnostic: Seq<char>,
    now: Seq<char>,
) -> bool {
    &&& rec.run_id@ == run_id
    &&& rec.binding_id@ == binding.id@
    &&& rec.daemon_id@ == binding.daemon_id@
    &&& opt_text(rec.package_hash) == Some(package_hash)
    &&& opt_text(rec.policy_hash) == Some(package_hash)
    &&& rec.fingerprint@ == receipt_fingerprint(binding, package_hash, scheduled_for)
    &&& rec.wake_hash@ == text_sha256_hex(scheduled_wake(scheduled_for))
    &&& rec.binding == snapshot_of(binding)
    &&& rec.trigger == DaemonRunTrigger::Schedule
    &&& opt_text(rec.scheduled_for_utc) == Some(scheduled_for)
    &&& rec.lifecycle == DaemonRunLifecycle::Terminal
    &&& rec.status == Some(status)
    &&& rec.reserved_at@ == now
    &&& rec.started_at is None
    &&& rec.publishing_at is None
    &&& opt_text(rec.completed_at) == Some(now)
    &&& rec.acp_session_id is None
    &&& rec.output_event_id is None
    &&& opt_text(rec.diagnostic) == Some(take_chars_seq(diagnostic, 512))
}

/// Records the terminal receipt of a scheduled occurrence that did not run
/// (missed, skipped). An identical stored receipt is returned as it is
/// (`false`: nothing to write); a receipt of another occurrence under the same
/// run ID is refused; otherwise the new receipt is returned (`true`: write it).
pub fn scheduler_receipt(
    existing: Option<DaemonRunRecord>,
    run_id: &str,
    binding: &DaemonBinding,
    package_hash: Option<&str>,
    scheduled_for_utc: &str,
    status: DaemonRunStatus,
    diagnostic: &str,
    now: String,
) -> (r: Result<(DaemonRunRecord, bool), String>)
    ensures
        ({
            let fp = receipt_fingerprint(
                *binding,
                receipt_package_hash(package_hash),
                scheduled_for_utc@,
            );
            match existing {
                Some(e) => if e.fingerprint@ == fp {
                    r == Ok::<(DaemonRunRecord, bool), String>((e, false))
                } else {
                    r matches Err(msg) && msg@
                        == "scheduler receipt UUID conflicts with another occurrence"@
                },
                None => r matches Ok((rec, true)) && fresh_receipt(
                    rec,
                    run_id@,
                    *binding,
                    receipt_package_hash(package_hash),
                    scheduled_for_utc@,
                    status,
                    diagnostic@,
                    now@,
                ),
            }
        }),
{
    let package_hash = match package_hash {
        Some(h) => h,
        None => "unavailable",
    };
    let wake = cat("Scheduled daemon occurrence at ", scheduled_for_utc);
    let wake_hash = text_sha256(wake.as_str());
    let snapshot = DaemonBindingSnapshot::from(binding);
    let fingerprint = immutable_fingerprint(
        &snapshot,
        package_hash,
        wake_hash.as_str(),
        DaemonRunTrigger::Schedule,
        Some(scheduled_for_utc),
    );
    if let Some(e) = existing {
        if e.fingerprint == fingerprint {
            return Ok((e, false));
        }
        return Err("scheduler receipt UUID conflicts with another occurrence".to_string());
    }
    let completed = now.clone();
    let record = DaemonRunRecord {
        run_id: copy_str(run_id),
        binding_id: binding.id.clone(),
        daemon_id: binding.daemon_id.clone(),
        package_hash: Some(copy_str(package_hash)),
        policy_hash: Some(copy_str(package_hash)),
        fingerprint,
        wake_hash,
        binding: snapshot,
        trigger: DaemonRunTrigger::Schedule,
        scheduled_for_utc: Some(copy_str(scheduled_for_utc)),
        lifecycle: DaemonRunLifecycle::Terminal,
        status: Some(status),
        reserved_at: now,
        started_at: None,
        publishing_at: None,
        completed_at: Some(completed),
        acp_session_id: None,
        output_event_id: None,
        diagnostic: Some(safe_diagnostic(diagnostic)),
    };
    Ok((record, true))
}

// ------------------------------------------------------------------ reconciliation

/// Settles a publishing run once its output event is found: a terminal record
/// with that same event is returned as it is (`false`); any other terminal
/// record refuses; a publishing record is finalized (`true`: write it).
pub fn reconcile_publishing_success(
    record: Option<DaemonRunRecord>,
    event_id: String,
    now: String,
) -> (r: Result<(DaemonRunRecord, bool), String>)
    ensures
        record is None ==> (r matches Err(e) && e@ == "daemon run history not found"@),
        record matches Some(rec) ==> {
            if rec.lifecycle == DaemonRunLifecycle::Terminal {
                if opt_text(rec.output_event_id) == Some(event_id@) {
                    r == Ok::<(DaemonRunRecord, bool), String>((rec, false))
                } else {
                    r matches Err(e) && e@ == "terminal daemon run receipt is immutable"@
                }
            } else if rec.lifecycle == DaemonRunLifecycle::Publishing {
                r == Ok::<(DaemonRunRecord, bool), String>(
                    (
                        DaemonRunRecord {
                            lifecycle: DaemonRunLifecycle::Terminal,
                            status: Some(DaemonRunStatus::Succeeded),
                            output_event_id: Some(event_id),
                            completed_at: Some(now),
                            diagnostic: None,
                            ..rec
                        },
                        true,
                    ),
                )
            } else {
                r matches Err(e) && e@ == transition_error(
                    rec.lifecycle,
                    DaemonRunLifecycle::Publishing,
                )
            }
        },
{
    let mut record = match record {
        Some(rec) => rec,
        None => return Err("daemon run history not found".to_string()),
    };
    if record.lifecycle == DaemonRunLifecycle::Terminal {
        let same = match &record.output_event_id {
            Some(existing) => *existing == event_id,
            None => false,
        };
        if same {
            return Ok((record, false));
        }
        return Err("terminal daemon run receipt is immutable".to_string());
    }
    finalize_run(&mut record, event_id, now)?;
    Ok((record, true))
}

} // verus!
