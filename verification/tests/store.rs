use std::path::{Path, PathBuf};

use buzz_daemon::bindings::{
    add_binding, bindings_blocking_package_delete, commit_binding_update, delete_binding_record,
    ensure_binding_id_available, ensure_primary_binding_available, relays_match,
    select_binding_agent, ManagedAgentRef,
};
use buzz_daemon::history::{legacy_history_record, prune_history_plan, LegacyReceiptFields, PruneCandidate};
use buzz_daemon::runs::{
    check_run_write, finalize_run, mark_run_publishing, mark_run_running, recover_interrupted_run,
    reconcile_publishing_success, reserve_run, scheduler_receipt, terminalize_run, Reservation,
};
use buzz_daemon::types::{DaemonBinding, DaemonRunLifecycle, DaemonRunRecord, DaemonRunStatus, DaemonRunTrigger};

fn binding() -> DaemonBinding {
    let now = "2026-07-24T00:00:00Z".to_string();
    DaemonBinding {
        id: uuid::Uuid::new_v4().to_string(),
        daemon_id: "safe".into(),
        agent_pubkey: "aa".repeat(32),
        relay_url: "wss://relay.example".into(),
        channel_id: uuid::Uuid::new_v4().to_string(),
        context_directory: None,
        context_configured: false,
        schedule_enabled: false,
        created_at: now.clone(),
        updated_at: now,
    }
}

/// A run record stored at one path: the write guard runs before each write.
struct RunSlot {
    stored: Option<DaemonRunRecord>,
}

impl RunSlot {
    fn write(&mut self, record: &DaemonRunRecord) -> Result<(), String> {
        check_run_write(&self.stored, record)?;
        self.stored = Some(record.clone());
        Ok(())
    }

    fn reserve(&mut self, run_id: &str, binding: &DaemonBinding, hash: &str, wake: &str) -> Result<Reservation, String> {
        let reservation = reserve_run(
            self.stored.clone(),
            false,
            run_id,
            binding,
            hash,
            wake,
            DaemonRunTrigger::Manual,
            None,
            "2026-07-24T00:00:00Z".into(),
        )?;
        if let Reservation::New(record) = &reservation {
            self.write(record)?;
        }
        Ok(reservation)
    }
}

#[test]
fn primary_binding_rejects_duplicate_daemon_but_allows_self_update() {
    let existing = binding();
    let error = ensure_primary_binding_available(
        &vec![existing.clone()],
        &existing.daemon_id,
        None,
    )
    .unwrap_err();
    assert!(error.contains("already has primary binding"));
    assert!(error.contains("update or delete"));
    assert!(ensure_primary_binding_available(
        &vec![existing.clone()],
        &existing.daemon_id,
        Some(&existing.id),
    )
    .is_ok());
}

#[test]
fn binding_deletion_refuses_legacy_duplicate_ids_without_deleting_anything() {
    let first = binding();
    let mut duplicate = first.clone();
    duplicate.daemon_id = "legacy-duplicate".into();
    let mut bindings = vec![first.clone(), duplicate];
    let error = delete_binding_record(&mut bindings, &first.id).unwrap_err();
    assert!(error.contains("2 records"));
    assert!(error.contains("no records were deleted"));
    assert_eq!(bindings.len(), 2);

    bindings[1].id = uuid::Uuid::new_v4().to_string();
    delete_binding_record(&mut bindings, &first.id).unwrap();
    assert_eq!(bindings.len(), 1);
}

#[test]
fn durable_run_reservation_is_idempotent_and_conflict_safe() {
    let mut slot = RunSlot { stored: None };
    let binding = binding();
    let run_id = uuid::Uuid::new_v4().to_string();
    let Reservation::New(mut record) = slot.reserve(&run_id, &binding, "package-hash", "safe wake").unwrap() else {
        panic!("expected new reservation")
    };
    record.lifecycle = DaemonRunLifecycle::Terminal;
    record.status = Some(DaemonRunStatus::Succeeded);
    record.completed_at = Some("2026-07-24T00:01:00Z".into());
    slot.write(&record).unwrap();
    assert!(matches!(
        slot.reserve(&run_id, &binding, "package-hash", "safe wake").unwrap(),
        Reservation::ExistingTerminal(_)
    ));
    assert!(slot.reserve(&run_id, &binding, "different-hash", "safe wake").unwrap_err().contains("conflicts"));
}

#[test]
fn terminal_receipts_are_immutable_and_publishing_is_recoverable() {
    let mut slot = RunSlot { stored: None };
    let binding = binding();
    let run_id = uuid::Uuid::new_v4().to_string();
    let Reservation::New(mut record) = slot.reserve(&run_id, &binding, "package-hash", "wake").unwrap() else {
        panic!("expected new reservation")
    };
    record.lifecycle = DaemonRunLifecycle::Publishing;
    record.publishing_at = Some("2026-07-24T00:01:00Z".into());
    slot.write(&record).unwrap();
    assert_eq!(slot.stored.as_ref().unwrap().lifecycle, DaemonRunLifecycle::Publishing);
    record.lifecycle = DaemonRunLifecycle::Terminal;
    record.status = Some(DaemonRunStatus::Succeeded);
    record.output_event_id = Some("event-1".into());
    record.completed_at = Some("2026-07-24T00:02:00Z".into());
    slot.write(&record).unwrap();
    let mut overwritten = record.clone();
    overwritten.output_event_id = Some("event-2".into());
    assert!(slot.write(&overwritten).unwrap_err().contains("immutable"));
}

#[test]
fn schedule_disabled_does_not_disable_manual_trigger_shape() {
    let binding = binding();
    assert!(!binding.schedule_enabled);
    assert_eq!(DaemonRunTrigger::Manual, DaemonRunTrigger::default());
}

#[test]
fn package_paths_are_portable_slash_relative() {
    let path = PathBuf::from("scripts").join("lint.sh");
    assert!(!path.is_absolute());
    assert_eq!(path.components().count(), 2);
    assert_ne!(path, Path::new("DAEMON.md"));
}

fn reserved() -> DaemonRunRecord {
    let Reservation::New(record) = reserve_run(
        None,
        false,
        "run",
        &binding(),
        "hash",
        "wake",
        DaemonRunTrigger::Manual,
        None,
        "t0".into(),
    )
    .unwrap() else {
        panic!("expected new reservation")
    };
    record
}

#[test]
fn lifecycle_moves_forward_only() {
    let mut record = reserved();
    assert_eq!(record.lifecycle, DaemonRunLifecycle::Reserved);
    assert_eq!(record.package_hash.as_deref(), Some("hash"));
    assert_eq!(record.fingerprint.len(), 64);
    assert!(mark_run_publishing(&mut record, None, "t".into()).unwrap_err().contains("expected Running"));
    mark_run_running(&mut record, "t1".into()).unwrap();
    assert_eq!(record.started_at.as_deref(), Some("t1"));
    mark_run_publishing(&mut record, Some("s".into()), "t2".into()).unwrap();
    assert_eq!(record.diagnostic.as_deref(), Some("publication pending marker reconciliation"));
    assert_eq!(
        terminalize_run(&mut record, DaemonRunStatus::Failed, None, None, "t".into()).unwrap_err(),
        "publishing daemon runs require marker reconciliation before terminalization"
    );
    finalize_run(&mut record, "event".into(), "t3".into()).unwrap();
    assert_eq!(record.status, Some(DaemonRunStatus::Succeeded));
    assert!(record.diagnostic.is_none());
    let before = record.clone();
    assert!(mark_run_running(&mut record, "t".into()).is_err());
    assert_eq!(
        terminalize_run(&mut record, DaemonRunStatus::Failed, None, None, "t".into()).unwrap_err(),
        "terminal daemon run receipts are immutable"
    );
    assert!(!recover_interrupted_run(&mut record, "t".into()));
    assert_eq!(record, before);
}

#[test]
fn interrupted_runs_become_terminal_and_publishing_reconciles_once() {
    let mut record = reserved();
    assert!(recover_interrupted_run(&mut record, "t".into()));
    assert_eq!(record.status, Some(DaemonRunStatus::Interrupted));
    assert_eq!(record.diagnostic.as_deref(), Some("daemon run was interrupted before completion"));

    let mut publishing = reserved();
    mark_run_running(&mut publishing, "t1".into()).unwrap();
    mark_run_publishing(&mut publishing, None, "t2".into()).unwrap();
    let (done, changed) = reconcile_publishing_success(Some(publishing), "event".into(), "t3".into()).unwrap();
    assert!(changed);
    assert_eq!(done.lifecycle, DaemonRunLifecycle::Terminal);
    let (same, changed) = reconcile_publishing_success(Some(done.clone()), "event".into(), "t4".into()).unwrap();
    assert!(!changed);
    assert_eq!(same, done);
    assert_eq!(
        reconcile_publishing_success(Some(done), "other".into(), "t4".into()).unwrap_err(),
        "terminal daemon run receipt is immutable"
    );
    assert_eq!(
        reconcile_publishing_success(None, "e".into(), "t".into()).unwrap_err(),
        "daemon run history not found"
    );
}

#[test]
fn terminalize_cuts_diagnostics_and_keeps_no_op_without_publication() {
    let mut record = reserved();
    let long = "d".repeat(700);
    terminalize_run(&mut record, DaemonRunStatus::NoOp, Some("session-1".into()), Some(&long), "t".into()).unwrap();
    assert_eq!(record.status, Some(DaemonRunStatus::NoOp));
    assert_eq!(record.acp_session_id.as_deref(), Some("session-1"));
    assert_eq!(record.diagnostic.unwrap().len(), 512);
    assert!(record.output_event_id.is_none());
    assert!(record.publishing_at.is_none());
}

#[test]
fn scheduler_receipts_are_idempotent_per_occurrence() {
    let b = binding();
    let (receipt, created) = scheduler_receipt(
        None, "run", &b, Some("hash"), "2026-07-24T21:00:00Z", DaemonRunStatus::Missed, "missed", "t".into(),
    )
    .unwrap();
    assert!(created);
    assert_eq!(receipt.lifecycle, DaemonRunLifecycle::Terminal);
    assert_eq!(receipt.trigger, DaemonRunTrigger::Schedule);
    let (again, created) = scheduler_receipt(
        Some(receipt.clone()), "run", &b, Some("hash"), "2026-07-24T21:00:00Z", DaemonRunStatus::Missed, "missed", "t2".into(),
    )
    .unwrap();
    assert!(!created);
    assert_eq!(again, receipt);
    assert_eq!(
        scheduler_receipt(Some(receipt), "run", &b, Some("hash"), "2026-07-24T21:01:00Z", DaemonRunStatus::Missed, "m", "t".into())
            .unwrap_err(),
        "scheduler receipt UUID conflicts with another occurrence"
    );
}

#[test]
fn bindings_keep_one_per_daemon_and_unique_ids() {
    let first = binding();
    let mut bindings = Vec::new();
    add_binding(&mut bindings, first.clone()).unwrap();
    let mut same_daemon = binding();
    same_daemon.daemon_id = first.daemon_id.clone();
    assert!(add_binding(&mut bindings, same_daemon).unwrap_err().contains("already has primary binding"));
    let mut same_id = binding();
    same_id.id = first.id.clone();
    same_id.daemon_id = "other".into();
    assert_eq!(
        ensure_binding_id_available(&bindings, &first.id).unwrap_err(),
        "daemon binding ID already exists; retry creation"
    );
    assert!(add_binding(&mut bindings, same_id).is_err());
    let mut second = binding();
    second.daemon_id = "second".into();
    add_binding(&mut bindings, second.clone()).unwrap();
    assert_eq!(bindings.len(), 2);

    let mut moved = second.clone();
    moved.daemon_id = first.daemon_id.clone();
    assert!(commit_binding_update(&mut bindings, &second, moved).is_err());
    let mut renamed = second.clone();
    renamed.schedule_enabled = true;
    commit_binding_update(&mut bindings, &second, renamed.clone()).unwrap();
    assert_eq!(bindings[1], renamed);
    assert_eq!(
        commit_binding_update(&mut bindings, &second, second.clone()).unwrap_err(),
        "daemon binding changed while validating; reload and retry the update"
    );
}

#[test]
fn binding_commit_reports_missing_and_conflicting_bindings() {
    let first = binding();
    let mut second = binding();
    second.daemon_id = "second".into();
    let mut bindings = vec![first.clone(), second.clone()];
    let stranger = binding();
    assert_eq!(
        commit_binding_update(&mut bindings, &stranger, stranger.clone()).unwrap_err(),
        "daemon binding not found"
    );
    let mut moved = second.clone();
    moved.daemon_id = "safe".into();
    assert_eq!(
        commit_binding_update(&mut bindings, &second, moved).unwrap_err(),
        format!(
            "daemon safe already has primary binding {}; update or delete that binding instead of creating another",
            first.id
        )
    );
    assert_eq!(bindings, vec![first.clone(), second.clone()]);
    let mut renamed = second.clone();
    renamed.daemon_id = "third".into();
    commit_binding_update(&mut bindings, &second, renamed.clone()).unwrap();
    assert_eq!(bindings, vec![first, renamed]);
}

#[test]
fn package_delete_names_blocking_bindings() {
    let a = binding();
    let mut b = binding();
    b.daemon_id = "other".into();
    let bindings = vec![a.clone(), b];
    assert!(bindings_blocking_package_delete(&bindings, "unused").is_ok());
    assert_eq!(
        bindings_blocking_package_delete(&bindings, "safe").unwrap_err(),
        format!("remove all 1 daemon binding record(s) before deleting the package (binding IDs: {})", a.id)
    );
}

#[test]
fn binding_agents_match_key_case_insensitively_and_relay_modulo_slashes() {
    let agents = vec![
        ManagedAgentRef { pubkey: "AB".into(), relay_url: "wss://relay/".into() },
        ManagedAgentRef { pubkey: "cd".into(), relay_url: "wss://other".into() },
    ];
    assert_eq!(select_binding_agent(&agents, "ab", "wss://relay").unwrap(), 0);
    assert_eq!(
        select_binding_agent(&agents, "cd", "wss://relay").unwrap_err(),
        "daemon binding relay must match the selected managed agent relay"
    );
    assert_eq!(select_binding_agent(&agents, "ef", "wss://relay").unwrap_err(), "managed agent not found");
    assert!(relays_match("wss://a///", "wss://a"));
    assert!(!relays_match("wss://a/b", "wss://a"));
}

#[test]
fn legacy_receipts_map_status_and_need_core_fields() {
    let fields = LegacyReceiptFields {
        run_id: Some("r".into()),
        daemon_id: Some("safe".into()),
        status: Some("succeeded".into()),
        started_at: Some("2026-07-24T00:00:00Z".into()),
        completed_at: Some("2026-07-24T00:01:00Z".into()),
        acp_session_id: None,
        output_event_id: Some("event".into()),
        diagnostic: None,
    };
    let legacy = legacy_history_record(fields.clone()).unwrap();
    assert_eq!(legacy.status, DaemonRunStatus::Succeeded);
    assert_eq!(legacy.output_event_id.as_deref(), Some("event"));
    let mut odd = fields.clone();
    odd.status = Some("weird".into());
    assert_eq!(legacy_history_record(odd).unwrap().status, DaemonRunStatus::Failed);
    let mut missing = fields;
    missing.daemon_id = None;
    assert_eq!(legacy_history_record(missing).unwrap_err(), "legacy daemon receipt is missing daemonId");
}

#[test]
fn pruning_evicts_oldest_first_until_within_caps() {
    let candidates: Vec<PruneCandidate> = (0..205)
        .map(|i| PruneCandidate { completed: Some((1_000 + i as i64, 0)), bytes: 10 })
        .collect();
    let plan = prune_history_plan(&candidates, (0, 0));
    assert_eq!(plan.evicted, 5);
    assert_eq!(plan.removals, vec![0, 1, 2, 3, 4]);
    let expired = prune_history_plan(&candidates, (1_010, 0));
    assert_eq!(expired.removals, (0..10).collect::<Vec<usize>>());
    let unknown = vec![
        PruneCandidate { completed: Some((5, 0)), bytes: 3 * 1024 * 1024 },
        PruneCandidate { completed: None, bytes: 3 * 1024 * 1024 },
    ];
    let plan = prune_history_plan(&unknown, (0, 0));
    assert_eq!(plan.removals, vec![1]);
}

#[test]
fn bindings_are_found_by_id() {
    let a = binding();
    let b = binding();
    let bindings = vec![a.clone(), b.clone()];
    assert_eq!(buzz_daemon::bindings::find_binding(&bindings, &b.id), Some(1));
    assert_eq!(buzz_daemon::bindings::find_binding(&bindings, "missing"), None);
}
