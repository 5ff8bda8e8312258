use buzz_daemon::schedule::{
    due_occurrences, occurrence_claim, occurrence_run_id, parse_schedule, plan_binding_tick,
    schedule_hash, schedule_status_for_binding, spawned_run_failure_status, CurrentAction,
    SchedulerStore, MAX_CLAIMS,
};
use buzz_daemon::validation::validate_cron;
use buzz_daemon::types::{
    DaemonBinding, DaemonRunStatus, DaemonScheduleReadiness, DaemonSchedulerDecisionKind,
};

fn at(value: &str) -> i64 {
    chrono::DateTime::parse_from_rfc3339(value).unwrap().timestamp()
}

fn binding(enabled: bool) -> DaemonBinding {
    DaemonBinding {
        id: "b1".into(),
        daemon_id: "safe".into(),
        agent_pubkey: "aa".repeat(32),
        relay_url: "wss://relay.example".into(),
        channel_id: "7c9e6679-7425-40de-944b-e07fc1f90ae7".into(),
        context_directory: None,
        context_configured: false,
        schedule_enabled: enabled,
        created_at: "2026-07-24T00:00:00Z".into(),
        updated_at: "2026-07-24T00:00:00Z".into(),
    }
}

#[test]
fn five_field_schedule_reports_next_utc_occurrence() {
    assert_eq!(parse_schedule("*/15 * * * *").unwrap(), "0 */15 * * * *");
    let status = schedule_status_for_binding(
        &binding(true),
        &SchedulerStore::new(),
        at("2026-07-24T21:01:00Z"),
        Ok(Some("*/15 * * * *".into())),
        Ok(()),
        Ok(()),
    );
    assert_eq!(status.next_occurrence_utc.as_deref(), Some("2026-07-24T21:15:00Z"));
}

#[test]
fn current_minute_executes_without_replaying_backlog() {
    let schedule = parse_schedule("* * * * *").unwrap();
    let due = due_occurrences(&schedule, at("2026-07-24T20:57:00Z"), at("2026-07-24T21:00:00Z"));
    assert_eq!(due.latest_missed, Some(at("2026-07-24T20:59:00Z")));
    assert_eq!(due.current, Some(at("2026-07-24T21:00:00Z")));
}

#[test]
fn downtime_records_only_latest_missed_occurrence() {
    let schedule = parse_schedule("* * * * *").unwrap();
    let due = due_occurrences(&schedule, at("2026-07-24T20:00:00Z"), at("2026-07-24T20:10:30Z"));
    assert_eq!(due.latest_missed, Some(at("2026-07-24T20:10:00Z")));
    assert_eq!(due.current, None);
}

#[test]
fn occurrence_uuid_is_stable_for_restart_dedupe() {
    let occurrence = at("2026-07-24T21:00:00Z");
    let claim = occurrence_claim("binding", "hash", occurrence);
    assert_eq!(occurrence_run_id(&claim), occurrence_run_id(&claim));
}

#[test]
fn claims_and_run_ids_have_their_exact_shape() {
    let claim = occurrence_claim("binding", "hash", at("2026-07-24T21:00:00Z"));
    assert_eq!(claim, "binding:hash:2026-07-24T21:00:00Z");
    let id = occurrence_run_id(&claim);
    let expected = uuid::Uuid::new_v5(
        &uuid::Uuid::from_u128(0x7f4f_9cc2_c315_4a99_994b_15fb_c48e_6081),
        claim.as_bytes(),
    );
    assert_eq!(id, expected.to_string());
    assert_ne!(id, occurrence_run_id("binding:hash:2026-07-24T21:01:00Z"));
    assert_eq!(schedule_hash("* * * * *").len(), 64);
}

#[test]
fn schedule_parsing_needs_exactly_five_fields() {
    assert_eq!(validate_cron("0 1 * *").unwrap_err(), "daemon schedule must contain exactly five cron fields (UTC)");
    assert!(validate_cron("0 1 * * * extra").unwrap_err().contains("exactly five"));
    assert!(validate_cron("*/2 * * * *").is_ok());
    assert!(parse_schedule("61 * * * *").unwrap_err().starts_with("invalid five-field UTC cron schedule: "));
    assert_eq!(parse_schedule("*/2 * * * *").unwrap(), "0 */2 * * * *");
}

#[test]
fn a_tick_runs_the_current_minute_once() {
    let mut store = SchedulerStore::new();
    let now = at("2026-07-24T21:00:00Z");
    let plan = plan_binding_tick(&mut store, &binding(true), now, Ok(Some("* * * * *".into())), Ok(()), false);
    assert!(plan.missed.is_none());
    let current = plan.current.unwrap();
    assert_eq!(current.scheduled_for_utc, "2026-07-24T21:00:00Z");
    match current.action {
        CurrentAction::Start { wake_instruction } => assert_eq!(
            wake_instruction,
            "Run the scheduled daemon occurrence for 2026-07-24T21:00:00Z. This timestamp is UTC."
        ),
        CurrentAction::Receipt { .. } => panic!("expected a start"),
    }
    let cursor = store.cursor("b1").unwrap();
    assert_eq!(cursor.observed_through_utc, "2026-07-24T21:00:00Z");
    assert_eq!(cursor.last_decision.as_ref().unwrap().kind, DaemonSchedulerDecisionKind::Executed);

    let again = plan_binding_tick(&mut store, &binding(true), now, Ok(Some("* * * * *".into())), Ok(()), false);
    assert!(again.missed.is_none());
    assert!(again.current.is_none());
    assert_eq!(
        store.cursor("b1").unwrap().last_decision.as_ref().unwrap().kind,
        DaemonSchedulerDecisionKind::Ready
    );
}

#[test]
fn a_tick_after_downtime_records_one_missed_receipt() {
    let mut store = SchedulerStore::new();
    let b = binding(true);
    let first = at("2026-07-24T20:00:00Z");
    let _ = plan_binding_tick(&mut store, &b, first, Ok(Some("* * * * *".into())), Ok(()), false);
    let later = at("2026-07-24T20:10:30Z");
    let plan = plan_binding_tick(&mut store, &b, later, Ok(Some("* * * * *".into())), Ok(()), true);
    let missed = plan.missed.unwrap();
    assert_eq!(missed.scheduled_for_utc, "2026-07-24T20:10:00Z");
    assert_eq!(missed.status, DaemonRunStatus::Missed);
    assert!(plan.current.is_none());
    assert_eq!(
        store.cursor("b1").unwrap().last_decision.as_ref().unwrap().kind,
        DaemonSchedulerDecisionKind::Missed
    );
}

#[test]
fn busy_or_unready_bindings_get_receipts_not_runs() {
    let now = at("2026-07-24T21:00:00Z");
    let mut store = SchedulerStore::new();
    let plan = plan_binding_tick(&mut store, &binding(true), now, Ok(Some("* * * * *".into())), Ok(()), true);
    match plan.current.unwrap().action {
        CurrentAction::Receipt { status, diagnostic } => {
            assert_eq!(status, DaemonRunStatus::SkippedOverlap);
            assert_eq!(diagnostic, "scheduled occurrence skipped because the binding already had an active run");
        }
        CurrentAction::Start { .. } => panic!("expected a receipt"),
    }
    let mut store = SchedulerStore::new();
    let plan = plan_binding_tick(&mut store, &binding(true), now, Ok(Some("* * * * *".into())), Err(None), false);
    match plan.current.unwrap().action {
        CurrentAction::Receipt { status, diagnostic } => {
            assert_eq!(status, DaemonRunStatus::SkippedUnready);
            assert_eq!(diagnostic, "daemon binding is not ready");
        }
        CurrentAction::Start { .. } => panic!("expected a receipt"),
    }
}

#[test]
fn disabled_watch_only_and_missing_packages_only_move_the_cursor() {
    let now = at("2026-07-24T21:00:00Z");
    let mut store = SchedulerStore::new();
    let plan = plan_binding_tick(&mut store, &binding(false), now, Ok(Some("* * * * *".into())), Ok(()), false);
    assert!(plan.current.is_none() && plan.missed.is_none());
    assert_eq!(store.cursor("b1").unwrap().last_decision.as_ref().unwrap().kind, DaemonSchedulerDecisionKind::Disabled);
    let plan = plan_binding_tick(&mut store, &binding(true), now, Ok(None), Ok(()), false);
    assert!(plan.current.is_none());
    assert_eq!(store.cursor("b1").unwrap().schedule_hash, "watch-only");
    let plan = plan_binding_tick(&mut store, &binding(true), now, Err("gone".into()), Ok(()), false);
    assert!(plan.current.is_none());
    let cursor = store.cursor("b1").unwrap();
    assert_eq!(cursor.schedule_hash, "missing-package");
    assert_eq!(cursor.last_decision.as_ref().unwrap().diagnostic.as_deref(), Some("gone"));
}

#[test]
fn claims_stay_sorted_unique_and_bounded() {
    let mut store = SchedulerStore::new();
    assert!(store.insert_claim("b".into()));
    assert!(store.insert_claim("a".into()));
    assert!(!store.insert_claim("b".into()));
    assert_eq!(store.claims, vec!["a".to_string(), "b".to_string()]);
    for i in 0..(MAX_CLAIMS + 5) {
        store.insert_claim(format!("c{i:05}"));
    }
    store.trim_claims();
    assert_eq!(store.claims.len(), MAX_CLAIMS);
    assert_eq!(store.claims.last().unwrap(), &format!("c{:05}", MAX_CLAIMS + 4));
    let mut sorted = store.claims.clone();
    sorted.sort();
    assert_eq!(sorted, store.claims);
}

#[test]
fn schedule_status_reports_readiness_and_next_occurrence() {
    let store = SchedulerStore::new();
    let now = at("2026-07-24T21:01:30Z");
    let status = schedule_status_for_binding(&binding(true), &store, now, Ok(Some("*/15 * * * *".into())), Ok(()), Ok(()));
    assert_eq!(status.readiness, DaemonScheduleReadiness::Ready);
    assert_eq!(status.next_occurrence_utc.as_deref(), Some("2026-07-24T21:15:00Z"));
    assert_eq!(status.schedule_hash.as_deref(), Some(schedule_hash("*/15 * * * *").as_str()));
    let disabled = schedule_status_for_binding(&binding(false), &store, now, Ok(Some("*/15 * * * *".into())), Ok(()), Ok(()));
    assert_eq!(disabled.readiness, DaemonScheduleReadiness::Disabled);
    let watch = schedule_status_for_binding(&binding(true), &store, now, Ok(None), Ok(()), Ok(()));
    assert_eq!(watch.readiness, DaemonScheduleReadiness::WatchOnly);
    let invalid = schedule_status_for_binding(&binding(true), &store, now, Ok(Some("* *".into())), Ok(()), Ok(()));
    assert_eq!(invalid.readiness, DaemonScheduleReadiness::InvalidSchedule);
    let context = schedule_status_for_binding(&binding(true), &store, now, Ok(Some("* * * * *".into())), Err("gone".into()), Ok(()));
    assert_eq!(context.readiness, DaemonScheduleReadiness::InvalidContext);
    assert_eq!(context.readiness_reason.as_deref(), Some("gone"));
    let agent = schedule_status_for_binding(
        &binding(true),
        &store,
        now,
        Ok(Some("* * * * *".into())),
        Ok(()),
        Err((DaemonScheduleReadiness::AgentNotReady, Some("offline".into()))),
    );
    assert_eq!(agent.readiness, DaemonScheduleReadiness::AgentNotReady);
}

#[test]
fn failed_scheduled_starts_map_to_receipt_statuses() {
    assert_eq!(
        spawned_run_failure_status("daemon binding already has an active run"),
        DaemonRunStatus::SkippedOverlap
    );
    assert_eq!(
        spawned_run_failure_status("occurrence is no longer the current UTC minute"),
        DaemonRunStatus::Missed
    );
    assert_eq!(spawned_run_failure_status("managed agent is not ready"), DaemonRunStatus::SkippedUnready);
}

#[test]
fn a_claimed_occurrence_is_not_run_again_even_without_its_cursor() {
    let now = at("2026-07-24T21:00:00Z");
    let mut store = SchedulerStore::new();
    store.insert_claim(occurrence_claim("b1", &schedule_hash("* * * * *"), now));
    let plan = plan_binding_tick(&mut store, &binding(true), now, Ok(Some("* * * * *".into())), Ok(()), false);
    assert!(plan.current.is_none());
    assert!(plan.missed.is_none());
    assert_eq!(store.cursor("b1").unwrap().last_decision.as_ref().unwrap().kind, DaemonSchedulerDecisionKind::Ready);
}

#[test]
fn a_claimed_current_minute_survives_a_full_store_and_a_missed_receipt() {
    let mut store = SchedulerStore::new();
    let b = binding(true);
    let hash = schedule_hash("* * * * *");
    let first = at("2026-07-24T20:00:00Z");
    let _ = plan_binding_tick(&mut store, &b, first, Ok(Some("* * * * *".into())), Ok(()), false);
    let now = at("2026-07-24T20:10:00Z");
    let current = occurrence_claim("b1", &hash, now);
    assert!(store.insert_claim(current.clone()));
    for i in 0..(MAX_CLAIMS - 2) {
        store.insert_claim(format!("z{i:05}"));
    }
    assert_eq!(store.claims.len(), MAX_CLAIMS);
    let plan = plan_binding_tick(&mut store, &b, now, Ok(Some("* * * * *".into())), Ok(()), false);
    let missed = plan.missed.unwrap();
    assert_eq!(missed.scheduled_for_utc, "2026-07-24T20:09:00Z");
    assert!(plan.current.is_none());
    assert!(store.claims.contains(&current));
    assert!(!store.claims.contains(&occurrence_claim("b1", &hash, first)));
    assert_eq!(store.claims.len(), MAX_CLAIMS);

    let again = plan_binding_tick(&mut store, &b, now, Ok(Some("* * * * *".into())), Ok(()), false);
    assert!(again.missed.is_none());
    assert!(again.current.is_none());
}

#[test]
fn a_claimed_missed_occurrence_gets_no_second_receipt() {
    let mut store = SchedulerStore::new();
    let b = binding(true);
    let hash = schedule_hash("* * * * *");
    let _ = plan_binding_tick(&mut store, &b, at("2026-07-24T20:00:00Z"), Ok(Some("* * * * *".into())), Ok(()), false);
    store.insert_claim(occurrence_claim("b1", &hash, at("2026-07-24T20:09:00Z")));
    let now = at("2026-07-24T20:10:00Z");
    let plan = plan_binding_tick(&mut store, &b, now, Ok(Some("* * * * *".into())), Ok(()), false);
    assert!(plan.missed.is_none());
    let current = plan.current.unwrap();
    assert_eq!(current.scheduled_for_utc, "2026-07-24T20:10:00Z");
    assert!(matches!(current.action, CurrentAction::Start { .. }));
}
