use buzz_daemon::direct::{
    admit_direct_run, cancel_target, check_policy_location, check_wake_request, control_outcome,
    control_wait_verdict, daemon_run_marker, policy_relative_path, ready_endpoint,
    render_wake_instruction, resolve_ready_agent, resolve_timeouts, settle_publication,
    split_daemon_policy, startup_cancelled_record, terminal_record, validate_daemon_policy,
    validate_loopback_control_url, validate_policy_daemon_id, ActiveRunIds, AgentFacts,
    ControlReply, ControlRunResponse, DaemonRunStatus, PolicyFrontmatter, RunOutcome, RunParties,
};

fn strings(v: &[&str]) -> Vec<String> {
    v.iter().map(|s| s.to_string()).collect()
}

fn frontmatter(id: &str, routines: &[&str]) -> PolicyFrontmatter {
    PolicyFrontmatter {
        id: id.into(),
        purpose: "test".into(),
        watch: strings(&["test"]),
        routines: strings(routines),
        deny: Vec::new(),
        schedule: None,
    }
}

fn parties() -> RunParties {
    RunParties {
        run_id: "0f8fad5b-d9cb-469f-a165-70867728950e".into(),
        daemon_id: "cleanup".into(),
        agent_pubkey: "a".repeat(64),
        channel_id: "7c9e6679-7425-40de-944b-e07fc1f90ae7".into(),
        relay_url: "ws://localhost".into(),
        cwd: "/tmp".into(),
        context_snapshot: Some("{\"source\":\"test\"}".into()),
    }
}

#[test]
fn wake_context_is_bounded_and_forwarded() {
    let context = "{\"channel\":\"engineering\",\"eventId\":\"abc\"}";
    let rendered = render_wake_instruction("summarize", Some(context)).unwrap();
    assert!(rendered.starts_with("summarize"));
    assert!(rendered.contains("\"eventId\": \"abc\""));
}

#[test]
fn control_url_must_be_loopback_before_bearer_is_sent() {
    assert_eq!(
        validate_loopback_control_url("http://127.0.0.1:4321/").unwrap(),
        "http://127.0.0.1:4321"
    );
    assert!(validate_loopback_control_url("https://127.0.0.1:4321").is_err());
    assert!(validate_loopback_control_url("http://example.com:4321").is_err());
    assert!(validate_loopback_control_url("http://127.0.0.1:4321/path").is_err());
}

#[test]
fn publication_marker_is_stable_for_idempotent_retries() {
    let run_id = uuid::Uuid::new_v4();
    assert_eq!(daemon_run_marker(&run_id.to_string()), format!("daemon-run:{run_id}"));
}

#[test]
fn control_url_accepts_ipv6_loopback_and_refuses_credentials_query_and_fragment() {
    assert_eq!(validate_loopback_control_url("http://[::1]:9/").unwrap(), "http://[::1]:9");
    assert_eq!(validate_loopback_control_url("http://127.8.9.10:9").unwrap(), "http://127.8.9.10:9");
    assert_eq!(
        validate_loopback_control_url("not a url").unwrap_err(),
        "invalid daemon control URL"
    );
    for bad in [
        "http://user@127.0.0.1:9",
        "http://user:pw@127.0.0.1:9",
        "http://127.0.0.1:9/?q=1",
        "http://127.0.0.1:9/#f",
        "http://10.0.0.1:9",
        "http://localhost:9",
        "http://[::2]:9",
    ] {
        assert_eq!(
            validate_loopback_control_url(bad).unwrap_err(),
            "daemon control URL must be a bare HTTP loopback origin",
            "{bad}"
        );
    }
}

#[test]
fn loader_checks_id_location_frontmatter_and_fields() {
    assert!(validate_policy_daemon_id("cleanup").is_ok());
    assert!(validate_policy_daemon_id("-x-").is_ok());
    assert_eq!(
        validate_policy_daemon_id("Other").unwrap_err(),
        "daemon ID must contain only lowercase letters, digits, and hyphens"
    );
    assert!(validate_policy_daemon_id("").is_err());
    assert_eq!(policy_relative_path("cleanup"), strings(&[".agents", "daemons", "cleanup", "DAEMON.md"]));

    let root = strings(&["", "tmp", "pkg"]);
    let inside = strings(&["", "tmp", "pkg", ".agents", "daemons", "cleanup", "DAEMON.md"]);
    let outside = strings(&["", "tmp", "other", "DAEMON.md"]);
    assert!(check_policy_location(&root, &inside, 10).is_ok());
    assert_eq!(
        check_policy_location(&root, &outside, 10).unwrap_err(),
        "daemon package escapes package root"
    );
    assert_eq!(
        check_policy_location(&root, &inside, 256 * 1024 + 1).unwrap_err(),
        "DAEMON.md exceeds 256 KiB"
    );

    let parts = split_daemon_policy("---\r\nid: cleanup\r\n---\r\n# Policy\r\n").unwrap();
    assert_eq!(parts.frontmatter, "id: cleanup");
    assert_eq!(parts.body, "# Policy\n");
    assert_eq!(
        split_daemon_policy("# no frontmatter").unwrap_err(),
        "DAEMON.md must start with YAML frontmatter"
    );
    assert_eq!(
        split_daemon_policy("---\nid: x\n").unwrap_err(),
        "DAEMON.md frontmatter is missing its closing delimiter"
    );

    assert!(validate_daemon_policy(Ok(frontmatter("cleanup", &["test"])), "# Policy\n", "cleanup").is_ok());
    assert_eq!(
        validate_daemon_policy(Ok(frontmatter("cleanup", &["test"])), "# Policy\n", "other").unwrap_err(),
        "DAEMON.md ID must match its directory"
    );
    assert_eq!(
        validate_daemon_policy(Ok(frontmatter("cleanup", &[])), "# Policy\n", "cleanup").unwrap_err(),
        "DAEMON.md has empty or missing required policy fields"
    );
    assert!(validate_daemon_policy(Ok(frontmatter("cleanup", &["test"])), "  ", "cleanup").is_err());
    let mut blank_schedule = frontmatter("cleanup", &["test"]);
    blank_schedule.schedule = Some(" ".into());
    assert!(validate_daemon_policy(Ok(blank_schedule), "# Policy", "cleanup").is_err());
    assert_eq!(
        validate_daemon_policy(Err("missing field `routines`".into()), "# Policy", "cleanup").unwrap_err(),
        "invalid DAEMON.md frontmatter: missing field `routines`"
    );
}

#[test]
fn wake_request_and_timeouts_are_bounded() {
    assert!(check_wake_request("summarize", None).is_ok());
    assert_eq!(check_wake_request(" ", None).unwrap_err(), "wake instruction is empty or too large");
    assert!(check_wake_request(&"w".repeat(32 * 1024 + 1), None).is_err());
    let big = format!("\"{}\"", "c".repeat(64 * 1024));
    assert_eq!(check_wake_request("w", Some(&big)).unwrap_err(), "context snapshot exceeds 64 KiB");
    assert_eq!(render_wake_instruction("w", None).unwrap(), "w");
    assert_eq!(
        render_wake_instruction("w", Some("{not json")).unwrap_err(),
        "context snapshot is not valid JSON"
    );
    let rendered = render_wake_instruction("w", Some("{\"a\":1}")).unwrap();
    assert_eq!(rendered, "w\n\nCanonical wake context snapshot:\n```json\n{\n  \"a\": 1\n}\n```");
    let wide = format!("\"{}\"", "c".repeat(98_400));
    assert_eq!(
        render_wake_instruction("w", Some(&wide)).unwrap_err(),
        "rendered wake instruction exceeds 96 KiB"
    );

    assert_eq!(resolve_timeouts(None, None).unwrap(), (300, 1800));
    assert_eq!(resolve_timeouts(Some(10), Some(20)).unwrap(), (10, 20));
    assert!(resolve_timeouts(Some(0), None).is_err());
    assert!(resolve_timeouts(Some(1800), None).is_err());
    assert_eq!(
        resolve_timeouts(None, Some(86_401)).unwrap_err(),
        "timeouts must be positive, idle < hard, and hard <= 24 hours"
    );
}

#[test]
fn direct_runs_are_admitted_once_and_cancelled_only_while_active() {
    let mut active = ActiveRunIds::new();
    let id = "0F8FAD5B-D9CB-469F-A165-70867728950E";
    assert_eq!(
        admit_direct_run(true, id, &mut active).unwrap_err(),
        "desktop shutdown has started"
    );
    assert_eq!(admit_direct_run(false, "nope", &mut active).unwrap_err(), "invalid run UUID");
    let canonical = admit_direct_run(false, &format!("  {id} "), &mut active).unwrap();
    assert_eq!(canonical, "0f8fad5b-d9cb-469f-a165-70867728950e");
    assert_eq!(
        admit_direct_run(false, &canonical, &mut active).unwrap_err(),
        "run UUID is already active"
    );
    assert_eq!(cancel_target(&active, id).unwrap(), canonical);
    active.remove(&canonical);
    assert!(!active.contains(&canonical));
    assert_eq!(cancel_target(&active, id).unwrap_err(), "daemon run is not active");
    assert_eq!(cancel_target(&active, "x").unwrap_err(), "invalid run UUID");
}

#[test]
fn ready_agent_must_be_local_completion_capable_and_ready() {
    let agent = |pubkey: &str, is_local, supports_completion, ready| AgentFacts {
        pubkey: pubkey.into(),
        is_local,
        supports_completion,
        ready,
    };
    let agents = vec![agent("ABCD", true, true, true), agent("abcd", false, true, true)];
    assert!(resolve_ready_agent(&agents, "abcd").is_ok());
    assert_eq!(resolve_ready_agent(&agents, "ef").unwrap_err(), "managed agent not found");
    assert_eq!(
        resolve_ready_agent(&[agent("ab", false, true, true)].to_vec(), "ab").unwrap_err(),
        "daemon runs require a local managed agent"
    );
    assert_eq!(
        resolve_ready_agent(&[agent("ab", true, false, true)].to_vec(), "ab").unwrap_err(),
        "selected managed agent runtime does not support daemon completion"
    );
    assert_eq!(
        resolve_ready_agent(&[agent("ab", true, true, false)].to_vec(), "ab").unwrap_err(),
        "managed agent is not ready"
    );
}

#[test]
fn readiness_file_and_wait_verdicts() {
    assert_eq!(ready_endpoint(1, 2, "http://127.0.0.1:9").unwrap(), None);
    assert_eq!(ready_endpoint(2, 2, "http://127.0.0.1:9/").unwrap(), Some("http://127.0.0.1:9".into()));
    assert!(ready_endpoint(2, 2, "http://example.com").is_err());
    assert_eq!(
        control_wait_verdict(true, true).unwrap(),
        "daemon run cancelled before control endpoint became ready"
    );
    assert_eq!(
        control_wait_verdict(false, true).unwrap(),
        "managed agent daemon control endpoint did not become ready"
    );
    assert!(control_wait_verdict(false, false).is_none());
}

fn answered(run_id: &str, status: &str, diagnostic: Option<&str>) -> ControlReply {
    ControlReply::Answered(ControlRunResponse {
        run_id: run_id.into(),
        session_id: Some("session-1".into()),
        status: status.into(),
        output_markdown: Some("# Out".into()),
        diagnostic: diagnostic.map(|d| d.to_string()),
    })
}

#[test]
fn control_replies_are_classified() {
    let run = "0f8fad5b-d9cb-469f-a165-70867728950e";
    let ok = control_outcome(run, answered(run, "succeeded", None));
    assert_eq!(ok.status, DaemonRunStatus::Succeeded);
    assert_eq!(ok.output.as_deref(), Some("# Out"));
    let other_run = control_outcome(run, answered("another", "succeeded", None));
    assert_eq!(other_run.status, DaemonRunStatus::Failed);
    assert_eq!(other_run.diagnostic.as_deref(), Some("daemon execution failed"));
    assert!(other_run.output.is_none());
    let cancelled = control_outcome(run, answered(run, "cancelled", Some("stop")));
    assert_eq!(cancelled.status, DaemonRunStatus::Cancelled);
    assert_eq!(cancelled.diagnostic.as_deref(), Some("stop"));
    let no_op = control_outcome(run, answered(run, "no_op", None));
    assert_eq!(no_op.status, DaemonRunStatus::Failed);
    let rejected = control_outcome(run, ControlReply::Rejected("401 Unauthorized".into()));
    assert_eq!(rejected.diagnostic.as_deref(), Some("daemon control rejected run with status 401 Unauthorized"));
    let broken = control_outcome(run, ControlReply::Broken("x".repeat(600)));
    assert_eq!(broken.diagnostic.unwrap().len(), 512);
    let late = control_outcome(run, ControlReply::AckTimedOut);
    assert_eq!(late.status, DaemonRunStatus::Cancelled);
    assert_eq!(late.diagnostic.as_deref(), Some("cancellation acknowledgement timed out"));
}

#[test]
fn terminal_record_contains_correlation_fields_and_settles_publication() {
    let outcome = RunOutcome {
        status: DaemonRunStatus::Succeeded,
        session_id: Some("session-1".into()),
        diagnostic: None,
        output: Some("# Out".into()),
    };
    let mut record = terminal_record(parties(), &outcome, "start".into(), "end".into());
    assert_eq!(record.acp_session_id.as_deref(), Some("session-1"));
    assert_eq!(record.context_snapshot.as_deref(), Some("{\"source\":\"test\"}"));
    assert_eq!(record.started_at, "start");
    settle_publication(&mut record, Some(Ok("event".into())));
    assert_eq!(record.output_event_id.as_deref(), Some("event"));
    assert_eq!(record.status, DaemonRunStatus::Succeeded);

    let mut unpublished = terminal_record(parties(), &outcome, "s".into(), "e".into());
    settle_publication(&mut unpublished, Some(Err("relay down".into())));
    assert_eq!(unpublished.status, DaemonRunStatus::Failed);
    assert_eq!(unpublished.diagnostic.as_deref(), Some("publication failed: relay down"));
    assert!(unpublished.output_event_id.is_none());

    let mut empty = terminal_record(parties(), &outcome, "s".into(), "e".into());
    settle_publication(&mut empty, None);
    assert_eq!(empty.status, DaemonRunStatus::Failed);
    assert_eq!(empty.diagnostic.as_deref(), Some("successful daemon response omitted output"));

    let failed = RunOutcome { status: DaemonRunStatus::Failed, session_id: None, diagnostic: Some("x".into()), output: None };
    let mut kept = terminal_record(parties(), &failed, "s".into(), "e".into());
    let before = kept.clone();
    settle_publication(&mut kept, Some(Ok("event".into())));
    assert_eq!(kept, before);

    let cancelled = startup_cancelled_record(parties(), "now", "daemon run cancelled before control endpoint became ready");
    assert_eq!(cancelled.status, DaemonRunStatus::Cancelled);
    assert_eq!(cancelled.started_at, "now");
    assert_eq!(cancelled.completed_at, "now");
    assert!(cancelled.acp_session_id.is_none());
}
