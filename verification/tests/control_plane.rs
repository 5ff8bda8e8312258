use buzz_daemon::control::{
    admit_run, authorized, cancelled, constant_time_eq, daemon_mcp_server, daemon_prompt, failed,
    finish_activation, ping_status, startup_failure, terminal_response, validate_request,
    ActiveRuns, CompletionOutcome, CompletionRequest, ControlStatus, DaemonCompletion,
    DaemonRunRequest, ResolvedDirectory, StartupStage, StepResult, StopReason,
};

fn request(policy: &str, wake: &str, idle: u64, hard: u64) -> DaemonRunRequest {
    DaemonRunRequest {
        run_id: "2b0f5c1e-3c54-4a86-9a7b-0f3e1d2c4b5a".to_string(),
        policy_markdown: policy.to_string(),
        wake_instruction: wake.to_string(),
        cwd: "/work".to_string(),
        idle_timeout_seconds: idle,
        hard_timeout_seconds: hard,
    }
}

fn resolved(path: &str) -> Option<ResolvedDirectory> {
    Some(ResolvedDirectory { path: path.to_string(), is_absolute: true, is_dir: true })
}

fn active(run_id: &str, token: &str) -> ActiveRuns {
    let mut runs = ActiveRuns::new();
    assert!(runs.register(run_id.to_string(), token.to_string()));
    runs
}

fn completion(run_id: &str, token: &str, outcome: CompletionOutcome, markdown: Option<&str>) -> CompletionRequest {
    CompletionRequest {
        run_id: run_id.to_string(),
        callback_token: token.to_string(),
        outcome,
        markdown: markdown.map(|m| m.to_string()),
    }
}

#[test]
fn constant_time_auth_rejects_wrong_or_partial_tokens() {
    assert!(constant_time_eq("secret", "secret"));
    assert!(!constant_time_eq("secret", "secrex"));
    assert!(!constant_time_eq("secret", "sec"));
}

#[test]
fn validation_canonicalizes_cwd_and_bounds_timeouts() {
    let mut req = request("policy", "wake", 10, 20);
    assert_eq!(validate_request(&req, resolved("/private/work")).unwrap(), "/private/work");
    req.idle_timeout_seconds = 20;
    assert!(validate_request(&req, resolved("/private/work")).is_err());
}

#[test]
fn terminal_response_requires_callback_and_preserves_cancellation() {
    let run_id = "7d3c1b8e-5a2f-4c61-8e90-1a2b3c4d5e6f";
    let success = terminal_response(
        run_id,
        "session".into(),
        StopReason::EndTurn,
        Some(DaemonCompletion { outcome: CompletionOutcome::Succeeded, markdown: Some("# Done".into()) }),
    );
    assert_eq!(success.status, "succeeded");
    assert_eq!(success.output_markdown.as_deref(), Some("# Done"));

    let missing = terminal_response(run_id, "session".into(), StopReason::EndTurn, None);
    assert_eq!(missing.status, "failed");
    assert!(missing.diagnostic.unwrap().contains("without daemon_complete"));

    let cancelled = terminal_response(
        run_id,
        "session".into(),
        StopReason::Cancelled,
        Some(DaemonCompletion { outcome: CompletionOutcome::Succeeded, markdown: Some("ignored".into()) }),
    );
    assert_eq!(cancelled.status, "cancelled");
    assert!(cancelled.output_markdown.is_none());

    let no_op = terminal_response(
        run_id,
        "session".into(),
        StopReason::EndTurn,
        Some(DaemonCompletion { outcome: CompletionOutcome::NoOp, markdown: None }),
    );
    assert_eq!(no_op.status, "no_op");
    assert!(no_op.output_markdown.is_none());
}

#[test]
fn completion_callback_authenticates_and_accepts_exactly_once() {
    let run_id = "0c9e6a34-0d0b-4d8e-a1f1-52f7a9c3e111";
    let mut state = active(run_id, "callback-secret");
    let wrong = state.complete(completion(run_id, "wrong", CompletionOutcome::Succeeded, Some("# Done")));
    assert_eq!(wrong, ControlStatus::Unauthorized);

    let accepted =
        state.complete(completion(run_id, "callback-secret", CompletionOutcome::Succeeded, Some("# Done")));
    assert_eq!(accepted, ControlStatus::NoContent);

    let duplicate =
        state.complete(completion(run_id, "callback-secret", CompletionOutcome::Succeeded, Some("# Again")));
    assert_eq!(duplicate, ControlStatus::Conflict);
}

#[test]
fn completion_callback_accepts_no_op_and_rejects_success_without_markdown() {
    let no_op_run = "8f14e45f-ceea-467f-a8f5-a0b1c2d3e4f5";
    let no_op = active(no_op_run, "callback-secret")
        .complete(completion(no_op_run, "callback-secret", CompletionOutcome::NoOp, None));
    assert_eq!(no_op, ControlStatus::NoContent);

    let invalid_run = "c4ca4238-a0b9-4382-8dcc-509a6f75849b";
    let invalid = active(invalid_run, "callback-secret")
        .complete(completion(invalid_run, "callback-secret", CompletionOutcome::Succeeded, None));
    assert_eq!(invalid, ControlStatus::BadRequest);
}

#[test]
fn completion_for_unknown_run_is_not_found_and_blank_markdown_is_dropped() {
    let mut state = active("run-a", "t");
    assert_eq!(
        state.complete(completion("run-b", "t", CompletionOutcome::NoOp, None)),
        ControlStatus::NotFound
    );
    // blank markdown on a success counts as no markdown
    assert_eq!(
        state.complete(completion("run-a", "t", CompletionOutcome::Succeeded, Some("   \n"))),
        ControlStatus::BadRequest
    );
    // a no-op keeps no blank markdown
    assert_eq!(
        state.complete(completion("run-a", "t", CompletionOutcome::NoOp, Some("  "))),
        ControlStatus::NoContent
    );
    let taken = state.take_completion("run-a").unwrap();
    assert_eq!(taken, DaemonCompletion { outcome: CompletionOutcome::NoOp, markdown: None });
    assert!(state.take_completion("run-a").is_none());
}

#[test]
fn completion_markdown_over_128_kib_is_refused() {
    let mut state = active("run-a", "t");
    let large = "x".repeat(128 * 1024 + 1);
    assert_eq!(
        state.complete(completion("run-a", "t", CompletionOutcome::Succeeded, Some(&large))),
        ControlStatus::BadRequest
    );
    let fits = "x".repeat(128 * 1024);
    assert_eq!(
        state.complete(completion("run-a", "t", CompletionOutcome::Succeeded, Some(&fits))),
        ControlStatus::NoContent
    );
}

#[test]
fn run_ids_register_once_and_are_forgotten_on_removal() {
    let mut state = ActiveRuns::new();
    assert!(state.register("r1".into(), "t1".into()));
    assert!(!state.register("r1".into(), "t2".into()));
    assert!(state.is_active("r1"));
    // the first token stays
    assert_eq!(state.complete(completion("r1", "t2", CompletionOutcome::NoOp, None)), ControlStatus::Unauthorized);
    state.remove("r1");
    assert!(!state.is_active("r1"));
    assert_eq!(state.complete(completion("r1", "t1", CompletionOutcome::NoOp, None)), ControlStatus::NotFound);
}

#[test]
fn bearer_header_needs_exact_prefix_and_secret() {
    assert!(authorized(Some("Bearer secret"), "secret"));
    assert!(!authorized(Some("bearer secret"), "secret"));
    assert!(!authorized(Some("Bearer secret "), "secret"));
    assert!(!authorized(Some("Bearer"), "secret"));
    assert!(!authorized(None, "secret"));
    assert_eq!(ping_status(Some("Bearer secret"), "secret"), ControlStatus::Ready);
    assert_eq!(ping_status(Some("Bearer nope"), "secret"), ControlStatus::Unauthorized);
    let state = active("r1", "t");
    assert_eq!(state.cancel_status(Some("Bearer secret"), "secret", "r1"), ControlStatus::Accepted);
    assert_eq!(state.cancel_status(Some("Bearer secret"), "secret", "r2"), ControlStatus::NotFound);
    assert_eq!(state.cancel_status(None, "secret", "r1"), ControlStatus::Unauthorized);
}

#[test]
fn run_request_bounds_each_field() {
    let big_policy = "p".repeat(256 * 1024 + 1);
    assert_eq!(
        validate_request(&request(&big_policy, "wake", 1, 2), resolved("/w")).unwrap_err(),
        "daemon policy is empty or too large"
    );
    assert_eq!(
        validate_request(&request("  ", "wake", 1, 2), resolved("/w")).unwrap_err(),
        "daemon policy is empty or too large"
    );
    let big_wake = "w".repeat(96 * 1024 + 1);
    assert_eq!(
        validate_request(&request("policy", &big_wake, 1, 2), resolved("/w")).unwrap_err(),
        "wake instruction is empty or too large"
    );
    for (idle, hard) in [(0, 10), (5, 0), (10, 10), (1, 86_401)] {
        assert_eq!(
            validate_request(&request("policy", "wake", idle, hard), resolved("/w")).unwrap_err(),
            "timeouts must be positive, idle < hard, and hard <= 24 hours"
        );
    }
    assert!(validate_request(&request("policy", "wake", 1, 86_400), resolved("/w")).is_ok());
    assert_eq!(
        validate_request(&request("policy", "wake", 1, 2), None).unwrap_err(),
        "cwd does not exist"
    );
    let file = Some(ResolvedDirectory { path: "/w/file".into(), is_absolute: true, is_dir: false });
    assert_eq!(
        validate_request(&request("policy", "wake", 1, 2), file).unwrap_err(),
        "cwd must resolve to an absolute directory"
    );
}

#[test]
fn run_admission_checks_bearer_then_runtime_then_request() {
    let req = request("policy", "wake", 1, 2);
    let unauth = admit_run(Some("Bearer x"), "secret", "mcp", &req, resolved("/w")).unwrap_err();
    assert_eq!(unauth.status, ControlStatus::Unauthorized);
    let no_mcp = admit_run(Some("Bearer secret"), "secret", "", &req, resolved("/w")).unwrap_err();
    assert_eq!(no_mcp.status, ControlStatus::ServiceUnavailable);
    assert_eq!(no_mcp.message, "managed runtime does not support daemon completion");
    let bad = admit_run(Some("Bearer secret"), "secret", "mcp", &request("", "wake", 1, 2), resolved("/w"))
        .unwrap_err();
    assert_eq!(bad.status, ControlStatus::BadRequest);
    assert_eq!(admit_run(Some("Bearer secret"), "secret", "mcp", &req, resolved("/w")).unwrap(), "/w");
}

#[test]
fn completion_server_carries_callback_coordinates() {
    assert!(daemon_mcp_server("", "http://127.0.0.1:1", "run", "token").is_empty());
    let servers = daemon_mcp_server("buzz-dev-mcp", "http://127.0.0.1:1", "run", "token");
    assert_eq!(servers.len(), 1);
    let s = &servers[0];
    assert_eq!(s.name, "buzz-daemon-completion");
    assert_eq!(s.command, "buzz-dev-mcp");
    assert!(s.args.is_empty());
    let env: Vec<(String, String)> = s.env.iter().map(|e| (e.name.clone(), e.value.clone())).collect();
    assert_eq!(
        env,
        vec![
            ("BUZZ_DAEMON_CALLBACK_URL".to_string(), "http://127.0.0.1:1/v1/complete".to_string()),
            ("BUZZ_DAEMON_CALLBACK_TOKEN".to_string(), "token".to_string()),
            ("BUZZ_DAEMON_RUN_ID".to_string(), "run".to_string()),
        ]
    );
}

#[test]
fn prompt_trims_wake_and_asks_for_one_completion() {
    let prompt = daemon_prompt("  tidy the queue \n");
    assert!(prompt.starts_with("tidy the queue\n\nBefore ending, call daemon_complete exactly once."));
    assert!(prompt.ends_with("Do not publish directly to Buzz."));
}

#[test]
fn startup_steps_fail_or_cancel_with_their_reason() {
    assert!(startup_failure("r", StartupStage::Spawn, StepResult::Done).is_none());
    let spawn = startup_failure("r", StartupStage::Spawn, StepResult::Failed("no such file".into())).unwrap();
    assert_eq!(spawn.status, "failed");
    assert_eq!(spawn.diagnostic.as_deref(), Some("no such file"));
    assert!(spawn.session_id.is_none());
    let init = startup_failure("r", StartupStage::Initialize, StepResult::TimedOut).unwrap();
    assert_eq!(init.diagnostic.as_deref(), Some("agent initialization timed out"));
    let session = startup_failure("r", StartupStage::SessionNew, StepResult::TimedOut).unwrap();
    assert_eq!(session.diagnostic.as_deref(), Some("agent session creation timed out"));
    let c = startup_failure("r", StartupStage::Spawn, StepResult::Cancelled).unwrap();
    assert_eq!(c.status, "cancelled");
    assert_eq!(c.diagnostic.as_deref(), Some("cancelled before agent startup"));
    let c = startup_failure("r", StartupStage::Initialize, StepResult::Cancelled).unwrap();
    assert_eq!(c.diagnostic.as_deref(), Some("cancelled during agent initialization"));
    let c = startup_failure("r", StartupStage::SessionNew, StepResult::Cancelled).unwrap();
    assert_eq!(c.diagnostic.as_deref(), Some("cancelled during session creation"));
}

#[test]
fn diagnostics_are_cut_to_512_characters() {
    let long = "é".repeat(600);
    let r = failed("r", None, &long);
    assert_eq!(r.diagnostic.unwrap().chars().count(), 512);
    let r = cancelled("r", Some("s".into()), "short");
    assert_eq!(r.diagnostic.as_deref(), Some("short"));
    assert_eq!(r.session_id.as_deref(), Some("s"));
}

#[test]
fn other_stop_reasons_and_prompt_errors_fail() {
    let r = terminal_response("r", "s".into(), StopReason::Other("MaxTokens".into()), None);
    assert_eq!(r.status, "failed");
    assert_eq!(r.diagnostic.as_deref(), Some("agent stopped without completion: MaxTokens"));
    let r = terminal_response(
        "r",
        "s".into(),
        StopReason::EndTurn,
        Some(DaemonCompletion { outcome: CompletionOutcome::Succeeded, markdown: None }),
    );
    assert_eq!(r.diagnostic.as_deref(), Some("agent stopped without completion: EndTurn"));
    let r = finish_activation("r", "s".into(), Err("idle timeout".into()), None);
    assert_eq!(r.status, "failed");
    assert_eq!(r.session_id.as_deref(), Some("s"));
    assert_eq!(r.diagnostic.as_deref(), Some("idle timeout"));
    let r = finish_activation("r", "s".into(), Ok(StopReason::Cancelled), None);
    assert_eq!(r.status, "cancelled");
    assert!(r.diagnostic.is_none());
}
