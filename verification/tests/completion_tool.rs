use buzz_daemon::completion::{
    callback_reply, check_complete_params, completion_callback_body, outcome_wire_name, ToolReply,
};
use buzz_daemon::control::CompletionOutcome;

#[test]
fn complete_params_need_markdown_for_success_only() {
    assert_eq!(
        check_complete_params(CompletionOutcome::Succeeded, Some("# Done".into())).unwrap(),
        "# Done"
    );
    assert_eq!(
        check_complete_params(CompletionOutcome::Succeeded, None).unwrap_err(),
        "markdown must be non-empty for succeeded and at most 128 KiB"
    );
    assert!(check_complete_params(CompletionOutcome::Succeeded, Some(" \n ".into())).is_err());
    assert_eq!(check_complete_params(CompletionOutcome::NoOp, None).unwrap(), "");
    let large = "x".repeat(128 * 1024 + 1);
    assert!(check_complete_params(CompletionOutcome::NoOp, Some(large)).is_err());
}

#[test]
fn callback_body_is_sorted_compact_json() {
    let body = completion_callback_body("run-1", "tok\"en", CompletionOutcome::NoOp, "line\nnext");
    assert_eq!(
        body,
        "{\"callbackToken\":\"tok\\\"en\",\"markdown\":\"line\\nnext\",\"outcome\":\"no_op\",\"runId\":\"run-1\"}"
    );
    let value: serde_json::Value = serde_json::from_str(&body).unwrap();
    assert_eq!(value["outcome"], "no_op");
    assert_eq!(value["callbackToken"], "tok\"en");
    assert_eq!(outcome_wire_name(CompletionOutcome::Succeeded), "succeeded");
}

#[test]
fn callback_reply_reports_status() {
    assert_eq!(callback_reply(true, "204 No Content"), ToolReply::Success("daemon completion accepted".into()));
    assert_eq!(
        callback_reply(false, "409 Conflict"),
        ToolReply::Error("completion callback rejected with status 409 Conflict".into())
    );
}

#[test]
fn callback_body_escapes_as_serde_json_does() {
    let markdown = "a\\b\u{8}\t\u{c}\r\u{1}\u{1f}\u{7f}é\"";
    let body = completion_callback_body("r", "t", CompletionOutcome::NoOp, markdown);
    assert_eq!(
        body,
        format!(
            "{{\"callbackToken\":\"t\",\"markdown\":{},\"outcome\":\"no_op\",\"runId\":\"r\"}}",
            serde_json::to_string(markdown).unwrap()
        )
    );
    assert!(body.contains("a\\\\b\\b\\t\\f\\r\\u0001\\u001f\u{7f}é\\\""));
}
