//! The agent-side completion tool: what `daemon_complete` accepts, the
//! callback body it posts to the control plane, and how it reports the reply.
use vstd::prelude::*;
use vstd::string::StringSliceAdditionalSpecFns;
use crate::control::{byte_len, CompletionOutcome, MAX_OUTPUT_BYTES};
use crate::foreign::{json_quote, json_string_literal};
use crate::text::{cat, is_blank, trim_seq};

verus! {

broadcast use vstd::string::group_string_axioms;

/// The wire name of an outcome.
pub open spec fn outcome_name(outcome: CompletionOutcome) -> Seq<char> {
    match outcome {
        CompletionOutcome::Succeeded => "succeeded"@,
        CompletionOutcome::NoOp => "no_op"@,
    }
}

pub fn outcome_wire_name(outcome: CompletionOutcome) -> (r: &'static str)
    ensures
        r@ == outcome_name(outcome),
{
    match outcome {
        CompletionOutcome::Succeeded => "succeeded",
        CompletionOutcome::NoOp => "no_op",
    }
}

/// The markdown a completion sends: the given text, or empty.
pub open spec fn sent_markdown(markdown: Option<Seq<char>>) -> Seq<char> {
    match markdown {
        Some(m) => m,
        None => Seq::empty(),
    }
}

/// Checks the tool's arguments: the markdown (empty when omitted) must fit in
/// 128 KiB, and a success needs non-blank markdown. Answers the markdown to send.
pub fn check_complete_params(outcome: CompletionOutcome, markdown: Option<String>) -> (r: Result<
    String,
    String,
>)
    ensures
        ({
            let m = sent_markdown(crate::runs::opt_text(markdown));
            if byte_len(m) > MAX_OUTPUT_BYTES || (outcome == CompletionOutcome::Succeeded
                && trim_seq(m).len() == 0) {
                r matches Err(e) && e@
                    == "markdown must be non-empty for succeeded and at most 128 KiB"@
            } else {
                r matches Ok(s) && s@ == m
            }
        }),
{
    let m = match markdown {
        Some(m) => m,
        None => String::new(),
    };
    if m.as_str().len() > MAX_OUTPUT_BYTES || (outcome == CompletionOutcome::Succeeded && is_blank(
        m.as_str(),
    )) {
        return Err("markdown must be non-empty for succeeded and at most 128 KiB".to_string());
    }
    Ok(m)
}

/// The JSON object the tool posts to the control plane, keys in sorted order.
pub open spec fn callback_body(
    run_id: Seq<char>,
    callback_token: Seq<char>,
    outcome: CompletionOutcome,
    markdown: Seq<char>,
) -> Seq<char> {
    "{\"callbackToken\":"@ + json_string_literal(callback_token) + ",\"markdown\":"@
        + json_string_literal(markdown) + ",\"outcome\":\""@ + outcome_name(outcome)
        + "\",\"runId\":"@ + json_string_literal(run_id) + "}"@
}

pub fn completion_callback_body(
    run_id: &str,
    callback_token: &str,
    outcome: CompletionOutcome,
    markdown: &str,
) -> (r: String)
    ensures
        r@ == callback_body(run_id@, callback_token@, outcome, markdown@),
{
    let mut s = "{\"callbackToken\":".to_string();
    s.append(json_quote(callback_token).as_str());
    s.append(",\"markdown\":");
    s.append(json_quote(markdown).as_str());
    s.append(",\"outcome\":\"");
    s.append(outcome_wire_name(outcome));
    s.append("\",\"runId\":");
    s.append(json_quote(run_id).as_str());
    s.append("}");
    s
}

/// What the tool answers the agent.
#[derive(Debug, Clone, PartialEq, Eq)]
pub enum ToolReply {
    Success(String),
    Error(String),
}

/// The tool's answer once the control plane replied: accepted on a success
/// status, else the status it rejected with.
pub fn callback_reply(status_is_success: bool, status: &str) -> (r: ToolReply)
    ensures
        status_is_success ==> (r matches ToolReply::Success(t) && t@
            == "daemon completion accepted"@),
        !status_is_success ==> (r matches ToolReply::Error(t) && t@
            == "completion callback rejected with status "@ + status@),
{
    if status_is_success {
        ToolReply::Success("daemon completion accepted".to_string())
    } else {
        ToolReply::Error(cat("completion callback rejected with status ", status))
    }
}

} // verus!
