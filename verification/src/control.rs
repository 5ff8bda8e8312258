//! The authenticated loopback control plane that runs one bounded daemon
//! activation per request: bearer and callback-token checks, request
//! bounds, the completion callback (accepted at most once per run), and the
//! terminal answer an activation gives.
use vstd::prelude::*;
use vstd::string::StringSliceAdditionalSpecFns;
use vstd::utf8::encode_utf8;
use crate::foreign::bytes_ct_eq;
use crate::runs::safe_diagnostic;
use crate::text::{cat, copy_str, is_blank, starts_with, take_chars_seq, trim, trim_seq, seq_starts_with};

verus! {

broadcast use vstd::string::group_string_axioms;

/// Largest daemon policy a run request may carry, in bytes.
pub const MAX_POLICY_BYTES: usize = 262144;

/// Largest wake instruction a run request may carry, in bytes.
pub const MAX_WAKE_BYTES: usize = 98304;

/// Largest completion markdown, in bytes.
pub const MAX_OUTPUT_BYTES: usize = 131072;

/// Longest hard timeout of an activation: one day, in seconds.
pub const MAX_TIMEOUT_SECS: u64 = 86400;

// ------------------------------------------------------------------ tokens

/// Compares a secret with a candidate in time that does not depend on where
/// they differ; true exactly when the texts are equal.
pub fn constant_time_eq(expected: &str, candidate: &str) -> (r: bool)
    ensures
        r == (expected@ == candidate@),
{
    let a = expected.as_bytes();
    let b = candidate.as_bytes();
    proof {
        vstd::utf8::encode_utf8_decode_utf8(expected@);
        vstd::utf8::encode_utf8_decode_utf8(candidate@);
    }
    if a.len() != b.len() {
        return false;
    }
    bytes_ct_eq(a, b)
}

/// What a request's `Authorization` header must hold: `Bearer ` and the secret.
pub open spec fn bearer_accepts(header: Option<Seq<char>>, bearer: Seq<char>) -> bool {
    match header {
        Some(h) => seq_starts_with(h, "Bearer "@) && h.skip(7) == bearer,
        None => false,
    }
}

/// Whether a request carries the control plane's bearer secret. `header` is
/// the `Authorization` header as text, absent when missing or not visible ASCII.
pub fn authorized(header: Option<&str>, bearer: &str) -> (r: bool)
    ensures
        r == bearer_accepts(header.deep_view(), bearer@),
{
    proof {
        reveal_strlit("Bearer ");
    }
    match header {
        Some(h) => {
            if !starts_with(h, "Bearer ") {
                return false;
            }
            let v = crate::text::chars_of(h);
            let rest = crate::text::string_of_range(&v, 7, v.len());
            assert(v@.subrange(7, v@.len() as int) =~= h@.skip(7));
            constant_time_eq(bearer, rest.as_str())
        },
        None => false,
    }
}

// ------------------------------------------------------------------ completions

/// How an agent says its activation ended.
#[derive(Debug, Clone, Copy, PartialEq, Eq, Structural)]
pub enum CompletionOutcome {
    Succeeded,
    NoOp,
}

impl Default for CompletionOutcome {
    fn default() -> (r: Self)
        ensures
            r == CompletionOutcome::Succeeded,
    {
        CompletionOutcome::Succeeded
    }
}

/// A completion the agent reported through the callback.
#[derive(Debug, Clone, PartialEq, Eq)]
pub struct DaemonCompletion {
    pub outcome: CompletionOutcome,
    pub markdown: Option<String>,
}

/// Why the agent's prompt turn stopped. `Other` carries the name of any
/// other stop reason the agent protocol reports.
#[derive(Debug, Clone, PartialEq, Eq)]
pub enum StopReason {
    EndTurn,
    Cancelled,
    Other(String),
}

pub open spec fn stop_reason_name(reason: StopReason) -> Seq<char> {
    match reason {
        StopReason::EndTurn => "EndTurn"@,
        StopReason::Cancelled => "Cancelled"@,
        StopReason::Other(name) => name@,
    }
}

/// The answer to a run request.
#[derive(Debug, Clone, PartialEq, Eq)]
pub struct DaemonRunResponse {
    pub run_id: String,
    pub session_id: Option<String>,
    pub status: String,
    pub output_markdown: Option<String>,
    pub diagnostic: Option<String>,
}

/// The plain values of a response.
pub open spec fn response_view(r: DaemonRunResponse) -> (
    Seq<char>,
    Option<Seq<char>>,
    Seq<char>,
    Option<Seq<char>>,
    Option<Seq<char>>,
) {
    (
        r.run_id@,
        crate::runs::opt_text(r.session_id),
        r.status@,
        crate::runs::opt_text(r.output_markdown),
        crate::runs::opt_text(r.diagnostic),
    )
}

pub open spec fn ended(
    run_id: Seq<char>,
    session_id: Option<Seq<char>>,
    status: Seq<char>,
    diagnostic: Seq<char>,
) -> (Seq<char>, Option<Seq<char>>, Seq<char>, Option<Seq<char>>, Option<Seq<char>>) {
    (run_id, session_id, status, None, Some(take_chars_seq(diagnostic, 512)))
}

fn response(
    run_id: &str,
    session_id: Option<String>,
    status: &str,
    output_markdown: Option<String>,
    diagnostic: Option<String>,
) -> (r: DaemonRunResponse)
    ensures
        response_view(r) == (run_id@, crate::runs::opt_text(session_id), status@,
            crate::runs::opt_text(output_markdown), crate::runs::opt_text(diagnostic)),
{
    DaemonRunResponse {
        run_id: copy_str(run_id),
        session_id,
        status: copy_str(status),
        output_markdown,
        diagnostic,
    }
}

/// A failed activation, with its diagnostic cut to 512 characters.
pub fn failed(run_id: &str, session_id: Option<String>, diagnostic: &str) -> (r: DaemonRunResponse)
    ensures
        response_view(r) == ended(run_id@, crate::runs::opt_text(session_id), "failed"@, diagnostic@),
{
    response(run_id, session_id, "failed", None, Some(safe_diagnostic(diagnostic)))
}

/// A cancelled activation, with its diagnostic cut to 512 characters.
pub fn cancelled(run_id: &str, session_id: Option<String>, diagnostic: &str) -> (r:
    DaemonRunResponse)
    ensures
        response_view(r) == ended(
            run_id@,
            crate::runs::opt_text(session_id),
            "cancelled"@,
            diagnostic@,
        ),
{
    response(run_id, session_id, "cancelled", None, Some(safe_diagnostic(diagnostic)))
}

/// What an activation answers once its prompt turn has stopped.
pub open spec fn terminal_spec(
    run_id: Seq<char>,
    session_id: Seq<char>,
    reason: StopReason,
    completion: Option<(CompletionOutcome, Option<Seq<char>>)>,
) -> (Seq<char>, Option<Seq<char>>, Seq<char>, Option<Seq<char>>, Option<Seq<char>>) {
    let sid = Some(session_id);
    match reason {
        StopReason::Cancelled => (run_id, sid, "cancelled"@, None, None),
        StopReason::EndTurn => match completion {
            Some((CompletionOutcome::Succeeded, Some(output))) => (
                run_id,
                sid,
                "succeeded"@,
                Some(output),
                None,
            ),
            Some((CompletionOutcome::NoOp, _)) => (run_id, sid, "no_op"@, None, None),
            None => ended(run_id, sid, "failed"@, "agent ended without daemon_complete callback"@),
            Some((CompletionOutcome::Succeeded, None)) => ended(
                run_id,
                sid,
                "failed"@,
                "agent stopped without completion: "@ + stop_reason_name(reason),
            ),
        },
        StopReason::Other(_) => ended(
            run_id,
            sid,
            "failed"@,
            "agent stopped without completion: "@ + stop_reason_name(reason),
        ),
    }
}

pub open spec fn completion_view(c: Option<DaemonCompletion>) -> Option<
    (CompletionOutcome, Option<Seq<char>>),
> {
    match c {
        Some(d) => Some((d.outcome, crate::runs::opt_text(d.markdown))),
        None => None,
    }
}

/// The answer of an activation whose prompt turn stopped for `reason`, given
/// the completion the agent reported, if any. A cancelled turn is cancelled
/// whatever was reported; a turn that ended needs a completion; any other stop
/// fails.
pub fn terminal_response(
    run_id: &str,
    session_id: String,
    reason: StopReason,
    completion: Option<DaemonCompletion>,
) -> (r: DaemonRunResponse)
    ensures
        response_view(r) == terminal_spec(run_id@, session_id@, reason, completion_view(completion)),
        (reason is EndTurn && (completion matches Some(c) && c.outcome == CompletionOutcome::NoOp))
            ==> r.status@ == "no_op"@ && r.output_markdown is None && r.diagnostic is None,
{
    match reason {
        StopReason::Cancelled => response(run_id, Some(session_id), "cancelled", None, None),
        StopReason::EndTurn => match completion {
            Some(DaemonCompletion { outcome: CompletionOutcome::Succeeded, markdown: Some(output) }) => {
                response(run_id, Some(session_id), "succeeded", Some(output), None)
            },
            Some(DaemonCompletion { outcome: CompletionOutcome::NoOp, .. }) => {
                response(run_id, Some(session_id), "no_op", None, None)
            },
            None => failed(run_id, Some(session_id), "agent ended without daemon_complete callback"),
            Some(_) => {
                proof {
                    reveal_strlit("agent stopped without completion: EndTurn");
                    reveal_strlit("agent stopped without completion: ");
                    reveal_strlit("EndTurn");
                    assert("agent stopped without completion: EndTurn"@ =~= "agent stopped without completion: "@
                        + "EndTurn"@);
                }
                failed(run_id, Some(session_id), "agent stopped without completion: EndTurn")
            },
        },
        StopReason::Other(name) => {
            let d = cat("agent stopped without completion: ", name.as_str());
            failed(run_id, Some(session_id), d.as_str())
        },
    }
}

// ------------------------------------------------------------------ active runs

/// A run the control plane is executing: its callback token and the
/// completion reported so far.
#[derive(Debug, Clone, PartialEq, Eq)]
pub struct ActiveRun {
    pub run_id: String,
    pub callback_token: String,
    pub completion: Option<DaemonCompletion>,
}

/// What the control plane knows of one active run: its callback token and
/// its completion, if one was reported.
pub type RunSlot = (Seq<char>, Option<(CompletionOutcome, Option<Seq<char>>)>);

pub open spec fn slot_of(run: ActiveRun) -> RunSlot {
    (run.callback_token@, completion_view(run.completion))
}

/// Active runs keyed by run ID.
pub open spec fn runs_map(runs: Seq<ActiveRun>) -> Map<Seq<char>, RunSlot>
    decreases runs.len(),
{
    if runs.len() == 0 {
        Map::empty()
    } else {
        runs_map(runs.drop_last()).insert(runs.last().run_id@, slot_of(runs.last()))
    }
}

pub open spec fn distinct_runs(runs: Seq<ActiveRun>) -> bool {
    forall|i: int, j: int|
        0 <= i < j < runs.len() ==> (#[trigger] runs[i]).run_id@ != (#[trigger] runs[j]).run_id@
}

proof fn lemma_distinct_prefix(runs: Seq<ActiveRun>)
    requires
        distinct_runs(runs),
        runs.len() > 0,
    ensures
        distinct_runs(runs.drop_last()),
{
    let rest = runs.drop_last();
    assert forall|a: int, b: int| 0 <= a < b < rest.len() implies (#[trigger] rest[a]).run_id@ != (#[trigger] rest[b]).run_id@ by {
        assert(rest[a] == runs[a] && rest[b] == runs[b]);
    }
}

proof fn lemma_runs_lookup(runs: Seq<ActiveRun>, i: int)
    requires
        distinct_runs(runs),
        0 <= i < runs.len(),
    ensures
        runs_map(runs).contains_key(runs[i].run_id@),
        runs_map(runs)[runs[i].run_id@] == slot_of(runs[i]),
    decreases runs.len(),
{
    if i < runs.len() - 1 {
        let rest = runs.drop_last();
        assert(rest[i] == runs[i]);
        lemma_distinct_prefix(runs);
        lemma_runs_lookup(rest, i);
        assert(runs.last().run_id@ != runs[i].run_id@);
    }
}

proof fn lemma_runs_absent(runs: Seq<ActiveRun>, k: Seq<char>)
    requires
        forall|i: int| 0 <= i < runs.len() ==> (#[trigger] runs[i]).run_id@ != k,
    ensures
        !runs_map(runs).contains_key(k),
    decreases runs.len(),
{
    if runs.len() > 0 {
        let rest = runs.drop_last();
        assert forall|i: int| 0 <= i < rest.len() implies (#[trigger] rest[i]).run_id@ != k by {
            assert(rest[i] == runs[i]);
        }
        lemma_runs_absent(rest, k);
        assert(runs.last() == runs[runs.len() - 1]);
    }
}

proof fn lemma_runs_update(runs: Seq<ActiveRun>, i: int, e: ActiveRun)
    requires
        distinct_runs(runs),
        0 <= i < runs.len(),
        e.run_id@ == runs[i].run_id@,
    ensures
        runs_map(runs.update(i, e)) == runs_map(runs).insert(e.run_id@, slot_of(e)),
        distinct_runs(runs.update(i, e)),
    decreases runs.len(),
{
    let u = runs.update(i, e);
    let rest = runs.drop_last();
    lemma_distinct_prefix(runs);
    if i == runs.len() - 1 {
        assert(u.drop_last() =~= rest);
        assert forall|a: int| 0 <= a < rest.len() implies (#[trigger] rest[a]).run_id@ != e.run_id@ by {
            assert(rest[a] == runs[a]);
        }
        lemma_runs_absent(rest, e.run_id@);
        assert(runs_map(u) =~= runs_map(runs).insert(e.run_id@, slot_of(e)));
    } else {
        assert(u.drop_last() =~= rest.update(i, e));
        assert(rest[i] == runs[i]);
        lemma_runs_update(rest, i, e);
        assert(runs.last().run_id@ != e.run_id@);
        assert(u.last() == runs.last());
        assert(runs_map(u) =~= runs_map(runs).insert(e.run_id@, slot_of(e)));
    }
    assert forall|a: int, b: int| 0 <= a < b < u.len() implies (#[trigger] u[a]).run_id@ != (#[trigger] u[b]).run_id@ by {
        assert(u[a].run_id@ == runs[a].run_id@);
        assert(u[b].run_id@ == runs[b].run_id@);
    }
}

proof fn lemma_runs_remove(runs: Seq<ActiveRun>, i: int)
    requires
        distinct_runs(runs),
        0 <= i < runs.len(),
    ensures
        runs_map(runs.remove(i)) == runs_map(runs).remove(runs[i].run_id@),
        distinct_runs(runs.remove(i)),
    decreases runs.len(),
{
    let u = runs.remove(i);
    let k = runs[i].run_id@;
    let rest = runs.drop_last();
    lemma_distinct_prefix(runs);
    if i == runs.len() - 1 {
        assert(u =~= rest);
        assert forall|a: int| 0 <= a < rest.len() implies (#[trigger] rest[a]).run_id@ != k by {
            assert(rest[a] == runs[a]);
        }
        lemma_runs_absent(rest, k);
        assert(runs_map(u) =~= runs_map(runs).remove(k));
    } else {
        assert(u.drop_last() =~= rest.remove(i));
        assert(rest[i] == runs[i]);
        lemma_runs_remove(rest, i);
        assert(u.last() == runs.last());
        assert(runs.last().run_id@ != k);
        assert(runs_map(u) =~= runs_map(runs).remove(k));
    }
    assert forall|a: int, b: int| 0 <= a < b < u.len() implies (#[trigger] u[a]).run_id@ != (#[trigger] u[b]).run_id@ by {
        let a2 = if a < i { a } else { a + 1 };
        let b2 = if b < i { b } else { b + 1 };
        assert(u[a] == runs[a2]);
        assert(u[b] == runs[b2]);
    }
}

/// The runs the control plane is executing, each run ID once.
#[derive(Debug)]
pub struct ActiveRuns {
    runs: Vec<ActiveRun>,
}

impl View for ActiveRuns {
    type V = Map<Seq<char>, RunSlot>;

    closed spec fn view(&self) -> Map<Seq<char>, RunSlot> {
        runs_map(self.runs@)
    }
}

impl ActiveRuns {
    /// Each run ID occurs once.
    pub closed spec fn wf(&self) -> bool {
        distinct_runs(self.runs@)
    }

    pub fn new() -> (r: Self)
        ensures
            r.wf(),
            r@ == Map::<Seq<char>, RunSlot>::empty(),
    {
        ActiveRuns { runs: Vec::new() }
    }

    fn position(&self, run_id: &str) -> (r: Option<usize>)
        requires
            self.wf(),
        ensures
            r matches Some(i) ==> i < self.runs@.len() && self.runs@[i as int].run_id@ == run_id@
                && self@.contains_key(run_id@) && self@[run_id@] == slot_of(self.runs@[i as int]),
            r is None ==> !self@.contains_key(run_id@),
    {
        let mut i: usize = 0;
        while i < self.runs.len()
            invariant
                0 <= i <= self.runs@.len(),
                self.wf(),
                forall|k: int| 0 <= k < i ==> (#[trigger] self.runs@[k]).run_id@ != run_id@,
            decreases self.runs@.len() - i,
        {
            if crate::text::text_eq(self.runs[i].run_id.as_str(), run_id) {
                proof {
                    lemma_runs_lookup(self.runs@, i as int);
                }
                return Some(i);
            }
            i = i + 1;
        }
        proof {
            lemma_runs_absent(self.runs@, run_id@);
        }
        None
    }

    /// Whether `run_id` is executing.
    pub fn is_active(&self, run_id: &str) -> (r: bool)
        requires
            self.wf(),
        ensures
            r == self@.contains_key(run_id@),
    {
        self.position(run_id).is_some()
    }

    /// Registers a run with its callback token; refuses a run ID that is
    /// already executing and then changes nothing.
    pub fn register(&mut self, run_id: String, callback_token: String) -> (r: bool)
        requires
            old(self).wf(),
        ensures
            final(self).wf(),
            r == !old(self)@.contains_key(run_id@),
            r ==> final(self)@ == old(self)@.insert(run_id@, (callback_token@, None)),
            !r ==> final(self)@ == old(self)@,
    {
        match self.position(run_id.as_str()) {
            Some(_) => false,
            None => {
                let ghost before = self.runs@;
                let run = ActiveRun { run_id, callback_token, completion: None };
                self.runs.push(run);
                proof {
                    assert(self.runs@.drop_last() =~= before);
                    assert(self.runs@.last() == run);
                    assert forall|k: int| 0 <= k < before.len() implies (#[trigger] before[k]).run_id@ != run.run_id@ by {
                        if before[k].run_id@ == run.run_id@ {
                            lemma_runs_lookup(before, k);
                        }
                    }
                    assert forall|a: int, b: int| 0 <= a < b < self.runs@.len() implies (#[trigger] self.runs@[a]).run_id@ != (#[trigger] self.runs@[b]).run_id@ by {
                        assert(self.runs@[a] == before[a]);
                        if b < before.len() {
                            assert(self.runs@[b] == before[b]);
                        }
                    }
                }
                true
            },
        }
    }

    /// Takes the completion a run reported, leaving none behind.
    pub fn take_completion(&mut self, run_id: &str) -> (r: Option<DaemonCompletion>)
        requires
            old(self).wf(),
        ensures
            final(self).wf(),
            old(self)@.contains_key(run_id@) ==> completion_view(r) == old(self)@[run_id@].1
                && final(self)@ == old(self)@.insert(run_id@, (old(self)@[run_id@].0, None)),
            !old(self)@.contains_key(run_id@) ==> r is None && final(self)@ == old(self)@,
    {
        match self.position(run_id) {
            None => None,
            Some(i) => {
                let ghost before = self.runs@;
                let taken = self.runs.remove(i);
                let run = ActiveRun {
                    run_id: taken.run_id,
                    callback_token: taken.callback_token,
                    completion: None,
                };
                self.runs.insert(i, run);
                proof {
                    assert(self.runs@ =~= before.update(i as int, run));
                    lemma_runs_update(before, i as int, run);
                }
                taken.completion
            },
        }
    }
}

// ------------------------------------------------------------------ requests

/// Length in bytes of a text's UTF-8 encoding, as `str::len` reports it.
pub open spec fn byte_len(s: Seq<char>) -> usize {
    encode_utf8(s).len() as usize
}

/// The HTTP status a control-plane endpoint answers with.
#[derive(Debug, Clone, Copy, PartialEq, Eq, Structural)]
pub enum ControlStatus {
    Ready,
    Accepted,
    NoContent,
    BadRequest,
    Unauthorized,
    NotFound,
    Conflict,
    ServiceUnavailable,
}

/// A completion callback as the agent's completion tool sends it.
#[derive(Debug, Clone, PartialEq, Eq)]
pub struct CompletionRequest {
    pub run_id: String,
    pub callback_token: String,
    pub outcome: CompletionOutcome,
    pub markdown: Option<String>,
}

/// The markdown a completion keeps: none when it is absent or blank.
pub open spec fn kept_markdown(m: Option<Seq<char>>) -> Option<Seq<char>> {
    match m {
        Some(v) => if trim_seq(v).len() == 0 {
            None
        } else {
            Some(v)
        },
        None => None,
    }
}

/// A completion body is malformed when its markdown exceeds 128 KiB or a
/// success carries no markdown.
pub open spec fn completion_body_rejected(outcome: CompletionOutcome, m: Option<Seq<char>>) -> bool {
    ||| (kept_markdown(m) matches Some(v) && byte_len(v) > MAX_OUTPUT_BYTES)
    ||| (outcome == CompletionOutcome::Succeeded && kept_markdown(m) is None)
}

/// How the control plane answers a completion callback.
pub open spec fn completion_status(
    runs: Map<Seq<char>, RunSlot>,
    run_id: Seq<char>,
    token: Seq<char>,
    outcome: CompletionOutcome,
    m: Option<Seq<char>>,
) -> ControlStatus {
    if completion_body_rejected(outcome, m) {
        ControlStatus::BadRequest
    } else if !runs.contains_key(run_id) {
        ControlStatus::NotFound
    } else if runs[run_id].0 != token {
        ControlStatus::Unauthorized
    } else if runs[run_id].1 is Some {
        ControlStatus::Conflict
    } else {
        ControlStatus::NoContent
    }
}

fn keep_markdown(m: Option<String>) -> (r: Option<String>)
    ensures
        crate::runs::opt_text(r) == kept_markdown(crate::runs::opt_text(m)),
{
    match m {
        Some(v) => if is_blank(v.as_str()) {
            None
        } else {
            Some(v)
        },
        None => None,
    }
}

impl ActiveRuns {
    /// Records the completion a run's agent reports. Only the run's callback
    /// token is accepted, and only the first well-formed completion of a run
    /// is kept.
    pub fn complete(&mut self, request: CompletionRequest) -> (r: ControlStatus)
        requires
            old(self).wf(),
        ensures
            final(self).wf(),
            r == completion_status(
                old(self)@,
                request.run_id@,
                request.callback_token@,
                request.outcome,
                crate::runs::opt_text(request.markdown),
            ),
            r == ControlStatus::NoContent ==> final(self)@ == old(self)@.insert(
                request.run_id@,
                (
                    old(self)@[request.run_id@].0,
                    Some((request.outcome, kept_markdown(crate::runs::opt_text(request.markdown)))),
                ),
            ),
            r != ControlStatus::NoContent ==> final(self)@ == old(self)@,
            ({
                &&& request.outcome == CompletionOutcome::NoOp
                &&& (request.markdown matches Some(m) ==> encode_utf8(m@).len() <= MAX_OUTPUT_BYTES)
                &&& old(self)@.contains_key(request.run_id@)
                &&& old(self)@[request.run_id@].0 == request.callback_token@
                &&& old(self)@[request.run_id@].1 is None
            }) ==> r == ControlStatus::NoContent,
    {
        let CompletionRequest { run_id, callback_token, outcome, markdown } = request;
        let markdown = keep_markdown(markdown);
        let too_long = match &markdown {
            Some(v) => v.as_str().len() > MAX_OUTPUT_BYTES,
            None => false,
        };
        if too_long || (outcome == CompletionOutcome::Succeeded && markdown.is_none()) {
            return ControlStatus::BadRequest;
        }
        let i = match self.position(run_id.as_str()) {
            Some(i) => i,
            None => return ControlStatus::NotFound,
        };
        if !constant_time_eq(self.runs[i].callback_token.as_str(), callback_token.as_str()) {
            return ControlStatus::Unauthorized;
        }
        if self.runs[i].completion.is_some() {
            return ControlStatus::Conflict;
        }
        let ghost before = self.runs@;
        let taken = self.runs.remove(i);
        let run = ActiveRun {
            run_id: taken.run_id,
            callback_token: taken.callback_token,
            completion: Some(DaemonCompletion { outcome, markdown }),
        };
        self.runs.insert(i, run);
        proof {
            assert(self.runs@ =~= before.update(i as int, run));
            lemma_runs_update(before, i as int, run);
        }
        ControlStatus::NoContent
    }

    /// Forgets a run once it has ended.
    pub fn remove(&mut self, run_id: &str)
        requires
            old(self).wf(),
        ensures
            final(self).wf(),
            final(self)@ == old(self)@.remove(run_id@),
    {
        match self.position(run_id) {
            Some(i) => {
                let ghost before = self.runs@;
                let _ = self.runs.remove(i);
                proof {
                    lemma_runs_remove(before, i as int);
                }
            },
            None => {
                assert(self@ =~= self@.remove(run_id@));
            },
        }
    }

    /// How the control plane answers a cancellation request: the caller must
    /// hold the bearer secret, and only an executing run can be cancelled.
    pub fn cancel_status(&self, header: Option<&str>, bearer: &str, run_id: &str) -> (r:
        ControlStatus)
        requires
            self.wf(),
        ensures
            !bearer_accepts(header.deep_view(), bearer@) ==> r == ControlStatus::Unauthorized,
            bearer_accepts(header.deep_view(), bearer@) ==> r == (if self@.contains_key(run_id@) {
                ControlStatus::Accepted
            } else {
                ControlStatus::NotFound
            }),
    {
        if !authorized(header, bearer) {
            return ControlStatus::Unauthorized;
        }
        if self.is_active(run_id) {
            ControlStatus::Accepted
        } else {
            ControlStatus::NotFound
        }
    }
}

/// The answer to a readiness probe.
pub fn ping_status(header: Option<&str>, bearer: &str) -> (r: ControlStatus)
    ensures
        r == (if bearer_accepts(header.deep_view(), bearer@) {
            ControlStatus::Ready
        } else {
            ControlStatus::Unauthorized
        }),
{
    if authorized(header, bearer) {
        ControlStatus::Ready
    } else {
        ControlStatus::Unauthorized
    }
}

// ------------------------------------------------------------------ run requests

/// A request to run one daemon activation.
#[derive(Debug, Clone, PartialEq, Eq)]
pub struct DaemonRunRequest {
    pub run_id: String,
    pub policy_markdown: String,
    pub wake_instruction: String,
    pub cwd: String,
    pub idle_timeout_seconds: u64,
    pub hard_timeout_seconds: u64,
}

/// What canonicalising a request's working directory found.
#[derive(Debug, Clone, PartialEq, Eq)]
pub struct ResolvedDirectory {
    pub path: String,
    pub is_absolute: bool,
    pub is_dir: bool,
}

/// The first bound a run request breaks, if any.
pub open spec fn request_error(policy: Seq<char>, wake: Seq<char>, idle: u64, hard: u64) -> Option<
    Seq<char>,
> {
    if byte_len(policy) > MAX_POLICY_BYTES || trim_seq(policy).len() == 0 {
        Some("daemon policy is empty or too large"@)
    } else if byte_len(wake) > MAX_WAKE_BYTES || trim_seq(wake).len() == 0 {
        Some("wake instruction is empty or too large"@)
    } else if idle == 0 || hard == 0 || idle >= hard || hard > MAX_TIMEOUT_SECS {
        Some("timeouts must be positive, idle < hard, and hard <= 24 hours"@)
    } else {
        None
    }
}

/// Checks a run request's bounds, then its working directory as
/// canonicalisation resolved it (`None` when it does not exist); answers the
/// canonical directory.
pub open spec fn resolved_view(d: Option<ResolvedDirectory>) -> Option<(Seq<char>, bool, bool)> {
    match d {
        Some(x) => Some((x.path@, x.is_absolute, x.is_dir)),
        None => None,
    }
}

/// What validating a run request answers: the canonical working directory,
/// or the first error.
pub open spec fn validation_spec(request: DaemonRunRequest, resolved: Option<(Seq<char>, bool, bool)>) -> Result<
    Seq<char>,
    Seq<char>,
> {
    match request_error(
        request.policy_markdown@,
        request.wake_instruction@,
        request.idle_timeout_seconds,
        request.hard_timeout_seconds,
    ) {
        Some(e) => Err(e),
        None => match resolved {
            None => Err("cwd does not exist"@),
            Some((path, is_absolute, is_dir)) => if is_absolute && is_dir {
                Ok(path)
            } else {
                Err("cwd must resolve to an absolute directory"@)
            },
        },
    }
}

pub open spec fn text_result(r: Result<String, String>) -> Result<Seq<char>, Seq<char>> {
    match r {
        Ok(s) => Ok(s@),
        Err(e) => Err(e@),
    }
}

pub fn validate_request(request: &DaemonRunRequest, resolved: Option<ResolvedDirectory>) -> (r:
    Result<String, String>)
    ensures
        text_result(r) == validation_spec(*request, resolved_view(resolved)),
{
    if request.policy_markdown.as_str().len() > MAX_POLICY_BYTES || is_blank(
        request.policy_markdown.as_str(),
    ) {
        return Err("daemon policy is empty or too large".to_string());
    }
    if request.wake_instruction.as_str().len() > MAX_WAKE_BYTES || is_blank(
        request.wake_instruction.as_str(),
    ) {
        return Err("wake instruction is empty or too large".to_string());
    }
    if request.idle_timeout_seconds == 0 || request.hard_timeout_seconds == 0
        || request.idle_timeout_seconds >= request.hard_timeout_seconds
        || request.hard_timeout_seconds > MAX_TIMEOUT_SECS {
        return Err("timeouts must be positive, idle < hard, and hard <= 24 hours".to_string());
    }
    match resolved {
        None => Err("cwd does not exist".to_string()),
        Some(d) => if d.is_absolute && d.is_dir {
            Ok(d.path)
        } else {
            Err("cwd must resolve to an absolute directory".to_string())
        },
    }
}

/// Why a run request was turned away: the status and its body text.
#[derive(Debug, Clone, PartialEq, Eq)]
pub struct Rejection {
    pub status: ControlStatus,
    pub message: String,
}

/// Admits a run request: it must carry the bearer secret, the runtime must
/// offer the completion tool, and the request must validate. Answers the
/// canonical working directory.
pub fn admit_run(
    header: Option<&str>,
    bearer: &str,
    mcp_command: &str,
    request: &DaemonRunRequest,
    resolved: Option<ResolvedDirectory>,
) -> (r: Result<String, Rejection>)
    ensures
        !bearer_accepts(header.deep_view(), bearer@) ==> (r matches Err(j) && j.status
            == ControlStatus::Unauthorized && j.message@.len() == 0),
        bearer_accepts(header.deep_view(), bearer@) && mcp_command@.len() == 0 ==> (r matches Err(j)
            && j.status == ControlStatus::ServiceUnavailable && j.message@
            == "managed runtime does not support daemon completion"@),
        bearer_accepts(header.deep_view(), bearer@) && mcp_command@.len() > 0 ==> match validation_spec(
            *request,
            resolved_view(resolved),
        ) {
            Ok(p) => r matches Ok(q) && q@ == p,
            Err(e) => r matches Err(j) && j.status == ControlStatus::BadRequest && j.message@ == e,
        },
{
    if !authorized(header, bearer) {
        return Err(Rejection { status: ControlStatus::Unauthorized, message: String::new() });
    }
    if mcp_command.is_empty() {
        return Err(
            Rejection {
                status: ControlStatus::ServiceUnavailable,
                message: "managed runtime does not support daemon completion".to_string(),
            },
        );
    }
    match validate_request(request, resolved) {
        Ok(p) => Ok(p),
        Err(e) => Err(Rejection { status: ControlStatus::BadRequest, message: e }),
    }
}

// ------------------------------------------------------------------ the agent session

/// An environment variable handed to the completion tool.
#[derive(Debug, Clone, PartialEq, Eq)]
pub struct EnvVar {
    pub name: String,
    pub value: String,
}

/// The MCP server that gives an activation its completion tool.
#[derive(Debug, Clone, PartialEq, Eq)]
pub struct McpServerConfig {
    pub name: String,
    pub command: String,
    pub args: Vec<String>,
    pub env: Vec<EnvVar>,
}

/// The completion-tool server of a run: none when the runtime has no
/// completion command, else one server that knows where to call back, with
/// which token, for which run.
pub fn daemon_mcp_server(mcp_command: &str, base_url: &str, run_id: &str, callback_token: &str) -> (r:
    Vec<McpServerConfig>)
    ensures
        mcp_command@.len() == 0 ==> r@.len() == 0,
        mcp_command@.len() > 0 ==> {
            &&& r@.len() == 1
            &&& r@[0].name@ == "buzz-daemon-completion"@
            &&& r@[0].command@ == mcp_command@
            &&& r@[0].args@.len() == 0
            &&& r@[0].env@.len() == 3
            &&& r@[0].env@[0].name@ == "BUZZ_DAEMON_CALLBACK_URL"@
            &&& r@[0].env@[0].value@ == base_url@ + "/v1/complete"@
            &&& r@[0].env@[1].name@ == "BUZZ_DAEMON_CALLBACK_TOKEN"@
            &&& r@[0].env@[1].value@ == callback_token@
            &&& r@[0].env@[2].name@ == "BUZZ_DAEMON_RUN_ID"@
            &&& r@[0].env@[2].value@ == run_id@
        },
{
    let mut out: Vec<McpServerConfig> = Vec::new();
    if mcp_command.is_empty() {
        return out;
    }
    let mut env: Vec<EnvVar> = Vec::new();
    env.push(
        EnvVar {
            name: "BUZZ_DAEMON_CALLBACK_URL".to_string(),
            value: cat(base_url, "/v1/complete"),
        },
    );
    env.push(
        EnvVar { name: "BUZZ_DAEMON_CALLBACK_TOKEN".to_string(), value: copy_str(callback_token) },
    );
    env.push(EnvVar { name: "BUZZ_DAEMON_RUN_ID".to_string(), value: copy_str(run_id) });
    out.push(
        McpServerConfig {
            name: "buzz-daemon-completion".to_string(),
            command: copy_str(mcp_command),
            args: Vec::new(),
            env,
        },
    );
    out
}

/// What the agent is told after its wake instruction.
pub open spec fn prompt_suffix() -> Seq<char> {
    "\n\nBefore ending, call daemon_complete exactly once. Use succeeded with final markdown when there is user-visible work. Use no_op without markdown only when there is nothing to publish. Do not publish directly to Buzz."@
}

/// The prompt of an activation: the trimmed wake instruction, then the
/// instruction to complete exactly once.
pub fn daemon_prompt(wake_instruction: &str) -> (r: String)
    ensures
        r@ == trim_seq(wake_instruction@) + prompt_suffix(),
{
    let t = trim(wake_instruction);
    cat(
        t.as_str(),
        "\n\nBefore ending, call daemon_complete exactly once. Use succeeded with final markdown when there is user-visible work. Use no_op without markdown only when there is nothing to publish. Do not publish directly to Buzz.",
    )
}

/// The steps of starting an agent session.
#[derive(Debug, Clone, Copy, PartialEq, Eq, Structural)]
pub enum StartupStage {
    Spawn,
    Initialize,
    SessionNew,
}

/// How a startup step ended.
#[derive(Debug, Clone, PartialEq, Eq)]
pub enum StepResult {
    Done,
    Failed(String),
    TimedOut,
    Cancelled,
}

pub open spec fn stage_cancelled_text(stage: StartupStage) -> Seq<char> {
    match stage {
        StartupStage::Spawn => "cancelled before agent startup"@,
        StartupStage::Initialize => "cancelled during agent initialization"@,
        StartupStage::SessionNew => "cancelled during session creation"@,
    }
}

pub open spec fn stage_timeout_text(stage: StartupStage) -> Seq<char> {
    match stage {
        StartupStage::Spawn => Seq::empty(),
        StartupStage::Initialize => "agent initialization timed out"@,
        StartupStage::SessionNew => "agent session creation timed out"@,
    }
}

/// The answer an activation gives when a startup step does not succeed;
/// `None` when the step succeeded and the activation goes on.
pub fn startup_failure(run_id: &str, stage: StartupStage, result: StepResult) -> (r: Option<
    DaemonRunResponse,
>)
    requires
        !(stage == StartupStage::Spawn && result == StepResult::TimedOut),
    ensures
        result == StepResult::Done ==> r is None,
        result matches StepResult::Failed(e) ==> (r matches Some(x) && response_view(x) == ended(
            run_id@,
            None,
            "failed"@,
            e@,
        )),
        result == StepResult::TimedOut ==> (r matches Some(x) && response_view(x) == ended(
            run_id@,
            None,
            "failed"@,
            stage_timeout_text(stage),
        )),
        result == StepResult::Cancelled ==> (r matches Some(x) && response_view(x) == ended(
            run_id@,
            None,
            "cancelled"@,
            stage_cancelled_text(stage),
        )),
{
    match result {
        StepResult::Done => None,
        StepResult::Failed(e) => {
            let d = safe_diagnostic(e.as_str());
            proof {
                lemma_take_chars_idempotent(e@);
            }
            Some(failed(run_id, None, d.as_str()))
        },
        StepResult::TimedOut => match stage {
            StartupStage::Initialize => Some(failed(run_id, None, "agent initialization timed out")),
            _ => Some(failed(run_id, None, "agent session creation timed out")),
        },
        StepResult::Cancelled => match stage {
            StartupStage::Spawn => Some(cancelled(run_id, None, "cancelled before agent startup")),
            StartupStage::Initialize => Some(
                cancelled(run_id, None, "cancelled during agent initialization"),
            ),
            StartupStage::SessionNew => Some(
                cancelled(run_id, None, "cancelled during session creation"),
            ),
        },
    }
}

proof fn lemma_take_chars_idempotent(s: Seq<char>)
    ensures
        take_chars_seq(take_chars_seq(s, 512), 512) == take_chars_seq(s, 512),
{
}

/// The answer of an activation once its prompt turn is over: the turn's stop
/// reason decides (see `terminal_response`), or the prompt failed.
pub fn finish_activation(
    run_id: &str,
    session_id: String,
    result: Result<StopReason, String>,
    completion: Option<DaemonCompletion>,
) -> (r: DaemonRunResponse)
    ensures
        result matches Ok(reason) ==> response_view(r) == terminal_spec(
            run_id@,
            session_id@,
            reason,
            completion_view(completion),
        ),
        result matches Err(e) ==> response_view(r) == ended(
            run_id@,
            Some(session_id@),
            "failed"@,
            take_chars_seq(e@, 512),
        ),
{
    match result {
        Ok(reason) => terminal_response(run_id, session_id, reason, completion),
        Err(e) => {
            let d = safe_diagnostic(e.as_str());
            failed(run_id, Some(session_id), d.as_str())
        },
    }
}

} // verus!
