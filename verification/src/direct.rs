//! Direct (package-root) daemon runs: loading and checking a DAEMON.md from a
//! package root, bounding the wake instruction and its context, the loopback
//! rule for the runtime's control endpoint, classifying the control plane's
//! answer, and the terminal record a run leaves.
use vstd::prelude::*;
use vstd::string::StringSliceAdditionalSpecFns;
use crate::bindings::{
    ascii_eq_ignore_case, first_key_match, lemma_first_key_match_prefix, strip_trailing_slashes,
};
use crate::control::byte_len;
use crate::foreign::{json_pretty, json_pretty_text, parse_url, url_parts, uuid_canonical_text, uuid_parse};
use crate::runs::{opt_text, safe_diagnostic};
use crate::text::{cat, cat3, chars_of, copy_str, is_blank, string_of_range, take_chars_seq, text_eq, trim, trim_seq};
use crate::validation::{all_nonblank, frontmatter_split, is_blank_seq, split_frontmatter_chars, DaemonMdParts};

verus! {

broadcast use vstd::string::group_string_axioms;

/// Largest DAEMON.md a direct run loads, in bytes.
pub const MAX_DAEMON_FILE_BYTES: u64 = 262144;

/// Largest wake instruction of a direct run, in bytes.
pub const MAX_DIRECT_WAKE_BYTES: usize = 32768;

/// Largest context snapshot (compact JSON), in bytes.
pub const MAX_CONTEXT_BYTES: usize = 65536;

/// Largest wake instruction once its context is rendered into it, in bytes.
pub const MAX_RENDERED_WAKE_BYTES: usize = 98304;

/// How a direct run ended.
#[derive(Debug, Clone, Copy, PartialEq, Eq, Structural)]
pub enum DaemonRunStatus {
    Succeeded,
    Failed,
    Cancelled,
}

/// A request to run a daemon straight from a package root. The context
/// snapshot is held as its compact JSON text.
#[derive(Debug, Clone, PartialEq, Eq)]
pub struct RunManagedDaemonRequest {
    pub run_id: String,
    pub daemon_id: String,
    pub package_root: String,
    pub agent_pubkey: String,
    pub channel_id: String,
    pub relay_url: String,
    pub wake_instruction: String,
    pub cwd: Option<String>,
    pub idle_timeout_seconds: Option<u64>,
    pub hard_timeout_seconds: Option<u64>,
    pub context_snapshot: Option<String>,
}

/// The terminal record of a direct run. The context snapshot is held as its
/// compact JSON text.
#[derive(Debug, Clone, PartialEq, Eq)]
pub struct DaemonRunRecord {
    pub run_id: String,
    pub daemon_id: String,
    pub acp_session_id: Option<String>,
    pub status: DaemonRunStatus,
    pub started_at: String,
    pub completed_at: String,
    pub agent_pubkey: String,
    pub channel_id: String,
    pub relay_url: String,
    pub cwd: String,
    pub context_snapshot: Option<String>,
    pub diagnostic: Option<String>,
    pub output_event_id: Option<String>,
}

// ------------------------------------------------------------------ active runs

/// Run IDs of the direct runs in progress, each once.
#[derive(Debug)]
pub struct ActiveRunIds {
    ids: Vec<String>,
}

pub open spec fn id_texts(ids: Seq<String>) -> Seq<Seq<char>> {
    ids.map_values(|s: String| s@)
}

impl View for ActiveRunIds {
    type V = Set<Seq<char>>;

    closed spec fn view(&self) -> Set<Seq<char>> {
        id_texts(self.ids@).to_set()
    }
}

impl ActiveRunIds {
    pub closed spec fn wf(&self) -> bool {
        id_texts(self.ids@).no_duplicates()
    }

    pub fn new() -> (r: Self)
        ensures
            r.wf(),
            r@ == Set::<Seq<char>>::empty(),
    {
        let r = ActiveRunIds { ids: Vec::new() };
        assert(id_texts(r.ids@) =~= Seq::<Seq<char>>::empty());
        assert(r@ =~= Set::<Seq<char>>::empty());
        r
    }

    fn position(&self, id: &str) -> (r: Option<usize>)
        ensures
            r matches Some(i) ==> i < self.ids@.len() && self.ids@[i as int]@ == id@,
            r is None ==> !self@.contains(id@),
    {
        let mut i: usize = 0;
        while i < self.ids.len()
            invariant
                0 <= i <= self.ids@.len(),
                forall|k: int| 0 <= k < i ==> (#[trigger] self.ids@[k])@ != id@,
            decreases self.ids@.len() - i,
        {
            if text_eq(self.ids[i].as_str(), id) {
                return Some(i);
            }
            i = i + 1;
        }
        proof {
            if self@.contains(id@) {
                let k = id_texts(self.ids@).index_of(id@);
                assert(id_texts(self.ids@)[k] == self.ids@[k]@);
            }
        }
        None
    }

    pub fn contains(&self, id: &str) -> (r: bool)
        ensures
            r == self@.contains(id@),
    {
        match self.position(id) {
            Some(i) => {
                assert(id_texts(self.ids@)[i as int] == id@);
                true
            },
            None => false,
        }
    }

    /// Adds a run ID that is not yet present.
    pub fn insert(&mut self, id: String)
        requires
            old(self).wf(),
            !old(self)@.contains(id@),
        ensures
            final(self).wf(),
            final(self)@ == old(self)@.insert(id@),
    {
        let ghost before = id_texts(self.ids@);
        self.ids.push(id);
        proof {
            assert(id_texts(self.ids@) =~= before.push(id@));
            assert(id_texts(self.ids@).to_set() =~= before.to_set().insert(id@)) by {
                assert forall|x: Seq<char>| id_texts(self.ids@).to_set().contains(x) <==> before.to_set().insert(id@).contains(x) by {
                    if x != id@ && id_texts(self.ids@).contains(x) {
                        let k = id_texts(self.ids@).index_of(x);
                        assert(before[k] == x);
                    }
                    if before.contains(x) {
                        let k = before.index_of(x);
                        assert(id_texts(self.ids@)[k] == x);
                    }
                    if x == id@ {
                        assert(id_texts(self.ids@)[before.len() as int] == x);
                    }
                }
            }
            assert forall|a: int, b: int| 0 <= a < id_texts(self.ids@).len() && 0 <= b < id_texts(self.ids@).len() && a != b implies id_texts(self.ids@)[a] != id_texts(self.ids@)[b] by {
                if a < before.len() && b < before.len() {
                } else if a == before.len() {
                    assert(before.contains(id_texts(self.ids@)[b]));
                } else {
                    assert(before.contains(id_texts(self.ids@)[a]));
                }
            }
        }
    }

    /// Removes a run ID, if present.
    pub fn remove(&mut self, id: &str)
        requires
            old(self).wf(),
        ensures
            final(self).wf(),
            final(self)@ == old(self)@.remove(id@),
    {
        match self.position(id) {
            None => {
                assert(self@ =~= self@.remove(id@));
            },
            Some(i) => {
                let ghost before = id_texts(self.ids@);
                let _ = self.ids.remove(i);
                proof {
                    let after = id_texts(self.ids@);
                    assert(after =~= before.remove(i as int));
                    assert(before[i as int] == id@);
                    assert(before.no_duplicates());
                    assert forall|a: int, b: int| 0 <= a < after.len() && 0 <= b < after.len() && a != b implies after[a] != after[b] by {
                        let a2 = if a < i { a } else { a + 1 };
                        let b2 = if b < i { b } else { b + 1 };
                        assert(after[a] == before[a2]);
                        assert(after[b] == before[b2]);
                    }
                    assert forall|x: Seq<char>| after.to_set().contains(x) <==> before.to_set().remove(id@).contains(x) by {
                        if after.contains(x) {
                            let k = after.index_of(x);
                            let k2 = if k < i { k } else { k + 1 };
                            assert(before[k2] == x);
                            assert(k2 != i);
                            assert(x != id@);
                            assert(before.contains(x));
                        }
                        if before.contains(x) && x != id@ {
                            let k = before.index_of(x);
                            assert(k != i);
                            let k2 = if k < i { k } else { k - 1 };
                            assert(after[k2] == x);
                            assert(after.contains(x));
                        }
                    }
                    assert(after.to_set() =~= before.to_set().remove(id@));
                }
            },
        }
    }
}

/// Starts a direct run: refused once shutdown has begun, for a run ID that is
/// no UUID, and for one already in progress. Answers the canonical run ID,
/// which is then in progress.
pub fn admit_direct_run(shutdown_started: bool, run_id: &str, active: &mut ActiveRunIds) -> (r:
    Result<String, String>)
    requires
        old(active).wf(),
    ensures
        final(active).wf(),
        shutdown_started ==> (r matches Err(e) && e@ == "desktop shutdown has started"@),
        !shutdown_started && uuid_canonical_text(trim_seq(run_id@)) is None ==> (r matches Err(e)
            && e@ == "invalid run UUID"@),
        !shutdown_started ==> (uuid_canonical_text(trim_seq(run_id@)) matches Some(id) ==> if old(
            active,
        )@.contains(id) {
            r matches Err(e) && e@ == "run UUID is already active"@
        } else {
            r matches Ok(s) && s@ == id && final(active)@ == old(active)@.insert(id)
        }),
        r is Err ==> final(active)@ == old(active)@,
{
    if shutdown_started {
        return Err("desktop shutdown has started".to_string());
    }
    let t = trim(run_id);
    let id = match uuid_parse(t.as_str()) {
        Some(id) => id,
        None => return Err("invalid run UUID".to_string()),
    };
    if active.contains(id.as_str()) {
        return Err("run UUID is already active".to_string());
    }
    let out = copy_str(id.as_str());
    active.insert(id);
    Ok(out)
}

/// The run a cancellation names: it must be a UUID of a run in progress.
pub fn cancel_target(active: &ActiveRunIds, run_id: &str) -> (r: Result<String, String>)
    ensures
        uuid_canonical_text(trim_seq(run_id@)) is None ==> (r matches Err(e) && e@
            == "invalid run UUID"@),
        uuid_canonical_text(trim_seq(run_id@)) matches Some(id) ==> if active@.contains(id) {
            r matches Ok(s) && s@ == id
        } else {
            r matches Err(e) && e@ == "daemon run is not active"@
        },
{
    let t = trim(run_id);
    let id = match uuid_parse(t.as_str()) {
        Some(id) => id,
        None => return Err("invalid run UUID".to_string()),
    };
    if active.contains(id.as_str()) {
        Ok(id)
    } else {
        Err("daemon run is not active".to_string())
    }
}

// ------------------------------------------------------------------ loading DAEMON.md

pub open spec fn policy_id_char(c: char) -> bool {
    ('a' <= c && c <= 'z') || ('0' <= c && c <= '9') || c == '-'
}

/// A direct run's daemon ID: non-empty, lowercase letters, digits and hyphens.
pub open spec fn valid_policy_id(s: Seq<char>) -> bool {
    s.len() > 0 && forall|i: int| 0 <= i < s.len() ==> policy_id_char(#[trigger] s[i])
}

pub fn validate_policy_daemon_id(daemon_id: &str) -> (r: Result<(), String>)
    ensures
        r is Ok <==> valid_policy_id(daemon_id@),
        r matches Err(e) ==> e@
            == "daemon ID must contain only lowercase letters, digits, and hyphens"@,
{
    let v = chars_of(daemon_id);
    let mut ok = v.len() > 0;
    let mut i: usize = 0;
    while ok && i < v.len()
        invariant
            0 <= i <= v.len(),
            ok ==> v@.len() > 0 && forall|k: int| 0 <= k < i ==> policy_id_char(#[trigger] v@[k]),
            !ok ==> !valid_policy_id(v@),
        decreases v.len() - i,
    {
        let c = v[i];
        if !(('a' <= c && c <= 'z') || ('0' <= c && c <= '9') || c == '-') {
            ok = false;
        }
        i = i + 1;
    }
    if ok {
        Ok(())
    } else {
        Err("daemon ID must contain only lowercase letters, digits, and hyphens".to_string())
    }
}

/// The path of a daemon's DAEMON.md below the package root, by components.
pub fn policy_relative_path(daemon_id: &str) -> (r: Vec<String>)
    ensures
        r@.len() == 4,
        r@[0]@ == ".agents"@,
        r@[1]@ == "daemons"@,
        r@[2]@ == daemon_id@,
        r@[3]@ == "DAEMON.md"@,
{
    let mut r: Vec<String> = Vec::new();
    r.push(".agents".to_string());
    r.push("daemons".to_string());
    r.push(copy_str(daemon_id));
    r.push("DAEMON.md".to_string());
    r
}

pub open spec fn texts(v: Seq<String>) -> Seq<Seq<char>> {
    v.map_values(|s: String| s@)
}

/// Whether `path` lies under `root`, component by component.
pub open spec fn is_component_prefix(root: Seq<Seq<char>>, path: Seq<Seq<char>>) -> bool {
    root.len() <= path.len() && path.take(root.len() as int) == root
}

/// Checks where the canonical DAEMON.md lies and its size: it must stay under
/// the canonical package root and fit in 256 KiB.
pub fn check_policy_location(root: &Vec<String>, canonical: &Vec<String>, len: u64) -> (r: Result<
    (),
    String,
>)
    ensures
        !is_component_prefix(texts(root@), texts(canonical@)) ==> (r matches Err(e) && e@
            == "daemon package escapes package root"@),
        is_component_prefix(texts(root@), texts(canonical@)) && len > MAX_DAEMON_FILE_BYTES ==> (
        r matches Err(e) && e@ == "DAEMON.md exceeds 256 KiB"@),
        is_component_prefix(texts(root@), texts(canonical@)) && len <= MAX_DAEMON_FILE_BYTES ==> r
            is Ok,
{
    let mut inside = root.len() <= canonical.len();
    let mut i: usize = 0;
    while inside && i < root.len()
        invariant
            0 <= i <= root@.len(),
            inside ==> root@.len() <= canonical@.len() && forall|k: int| 0 <= k < i ==> (#[trigger] root@[k])@ == canonical@[k]@,
            !inside ==> !is_component_prefix(texts(root@), texts(canonical@)),
        decreases root@.len() - i,
    {
        if !text_eq(root[i].as_str(), canonical[i].as_str()) {
            proof {
                if is_component_prefix(texts(root@), texts(canonical@)) {
                    assert(texts(canonical@).take(root@.len() as int)[i as int] == texts(root@)[i as int]);
                }
            }
            inside = false;
        }
        i = i + 1;
    }
    if !inside {
        return Err("daemon package escapes package root".to_string());
    }
    assert(texts(canonical@).take(root@.len() as int) =~= texts(root@));
    if len > MAX_DAEMON_FILE_BYTES {
        return Err("DAEMON.md exceeds 256 KiB".to_string());
    }
    Ok(())
}

/// `replace("\r\n", "\n")`.
pub open spec fn crlf_to_lf(s: Seq<char>) -> Seq<char>
    decreases s.len(),
{
    if s.len() == 0 {
        s
    } else if s[0] == '\r' && s.len() >= 2 && s[1] == '\n' {
        seq!['\n'] + crlf_to_lf(s.skip(2))
    } else {
        seq![s[0]] + crlf_to_lf(s.skip(1))
    }
}

fn crlf_to_lf_chars(v: &Vec<char>) -> (r: Vec<char>)
    ensures
        r@ == crlf_to_lf(v@),
{
    let mut out: Vec<char> = Vec::new();
    let mut i: usize = 0;
    assert(v@.skip(0) =~= v@);
    while i < v.len()
        invariant
            0 <= i <= v.len(),
            out@ + crlf_to_lf(v@.skip(i as int)) == crlf_to_lf(v@),
        decreases v.len() - i,
    {
        let ghost rest = v@.skip(i as int);
        if v[i] == '\r' && i + 1 < v.len() && v[i + 1] == '\n' {
            assert(rest.skip(2) =~= v@.skip(i + 2));
            assert(out@.push('\n') + crlf_to_lf(v@.skip(i + 2)) =~= out@ + (seq!['\n'] + crlf_to_lf(
                rest.skip(2),
            )));
            out.push('\n');
            i = i + 2;
        } else {
            assert(rest.skip(1) =~= v@.skip(i + 1));
            let c = v[i];
            assert(out@.push(c) + crlf_to_lf(v@.skip(i + 1)) =~= out@ + (seq![c] + crlf_to_lf(
                rest.skip(1),
            )));
            out.push(c);
            i = i + 1;
        }
    }
    assert(v@.skip(v@.len() as int) =~= Seq::<char>::empty());
    assert(out@ + Seq::<char>::empty() =~= out@);
    out
}

/// Splits a direct-run DAEMON.md (CRLF line ends read as LF) into its YAML
/// frontmatter and Markdown body.
pub fn split_daemon_policy(contents: &str) -> (r: Result<DaemonMdParts, String>)
    ensures
        match (r, frontmatter_split(crlf_to_lf(contents@))) {
            (Ok(p), Ok(q)) => p.frontmatter@ == q.0 && p.body@ == q.1,
            (Err(e), Err(f)) => e@ == f,
            _ => false,
        },
{
    let v = chars_of(contents);
    let n = crlf_to_lf_chars(&v);
    split_frontmatter_chars(&n)
}

/// The frontmatter fields of a direct-run DAEMON.md.
#[derive(Debug, Clone, PartialEq, Eq)]
pub struct PolicyFrontmatter {
    pub id: String,
    pub purpose: String,
    pub watch: Vec<String>,
    pub routines: Vec<String>,
    pub deny: Vec<String>,
    pub schedule: Option<String>,
}

/// A direct-run policy lacks a required field when its purpose, any list
/// entry, a given schedule or its body is blank, or it names no routine.
pub open spec fn policy_fields_missing(meta: PolicyFrontmatter, body: Seq<char>) -> bool {
    ||| is_blank_seq(meta.purpose@)
    ||| meta.routines@.len() == 0
    ||| !all_nonblank(meta.routines@)
    ||| !all_nonblank(meta.watch@)
    ||| !all_nonblank(meta.deny@)
    ||| (meta.schedule matches Some(s) && is_blank_seq(s@))
    ||| is_blank_seq(body)
}

fn all_nonblank_exec(values: &Vec<String>) -> (r: bool)
    ensures
        r == all_nonblank(values@),
{
    let mut i: usize = 0;
    while i < values.len()
        invariant
            0 <= i <= values.len(),
            forall|k: int| 0 <= k < i ==> !is_blank_seq(#[trigger] values@[k]@),
        decreases values.len() - i,
    {
        if is_blank(values[i].as_str()) {
            return false;
        }
        i = i + 1;
    }
    true
}

/// Checks a direct-run policy given how its frontmatter parsed (`Err` holds the
/// YAML error's text): the ID must match the directory and the required
/// fields must be present.
pub fn validate_daemon_policy(
    meta: Result<PolicyFrontmatter, String>,
    body: &str,
    daemon_id: &str,
) -> (r: Result<(), String>)
    ensures
        meta matches Err(y) ==> (r matches Err(e) && e@ == "invalid DAEMON.md frontmatter: "@
            + y@),
        meta matches Ok(m) ==> if m.id@ != daemon_id@ {
            r matches Err(e) && e@ == "DAEMON.md ID must match its directory"@
        } else if policy_fields_missing(m, body@) {
            r matches Err(e) && e@ == "DAEMON.md has empty or missing required policy fields"@
        } else {
            r is Ok
        },
{
    let m = match meta {
        Err(y) => return Err(cat("invalid DAEMON.md frontmatter: ", y.as_str())),
        Ok(m) => m,
    };
    if !text_eq(m.id.as_str(), daemon_id) {
        return Err("DAEMON.md ID must match its directory".to_string());
    }
    let schedule_blank = match &m.schedule {
        Some(s) => is_blank(s.as_str()),
        None => false,
    };
    if is_blank(m.purpose.as_str()) || m.routines.len() == 0 || !all_nonblank_exec(&m.routines)
        || !all_nonblank_exec(&m.watch) || !all_nonblank_exec(&m.deny) || schedule_blank
        || is_blank(body) {
        return Err("DAEMON.md has empty or missing required policy fields".to_string());
    }
    Ok(())
}

// ------------------------------------------------------------------ wake and timeouts

/// Checks the wake instruction (non-blank, at most 32 KiB) and the context
/// snapshot's compact JSON (at most 64 KiB).
pub fn check_wake_request(wake_instruction: &str, context_snapshot: Option<&str>) -> (r: Result<
    (),
    String,
>)
    ensures
        (is_blank_seq(wake_instruction@) || byte_len(wake_instruction@) > MAX_DIRECT_WAKE_BYTES) ==> (
        r matches Err(e) && e@ == "wake instruction is empty or too large"@),
        !(is_blank_seq(wake_instruction@) || byte_len(wake_instruction@) > MAX_DIRECT_WAKE_BYTES) ==> (
        match context_snapshot {
            Some(c) => if byte_len(c@) > MAX_CONTEXT_BYTES {
                r matches Err(e) && e@ == "context snapshot exceeds 64 KiB"@
            } else {
                r is Ok
            },
            None => r is Ok,
        }),
{
    if is_blank(wake_instruction) || wake_instruction.len() > MAX_DIRECT_WAKE_BYTES {
        return Err("wake instruction is empty or too large".to_string());
    }
    match context_snapshot {
        Some(c) => if c.len() > MAX_CONTEXT_BYTES {
            Err("context snapshot exceeds 64 KiB".to_string())
        } else {
            Ok(())
        },
        None => Ok(()),
    }
}

/// The wake instruction with its context snapshot, pretty-printed, appended.
pub open spec fn rendered_wake(wake: Seq<char>, pretty: Seq<char>) -> Seq<char> {
    wake + "\n\nCanonical wake context snapshot:\n```json\n"@ + pretty + "\n```"@
}

/// Renders the wake instruction the agent receives: the instruction alone, or
/// followed by the pretty-printed context snapshot, at most 96 KiB in all.
pub fn render_wake_instruction(wake_instruction: &str, context_snapshot: Option<&str>) -> (r:
    Result<String, String>)
    ensures
        context_snapshot is None ==> (r matches Ok(s) && s@ == wake_instruction@),
        context_snapshot matches Some(c) ==> match json_pretty_text(c@) {
            None => r matches Err(e) && e@ == "context snapshot is not valid JSON"@,
            Some(p) => if byte_len(rendered_wake(wake_instruction@, p)) > MAX_RENDERED_WAKE_BYTES {
                r matches Err(e) && e@ == "rendered wake instruction exceeds 96 KiB"@
            } else {
                r matches Ok(s) && s@ == rendered_wake(wake_instruction@, p)
            },
        },
{
    let c = match context_snapshot {
        None => return Ok(copy_str(wake_instruction)),
        Some(c) => c,
    };
    let pretty = match json_pretty(c) {
        Some(p) => p,
        None => return Err("context snapshot is not valid JSON".to_string()),
    };
    let mut s = cat(wake_instruction, "\n\nCanonical wake context snapshot:\n```json\n");
    s.append(pretty.as_str());
    s.append("\n```");
    if s.as_str().len() > MAX_RENDERED_WAKE_BYTES {
        return Err("rendered wake instruction exceeds 96 KiB".to_string());
    }
    Ok(s)
}

/// The idle and hard timeouts of a direct run (300 s and 1800 s when not
/// given): both positive, idle shorter than hard, hard at most a day.
pub fn resolve_timeouts(idle: Option<u64>, hard: Option<u64>) -> (r: Result<(u64, u64), String>)
    ensures
        ({
            let i = match idle {
                Some(v) => v,
                None => 300u64,
            };
            let h = match hard {
                Some(v) => v,
                None => 1800u64,
            };
            if i == 0 || i >= h || h > 86400 {
                r matches Err(e) && e@
                    == "timeouts must be positive, idle < hard, and hard <= 24 hours"@
            } else {
                r == Ok::<(u64, u64), String>((i, h))
            }
        }),
{
    let i = match idle {
        Some(v) => v,
        None => 300,
    };
    let h = match hard {
        Some(v) => v,
        None => 1800,
    };
    if i == 0 || i >= h || h > 86400 {
        return Err("timeouts must be positive, idle < hard, and hard <= 24 hours".to_string());
    }
    Ok((i, h))
}

// ------------------------------------------------------------------ the control endpoint

/// An IP address (four octets or eight segments) that is a loopback address:
/// 127.0.0.0/8 or ::1.
pub open spec fn loopback_ip(ip: Seq<u16>) -> bool {
    ||| (ip.len() == 4 && ip[0] == 127)
    ||| (ip.len() == 8 && ip[0] == 0 && ip[1] == 0 && ip[2] == 0 && ip[3] == 0 && ip[4] == 0
        && ip[5] == 0 && ip[6] == 0 && ip[7] == 1)
}

/// A bare HTTP loopback origin: `http`, no credentials, an empty or `/` path,
/// no query or fragment, and a loopback IP host.
pub open spec fn bare_loopback_origin(
    parts: (Seq<char>, Seq<char>, bool, Seq<char>, bool, bool, Option<Seq<u16>>),
) -> bool {
    &&& parts.0 == "http"@
    &&& parts.1.len() == 0
    &&& !parts.2
    &&& (parts.3.len() == 0 || parts.3 == "/"@)
    &&& !parts.4
    &&& !parts.5
    &&& parts.6 matches Some(ip) && loopback_ip(ip)
}

fn is_loopback(ip: &Vec<u16>) -> (r: bool)
    ensures
        r == loopback_ip(ip@),
{
    if ip.len() == 4 {
        ip[0] == 127
    } else if ip.len() == 8 {
        ip[0] == 0 && ip[1] == 0 && ip[2] == 0 && ip[3] == 0 && ip[4] == 0 && ip[5] == 0 && ip[6]
            == 0 && ip[7] == 1
    } else {
        false
    }
}

/// Accepts the control endpoint a runtime advertises only when it is a bare
/// HTTP loopback origin, so that the bearer secret never leaves the machine.
/// Answers the origin without trailing slashes.
pub fn validate_loopback_control_url(value: &str) -> (r: Result<String, String>)
    ensures
        url_parts(value@) is None ==> (r matches Err(e) && e@ == "invalid daemon control URL"@),
        url_parts(value@) matches Some(p) ==> if bare_loopback_origin(p) {
            r matches Ok(s) && s@ == strip_trailing_slashes(value@)
        } else {
            r matches Err(e) && e@ == "daemon control URL must be a bare HTTP loopback origin"@
        },
{
    let u = match parse_url(value) {
        Some(u) => u,
        None => return Err("invalid daemon control URL".to_string()),
    };
    let loopback = match &u.host_ip {
        Some(ip) => is_loopback(ip),
        None => false,
    };
    if !text_eq(u.scheme.as_str(), "http") || !u.username.as_str().is_empty() || u.has_password
        || (!u.path.as_str().is_empty() && !text_eq(u.path.as_str(), "/")) || u.has_query
        || u.has_fragment || !loopback {
        return Err("daemon control URL must be a bare HTTP loopback origin".to_string());
    }
    Ok(crate::bindings::strip_slashes(value))
}

/// The marker that makes a run's publication idempotent across retries.
pub fn daemon_run_marker(run_id: &str) -> (r: String)
    ensures
        r@ == "daemon-run:"@ + run_id@,
{
    cat("daemon-run:", run_id)
}

/// A runtime's control readiness file as read, against the runtime's process.
pub fn ready_endpoint(ready_pid: u32, runtime_pid: u32, base_url: &str) -> (r: Result<
    Option<String>,
    String,
>)
    ensures
        ready_pid != runtime_pid ==> r == Ok::<Option<String>, String>(None),
        ready_pid == runtime_pid ==> match (r, validate_loopback_control_url_spec(base_url@)) {
            (Ok(Some(s)), Ok(t)) => s@ == t,
            (Err(e), Err(f)) => e@ == f,
            _ => false,
        },
{
    if ready_pid != runtime_pid {
        return Ok(None);
    }
    match validate_loopback_control_url(base_url) {
        Ok(s) => Ok(Some(s)),
        Err(e) => Err(e),
    }
}

/// What `validate_loopback_control_url` answers.
pub open spec fn validate_loopback_control_url_spec(value: Seq<char>) -> Result<Seq<char>, Seq<char>> {
    match url_parts(value) {
        None => Err("invalid daemon control URL"@),
        Some(p) => if bare_loopback_origin(p) {
            Ok(strip_trailing_slashes(value))
        } else {
            Err("daemon control URL must be a bare HTTP loopback origin"@)
        },
    }
}

/// Why waiting for the control endpoint stops without it: a cancellation, or
/// the deadline. `None` while the wait goes on.
pub fn control_wait_verdict(cancelled: bool, past_deadline: bool) -> (r: Option<String>)
    ensures
        cancelled ==> (r matches Some(e) && e@
            == "daemon run cancelled before control endpoint became ready"@),
        !cancelled && past_deadline ==> (r matches Some(e) && e@
            == "managed agent daemon control endpoint did not become ready"@),
        !cancelled && !past_deadline ==> r is None,
{
    if cancelled {
        Some("daemon run cancelled before control endpoint became ready".to_string())
    } else if past_deadline {
        Some("managed agent daemon control endpoint did not become ready".to_string())
    } else {
        None
    }
}

// ------------------------------------------------------------------ the agent

/// What a direct run needs to know of a managed agent.
#[derive(Debug, Clone, PartialEq, Eq)]
pub struct AgentFacts {
    pub pubkey: String,
    pub is_local: bool,
    pub supports_completion: bool,
    pub ready: bool,
}

/// First agent whose key matches `pubkey` ignoring ASCII case.
pub open spec fn first_agent(agents: Seq<AgentFacts>, pubkey: Seq<u8>) -> Option<int> {
    first_key_match(agents, |a: AgentFacts| a.pubkey@, pubkey)
}

/// A direct run needs a local managed agent whose runtime offers the
/// completion tool and which is ready.
pub fn resolve_ready_agent(agents: &Vec<AgentFacts>, pubkey: &str) -> (r: Result<(), String>)
    ensures
        first_agent(agents@, pubkey.spec_bytes()) is None ==> (r matches Err(e) && e@
            == "managed agent not found"@),
        first_agent(agents@, pubkey.spec_bytes()) matches Some(i) ==> {
            let a = agents@[i];
            if !a.is_local {
                r matches Err(e) && e@ == "daemon runs require a local managed agent"@
            } else if !a.supports_completion {
                r matches Err(e) && e@
                    == "selected managed agent runtime does not support daemon completion"@
            } else if !a.ready {
                r matches Err(e) && e@ == "managed agent is not ready"@
            } else {
                r is Ok
            }
        },
{
    let mut i: usize = 0;
    while i < agents.len()
        invariant
            0 <= i <= agents@.len(),
            first_agent(agents@.take(i as int), pubkey.spec_bytes()) is None,
        decreases agents@.len() - i,
    {
        proof {
            assert(agents@.take(i + 1).drop_last() =~= agents@.take(i as int));
        }
        if ascii_eq_ignore_case(agents[i].pubkey.as_str(), pubkey) {
            proof {
                lemma_first_key_match_prefix(
                    agents@,
                    |a: AgentFacts| a.pubkey@,
                    pubkey.spec_bytes(),
                    i as int + 1,
                );
            }
            if !agents[i].is_local {
                return Err("daemon runs require a local managed agent".to_string());
            }
            if !agents[i].supports_completion {
                return Err(
                    "selected managed agent runtime does not support daemon completion".to_string(),
                );
            }
            if !agents[i].ready {
                return Err("managed agent is not ready".to_string());
            }
            return Ok(());
        }
        i = i + 1;
    }
    assert(agents@.take(agents@.len() as int) =~= agents@);
    Err("managed agent not found".to_string())
}

// ------------------------------------------------------------------ outcomes

/// What the control plane answered a run request.
#[derive(Debug, Clone, PartialEq, Eq)]
pub struct ControlRunResponse {
    pub run_id: String,
    pub session_id: Option<String>,
    pub status: String,
    pub output_markdown: Option<String>,
    pub diagnostic: Option<String>,
}

/// How the run request to the control plane ended.
#[derive(Debug, Clone, PartialEq, Eq)]
pub enum ControlReply {
    /// A success status and its body.
    Answered(ControlRunResponse),
    /// A status other than success.
    Rejected(String),
    /// A transport error or an unreadable body.
    Broken(String),
    /// The run was cancelled and its answer did not come in time.
    AckTimedOut,
}

/// A run's status, session, diagnostic (not yet cut) and output, as the
/// control plane's reply decides them.
#[derive(Debug, Clone, PartialEq, Eq)]
pub struct RunOutcome {
    pub status: DaemonRunStatus,
    pub session_id: Option<String>,
    pub diagnostic: Option<String>,
    pub output: Option<String>,
}

pub open spec fn outcome_view(o: RunOutcome) -> (
    DaemonRunStatus,
    Option<Seq<char>>,
    Option<Seq<char>>,
    Option<Seq<char>>,
) {
    (o.status, opt_text(o.session_id), opt_text(o.diagnostic), opt_text(o.output))
}

pub open spec fn response_outcome(run_id: Seq<char>, r: ControlRunResponse) -> (
    DaemonRunStatus,
    Option<Seq<char>>,
    Option<Seq<char>>,
    Option<Seq<char>>,
) {
    if r.run_id@ == run_id && r.status@ == "succeeded"@ {
        (DaemonRunStatus::Succeeded, opt_text(r.session_id), opt_text(r.diagnostic), opt_text(
            r.output_markdown,
        ))
    } else if r.status@ == "cancelled"@ {
        (DaemonRunStatus::Cancelled, opt_text(r.session_id), opt_text(r.diagnostic), None)
    } else {
        (
            DaemonRunStatus::Failed,
            opt_text(r.session_id),
            match r.diagnostic {
                Some(d) => Some(d@),
                None => Some("daemon execution failed"@),
            },
            None,
        )
    }
}

/// Classifies the control plane's reply: only a success for this very run
/// succeeds; a cancellation stays cancelled; everything else fails.
pub fn control_outcome(run_id: &str, reply: ControlReply) -> (r: RunOutcome)
    ensures
        reply matches ControlReply::Answered(x) ==> outcome_view(r) == response_outcome(run_id@, x),
        reply matches ControlReply::Rejected(status) ==> outcome_view(r) == (
            DaemonRunStatus::Failed,
            None::<Seq<char>>,
            Some("daemon control rejected run with status "@ + status@),
            None::<Seq<char>>,
        ),
        reply matches ControlReply::Broken(e) ==> outcome_view(r) == (
            DaemonRunStatus::Failed,
            None::<Seq<char>>,
            Some(take_chars_seq(e@, 512)),
            None::<Seq<char>>,
        ),
        reply == ControlReply::AckTimedOut ==> outcome_view(r) == (
            DaemonRunStatus::Cancelled,
            None::<Seq<char>>,
            Some("cancellation acknowledgement timed out"@),
            None::<Seq<char>>,
        ),
{
    match reply {
        ControlReply::Answered(x) => {
            if text_eq(x.run_id.as_str(), run_id) && text_eq(x.status.as_str(), "succeeded") {
                RunOutcome {
                    status: DaemonRunStatus::Succeeded,
                    session_id: x.session_id,
                    diagnostic: x.diagnostic,
                    output: x.output_markdown,
                }
            } else if text_eq(x.status.as_str(), "cancelled") {
                RunOutcome {
                    status: DaemonRunStatus::Cancelled,
                    session_id: x.session_id,
                    diagnostic: x.diagnostic,
                    output: None,
                }
            } else {
                let diagnostic = match x.diagnostic {
                    Some(d) => Some(d),
                    None => Some("daemon execution failed".to_string()),
                };
                RunOutcome {
                    status: DaemonRunStatus::Failed,
                    session_id: x.session_id,
                    diagnostic,
                    output: None,
                }
            }
        },
        ControlReply::Rejected(status) => RunOutcome {
            status: DaemonRunStatus::Failed,
            session_id: None,
            diagnostic: Some(cat("daemon control rejected run with status ", status.as_str())),
            output: None,
        },
        ControlReply::Broken(e) => RunOutcome {
            status: DaemonRunStatus::Failed,
            session_id: None,
            diagnostic: Some(safe_diagnostic(e.as_str())),
            output: None,
        },
        ControlReply::AckTimedOut => RunOutcome {
            status: DaemonRunStatus::Cancelled,
            session_id: None,
            diagnostic: Some("cancellation acknowledgement timed out".to_string()),
            output: None,
        },
    }
}

/// Who and where a direct run ran, as its record keeps it.
#[derive(Debug, Clone, PartialEq, Eq)]
pub struct RunParties {
    pub run_id: String,
    pub daemon_id: String,
    pub agent_pubkey: String,
    pub channel_id: String,
    pub relay_url: String,
    pub cwd: String,
    pub context_snapshot: Option<String>,
}

pub open spec fn cut(d: Option<Seq<char>>) -> Option<Seq<char>> {
    match d {
        Some(v) => Some(take_chars_seq(v, 512)),
        None => None,
    }
}

/// A record carries the run's parties.
pub open spec fn record_of(rec: DaemonRunRecord, p: RunParties) -> bool {
    &&& rec.run_id@ == p.run_id@
    &&& rec.daemon_id@ == p.daemon_id@
    &&& rec.agent_pubkey@ == p.agent_pubkey@
    &&& rec.channel_id@ == p.channel_id@
    &&& rec.relay_url@ == p.relay_url@
    &&& rec.cwd@ == p.cwd@
    &&& opt_text(rec.context_snapshot) == opt_text(p.context_snapshot)
}

/// The record of a run that the control plane answered (before publication).
pub fn terminal_record(
    parties: RunParties,
    outcome: &RunOutcome,
    started_at: String,
    completed_at: String,
) -> (r: DaemonRunRecord)
    ensures
        record_of(r, parties),
        r.status == outcome.status,
        opt_text(r.acp_session_id) == opt_text(outcome.session_id),
        r.started_at@ == started_at@,
        r.completed_at@ == completed_at@,
        opt_text(r.diagnostic) == cut(opt_text(outcome.diagnostic)),
        r.output_event_id is None,
{
    let session = match &outcome.session_id {
        Some(s) => Some(copy_str(s.as_str())),
        None => None,
    };
    let diagnostic = match &outcome.diagnostic {
        Some(d) => Some(safe_diagnostic(d.as_str())),
        None => None,
    };
    DaemonRunRecord {
        run_id: parties.run_id,
        daemon_id: parties.daemon_id,
        acp_session_id: session,
        status: outcome.status,
        started_at,
        completed_at,
        agent_pubkey: parties.agent_pubkey,
        channel_id: parties.channel_id,
        relay_url: parties.relay_url,
        cwd: parties.cwd,
        context_snapshot: parties.context_snapshot,
        diagnostic,
        output_event_id: None,
    }
}

/// The record of a run cancelled while its control endpoint was still
/// starting.
pub fn startup_cancelled_record(parties: RunParties, now: &str, diagnostic: &str) -> (r:
    DaemonRunRecord)
    ensures
        record_of(r, parties),
        r.status == DaemonRunStatus::Cancelled,
        r.acp_session_id is None,
        r.started_at@ == now@,
        r.completed_at@ == now@,
        opt_text(r.diagnostic) == Some(take_chars_seq(diagnostic@, 512)),
        r.output_event_id is None,
{
    DaemonRunRecord {
        run_id: parties.run_id,
        daemon_id: parties.daemon_id,
        acp_session_id: None,
        status: DaemonRunStatus::Cancelled,
        started_at: copy_str(now),
        completed_at: copy_str(now),
        agent_pubkey: parties.agent_pubkey,
        channel_id: parties.channel_id,
        relay_url: parties.relay_url,
        cwd: parties.cwd,
        context_snapshot: parties.context_snapshot,
        diagnostic: Some(safe_diagnostic(diagnostic)),
        output_event_id: None,
    }
}

/// Settles a succeeded run's publication. `publication` is `None` when the
/// control plane gave no output, else how posting the output went (the event
/// ID, or the error). A run that did not succeed is left as it is.
pub fn settle_publication(record: &mut DaemonRunRecord, publication: Option<Result<String, String>>)
    ensures
        old(record).status != DaemonRunStatus::Succeeded ==> *final(record) == *old(record),
        old(record).status == DaemonRunStatus::Succeeded ==> match publication {
            None => final(record).status == DaemonRunStatus::Failed && opt_text(final(record).diagnostic)
                == Some("successful daemon response omitted output"@)
                && final(record).output_event_id == old(record).output_event_id,
            Some(Ok(event_id)) => final(record).status == DaemonRunStatus::Succeeded && opt_text(
                final(record).output_event_id,
            ) == Some(event_id@) && final(record).diagnostic == old(record).diagnostic,
            Some(Err(e)) => final(record).status == DaemonRunStatus::Failed && opt_text(
                final(record).diagnostic,
            ) == Some(take_chars_seq("publication failed: "@ + e@, 512))
                && final(record).output_event_id == old(record).output_event_id,
        },
        final(record).run_id == old(record).run_id,
        final(record).daemon_id == old(record).daemon_id,
        final(record).acp_session_id == old(record).acp_session_id,
        final(record).started_at == old(record).started_at,
        final(record).completed_at == old(record).completed_at,
        final(record).agent_pubkey == old(record).agent_pubkey,
        final(record).channel_id == old(record).channel_id,
        final(record).relay_url == old(record).relay_url,
        final(record).cwd == old(record).cwd,
        final(record).context_snapshot == old(record).context_snapshot,
{
    if record.status != DaemonRunStatus::Succeeded {
        return;
    }
    match publication {
        None => {
            record.status = DaemonRunStatus::Failed;
            record.diagnostic = Some("successful daemon response omitted output".to_string());
        },
        Some(Ok(event_id)) => {
            record.output_event_id = Some(event_id);
        },
        Some(Err(e)) => {
            record.status = DaemonRunStatus::Failed;
            let d = cat("publication failed: ", e.as_str());
            record.diagnostic = Some(safe_diagnostic(d.as_str()));
        },
    }
}

} // verus!
