//! DAEMON.md framing and policy validation.
use vstd::prelude::*;
use vstd::string::StringSliceAdditionalSpecFns;
use crate::foreign::{cron_error_text, cron_parse_error};
use crate::text::{
    cat, cat3, chars_of, count_ws_fields, find_chars, find_from, is_blank, occurs_at,
    seq_starts_with, string_of_range, text_eq, trim, trim_seq, ws_field_count,
};
use crate::types::{DaemonActivationMode, DaemonFrontmatter, DaemonPolicy};

verus! {

broadcast use vstd::string::group_string_axioms;

/// Largest DAEMON.md accepted, in bytes (256 KiB).
pub const MAX_DAEMON_MD_BYTES: usize = 262144;

// ------------------------------------------------------------------ daemon IDs

pub open spec fn id_char(c: char) -> bool {
    ('a' <= c && c <= 'z') || ('0' <= c && c <= '9') || c == '-'
}

/// 1-64 characters from `a-z`, `0-9` and `-`, not starting or ending with `-`.
pub open spec fn valid_daemon_id(s: Seq<char>) -> bool {
    &&& 1 <= s.len() <= 64
    &&& s[0] != '-'
    &&& s.last() != '-'
    &&& forall|i: int| 0 <= i < s.len() ==> id_char(#[trigger] s[i])
}

pub fn validate_daemon_id(value: &str) -> (r: Result<(), String>)
    ensures
        r is Ok <==> valid_daemon_id(value@),
        r matches Err(e) ==> e@
            == "daemon ID must be 1-64 lowercase letters, digits, or interior hyphens"@,
{
    let v = chars_of(value);
    let mut ok = v.len() >= 1 && v.len() <= 64 && v[0] != '-' && v[v.len() - 1] != '-';
    let mut i: usize = 0;
    while ok && i < v.len()
        invariant
            0 <= i <= v.len(),
            ok ==> forall|k: int| 0 <= k < i ==> id_char(#[trigger] v@[k]),
            ok ==> (1 <= v@.len() <= 64 && v@[0] != '-' && v@.last() != '-'),
            !ok ==> !valid_daemon_id(v@),
        decreases v.len() - i,
    {
        let c = v[i];
        if !(('a' <= c && c <= 'z') || ('0' <= c && c <= '9') || c == '-') {
            ok = false;
        }
        i = i + 1;
    }
    if ok {
        Ok(())
    } else {
        Err("daemon ID must be 1-64 lowercase letters, digits, or interior hyphens".to_string())
    }
}

// ------------------------------------------------------------------ framing

/// `replace("\r\n", "\n")` followed by `replace('\r', "\n")`.
pub open spec fn normalize_newlines(s: Seq<char>) -> Seq<char>
    decreases s.len(),
{
    if s.len() == 0 {
        s
    } else if s[0] == '\r' && s.len() >= 2 && s[1] == '\n' {
        seq!['\n'] + normalize_newlines(s.skip(2))
    } else if s[0] == '\r' {
        seq!['\n'] + normalize_newlines(s.skip(1))
    } else {
        seq![s[0]] + normalize_newlines(s.skip(1))
    }
}

fn normalize_newline_chars(v: &Vec<char>) -> (r: Vec<char>)
    ensures
        r@ == normalize_newlines(v@),
{
    let mut out: Vec<char> = Vec::new();
    let mut i: usize = 0;
    assert(v@.skip(0) =~= v@);
    while i < v.len()
        invariant
            0 <= i <= v.len(),
            out@ + normalize_newlines(v@.skip(i as int)) == normalize_newlines(v@),
        decreases v.len() - i,
    {
        let ghost rest = v@.skip(i as int);
        if v[i] == '\r' && i + 1 < v.len() && v[i + 1] == '\n' {
            assert(rest.skip(2) =~= v@.skip(i + 2));
            assert(out@.push('\n') + normalize_newlines(v@.skip(i + 2)) =~= out@ + (seq!['\n']
                + normalize_newlines(rest.skip(2))));
            out.push('\n');
            i = i + 2;
        } else {
            assert(rest.skip(1) =~= v@.skip(i + 1));
            let c = if v[i] == '\r' {
                '\n'
            } else {
                v[i]
            };
            assert(out@.push(c) + normalize_newlines(v@.skip(i + 1)) =~= out@ + (seq![c]
                + normalize_newlines(rest.skip(1))));
            out.push(c);
            i = i + 1;
        }
    }
    assert(v@.skip(v@.len() as int) =~= Seq::<char>::empty());
    assert(out@ + Seq::<char>::empty() =~= out@);
    out
}

/// Frontmatter text and Markdown body of a DAEMON.md, after newline normalisation.
#[derive(Debug, Clone, PartialEq, Eq)]
pub struct DaemonMdParts {
    pub frontmatter: String,
    pub body: String,
}

/// How a newline-normalised DAEMON.md text splits into frontmatter and body.
pub open spec fn frontmatter_split(n: Seq<char>) -> Result<(Seq<char>, Seq<char>), Seq<char>> {
    if !seq_starts_with(n, "---\n"@) {
        Err("DAEMON.md must start with YAML frontmatter"@)
    } else {
        let rest = n.skip("---\n"@.len() as int);
        match find_from(rest, "\n---\n"@, 0) {
            None => Err("DAEMON.md frontmatter is missing its closing delimiter"@),
            Some(i) => Ok((rest.take(i), rest.skip(i + "\n---\n"@.len()))),
        }
    }
}

/// How a (size-checked) DAEMON.md text splits into frontmatter and body.
pub open spec fn daemon_md_split(contents: Seq<char>) -> Result<(Seq<char>, Seq<char>), Seq<char>> {
    frontmatter_split(normalize_newlines(contents))
}

/// Splits DAEMON.md into its YAML frontmatter and Markdown body.
pub fn split_daemon_md(contents: &str) -> (r: Result<DaemonMdParts, String>)
    ensures
        contents.len() > MAX_DAEMON_MD_BYTES ==> (r matches Err(e) && e@
            == "DAEMON.md exceeds 256 KiB"@),
        contents.len() <= MAX_DAEMON_MD_BYTES ==> match (r, daemon_md_split(
            contents@,
        )) {
            (Ok(p), Ok(q)) => p.frontmatter@ == q.0 && p.body@ == q.1,
            (Err(e), Err(f)) => e@ == f,
            _ => false,
        },
{
    if contents.len() > MAX_DAEMON_MD_BYTES {
        return Err("DAEMON.md exceeds 256 KiB".to_string());
    }
    let v = chars_of(contents);
    let n = normalize_newline_chars(&v);
    split_frontmatter_chars(&n)
}

/// Splits newline-normalised DAEMON.md characters at its frontmatter delimiters.
pub fn split_frontmatter_chars(n: &Vec<char>) -> (r: Result<DaemonMdParts, String>)
    ensures
        match (r, frontmatter_split(n@)) {
            (Ok(p), Ok(q)) => p.frontmatter@ == q.0 && p.body@ == q.1,
            (Err(e), Err(f)) => e@ == f,
            _ => false,
        },
{
    let open = chars_of("---\n");
    let close = chars_of("\n---\n");
    if n.len() < open.len() || !starts_with_chars(n, &open) {
        return Err("DAEMON.md must start with YAML frontmatter".to_string());
    }
    let mut rest: Vec<char> = Vec::new();
    let mut k: usize = open.len();
    while k < n.len()
        invariant
            open.len() <= k <= n.len(),
            rest@ == n@.subrange(open.len() as int, k as int),
        decreases n.len() - k,
    {
        rest.push(n[k]);
        k = k + 1;
        assert(rest@ =~= n@.subrange(open.len() as int, k as int));
    }
    assert(rest@ =~= n@.skip("---\n"@.len() as int));
    match find_chars(&rest, &close) {
        None => Err("DAEMON.md frontmatter is missing its closing delimiter".to_string()),
        Some(i) => {
            proof {
                lemma_find_from_bounds(rest@, close@, 0);
            }
            let frontmatter = string_of_range(&rest, 0, i);
            let body = string_of_range(&rest, i + close.len(), rest.len());
            assert(rest@.subrange(0, i as int) =~= rest@.take(i as int));
            assert(rest@.subrange(i + close.len(), rest@.len() as int) =~= rest@.skip(
                i + close@.len(),
            ));
            Ok(DaemonMdParts { frontmatter, body })
        },
    }
}

fn starts_with_chars(v: &Vec<char>, p: &Vec<char>) -> (r: bool)
    requires
        p.len() <= v.len(),
    ensures
        r == seq_starts_with(v@, p@),
{
    let mut k: usize = 0;
    while k < p.len()
        invariant
            0 <= k <= p.len() <= v.len(),
            forall|m: int| 0 <= m < k ==> v@[m] == p@[m],
        decreases p.len() - k,
    {
        if v[k] != p[k] {
            assert(v@.take(p@.len() as int)[k as int] != p@[k as int]);
            return false;
        }
        k = k + 1;
    }
    assert(v@.take(p@.len() as int) =~= p@);
    true
}

pub proof fn lemma_find_from_bounds(s: Seq<char>, pat: Seq<char>, i: int)
    ensures
        find_from(s, pat, i) matches Some(j) ==> i <= j && j + pat.len() <= s.len() && j >= 0,
    decreases s.len() + 1 - i,
{
    if i < 0 || i + pat.len() > s.len() {
    } else if occurs_at(s, pat, i) {
    } else {
        lemma_find_from_bounds(s, pat, i + 1);
    }
}

// ------------------------------------------------------------------ policy fields

pub open spec fn is_blank_seq(s: Seq<char>) -> bool {
    trim_seq(s).len() == 0
}

pub open spec fn all_nonblank(values: Seq<String>) -> bool {
    forall|i: int| 0 <= i < values.len() ==> !is_blank_seq(#[trigger] values[i]@)
}

/// The complaint about a list field of the frontmatter, if any.
pub open spec fn list_error(name: Seq<char>, values: Seq<String>, required: bool) -> Option<
    Seq<char>,
> {
    if required && values.len() == 0 {
        Some("DAEMON.md "@ + name + " must contain at least one entry"@)
    } else if !all_nonblank(values) {
        Some("DAEMON.md "@ + name + " entries must be non-empty"@)
    } else {
        None
    }
}

pub fn validate_nonempty_list(name: &str, values: &Vec<String>, required: bool) -> (r: Result<
    (),
    String,
>)
    ensures
        r is Ok <==> list_error(name@, values@, required) is None,
        r matches Err(e) ==> list_error(name@, values@, required) == Some(e@),
{
    if required && values.len() == 0 {
        return Err(cat3("DAEMON.md ", name, " must contain at least one entry"));
    }
    let mut i: usize = 0;
    while i < values.len()
        invariant
            0 <= i <= values.len(),
            forall|k: int| 0 <= k < i ==> !is_blank_seq(#[trigger] values@[k]@),
        decreases values.len() - i,
    {
        if is_blank(values[i].as_str()) {
            return Err(cat3("DAEMON.md ", name, " entries must be non-empty"));
        }
        i = i + 1;
    }
    Ok(())
}

pub open spec fn trimmed_all(values: Seq<String>, out: Seq<String>) -> bool {
    &&& out.len() == values.len()
    &&& forall|i: int| 0 <= i < values.len() ==> (#[trigger] out[i])@ == trim_seq(values[i]@)
}

/// Each entry trimmed, in order.
pub fn trim_list(values: Vec<String>) -> (r: Vec<String>)
    ensures
        trimmed_all(values@, r@),
{
    let mut out: Vec<String> = Vec::new();
    let mut i: usize = 0;
    while i < values.len()
        invariant
            0 <= i <= values.len(),
            out@.len() == i,
            forall|k: int| 0 <= k < i ==> (#[trigger] out@[k])@ == trim_seq(values@[k]@),
        decreases values.len() - i,
    {
        out.push(trim(values[i].as_str()));
        i = i + 1;
    }
    out
}

/// The complaint about a (trimmed, non-empty) schedule expression, if any: it must
/// have exactly five whitespace-separated fields and, with a leading seconds field
/// `0`, be a schedule that cron accepts.
pub open spec fn cron_expression_error(expression: Seq<char>) -> Option<Seq<char>> {
    if ws_field_count(expression) != 5 {
        Some("daemon schedule must contain exactly five cron fields (UTC)"@)
    } else {
        match cron_error_text("0 "@ + expression) {
            Some(e) => Some("invalid five-field UTC cron schedule: "@ + e),
            None => None,
        }
    }
}

pub fn validate_cron(expression: &str) -> (r: Result<(), String>)
    ensures
        r is Ok <==> cron_expression_error(expression@) is None,
        r matches Err(e) ==> cron_expression_error(expression@) == Some(e@),
{
    if count_ws_fields(expression) != 5 {
        return Err("daemon schedule must contain exactly five cron fields (UTC)".to_string());
    }
    let seconds_prefixed = cat("0 ", expression);
    match cron_parse_error(seconds_prefixed.as_str()) {
        Some(error) => Err(cat("invalid five-field UTC cron schedule: ", error.as_str())),
        None => Ok(()),
    }
}

/// Message for frontmatter that is not valid YAML, with a hint about quoting.
pub fn yaml_frontmatter_error(error: &str) -> (r: String)
    ensures
        r@ == "invalid DAEMON.md frontmatter: "@ + error@
            + ". Quote values that begin with YAML-reserved syntax such as `*`; for example: `schedule: \"*/2 * * * *\"`"@,
{
    cat3(
        "invalid DAEMON.md frontmatter: ",
        error,
        ". Quote values that begin with YAML-reserved syntax such as `*`; for example: `schedule: \"*/2 * * * *\"`",
    )
}

/// The schedule a policy keeps: the trimmed expression, unless it is blank.
pub open spec fn kept_schedule(schedule: Option<String>) -> Option<Seq<char>> {
    match schedule {
        Some(s) => if is_blank_seq(s@) {
            None
        } else {
            Some(trim_seq(s@))
        },
        None => None,
    }
}

pub open spec fn activation_mode_for(has_watch: bool, has_schedule: bool) -> DaemonActivationMode {
    if has_watch && has_schedule {
        DaemonActivationMode::Hybrid
    } else if has_watch {
        DaemonActivationMode::WatchOnly
    } else {
        DaemonActivationMode::ScheduleOnly
    }
}

/// The first complaint about decoded frontmatter and body, checked in this order:
/// ID, directory match, purpose, routines, watch, deny, body, schedule, wake source.
pub open spec fn frontmatter_error(
    fm: DaemonFrontmatter,
    body: Seq<char>,
    expected_id: Option<Seq<char>>,
) -> Option<Seq<char>> {
    if !valid_daemon_id(fm.id@) {
        Some("daemon ID must be 1-64 lowercase letters, digits, or interior hyphens"@)
    } else if expected_id matches Some(e) && e != fm.id@ {
        Some("DAEMON.md ID must match its directory"@)
    } else if is_blank_seq(fm.purpose@) {
        Some("DAEMON.md purpose must be non-empty"@)
    } else if list_error("routines"@, fm.routines@, true) is Some {
        list_error("routines"@, fm.routines@, true)
    } else if list_error("watch"@, fm.watch@, false) is Some {
        list_error("watch"@, fm.watch@, false)
    } else if list_error("deny"@, fm.deny@, false) is Some {
        list_error("deny"@, fm.deny@, false)
    } else if is_blank_seq(body) {
        Some("DAEMON.md Markdown body must be non-empty"@)
    } else if kept_schedule(fm.schedule) matches Some(x) && cron_expression_error(x) is Some {
        cron_expression_error(kept_schedule(fm.schedule)->0)
    } else if fm.watch@.len() == 0 && kept_schedule(fm.schedule) is None {
        Some("DAEMON.md requires at least one wake source: watch or schedule"@)
    } else {
        None
    }
}

/// The canonical policy of valid frontmatter and body: trimmed text, the kept
/// schedule, and the activation mode that the wake sources give.
pub open spec fn policy_of(p: DaemonPolicy, fm: DaemonFrontmatter, body: Seq<char>) -> bool {
    &&& p.id@ == fm.id@
    &&& p.purpose@ == trim_seq(fm.purpose@)
    &&& trimmed_all(fm.watch@, p.watch@)
    &&& trimmed_all(fm.routines@, p.routines@)
    &&& trimmed_all(fm.deny@, p.deny@)
    &&& p.schedule.deep_view() == kept_schedule(fm.schedule)
    &&& p.body@ == trim_seq(body)
    &&& p.activation_mode == activation_mode_for(fm.watch@.len() > 0, p.schedule is Some)
}

fn kept_schedule_exec(schedule: &Option<String>) -> (r: Option<String>)
    ensures
        r.deep_view() == kept_schedule(*schedule),
{
    match schedule {
        Some(s) => {
            let t = trim(s.as_str());
            if t.as_str().is_empty() {
                None
            } else {
                Some(t)
            }
        },
        None => None,
    }
}

/// Validates decoded DAEMON.md frontmatter and body and builds the canonical policy.
/// `expected_id` is the name of the directory the package lives in, when known.
pub fn build_daemon_policy(fm: DaemonFrontmatter, body: &str, expected_id: Option<&str>) -> (r:
    Result<DaemonPolicy, String>)
    ensures
        r is Ok <==> frontmatter_error(fm, body@, expected_id.deep_view()) is None,
        r matches Err(e) ==> frontmatter_error(fm, body@, expected_id.deep_view()) == Some(e@),
        r matches Ok(p) ==> policy_of(p, fm, body@),
{
    validate_daemon_id(fm.id.as_str())?;
    if let Some(expected) = expected_id {
        if !text_eq(expected, fm.id.as_str()) {
            return Err("DAEMON.md ID must match its directory".to_string());
        }
    }
    if is_blank(fm.purpose.as_str()) {
        return Err("DAEMON.md purpose must be non-empty".to_string());
    }
    validate_nonempty_list("routines", &fm.routines, true)?;
    validate_nonempty_list("watch", &fm.watch, false)?;
    validate_nonempty_list("deny", &fm.deny, false)?;
    if is_blank(body) {
        return Err("DAEMON.md Markdown body must be non-empty".to_string());
    }
    let schedule = kept_schedule_exec(&fm.schedule);
    if let Some(expression) = &schedule {
        validate_cron(expression.as_str())?;
    }
    if fm.watch.len() == 0 && schedule.is_none() {
        return Err("DAEMON.md requires at least one wake source: watch or schedule".to_string());
    }
    let activation_mode = if fm.watch.len() > 0 && schedule.is_some() {
        DaemonActivationMode::Hybrid
    } else if fm.watch.len() > 0 {
        DaemonActivationMode::WatchOnly
    } else {
        DaemonActivationMode::ScheduleOnly
    };
    let purpose = trim(fm.purpose.as_str());
    let body = trim(body);
    let has_watch = fm.watch.len() > 0;
    let DaemonFrontmatter { id, watch, routines, deny, .. } = fm;
    Ok(
        DaemonPolicy {
            id,
            purpose,
            watch: trim_list(watch),
            routines: trim_list(routines),
            deny: trim_list(deny),
            schedule,
            body,
            activation_mode,
        },
    )
}

} // verus!
