//! Rules of the binding store: one primary binding per daemon, unique IDs,
//! deletion that refuses ambiguous IDs, partial updates, and listing order.
use vstd::prelude::*;
use crate::foreign::{uuid_canonical_text, uuid_parse};
use crate::order::{rearrange, stable_ascending, stable_ascending_order, lemma_stable_ascending_permutation};
use crate::text::{
    cat, cat3, chars_of, copy_str, decimal, decimal_string, is_blank, seq_starts_with, starts_with,
    text_eq, trim, trim_seq,
};
use crate::types::{
    summary_of, CreateDaemonBindingRequest, DaemonBinding, DaemonBindingSummary,
    DaemonPackageSummary, UpdateDaemonBindingRequest,
};
use crate::runs::opt_text;
use vstd::string::StringSliceAdditionalSpecFns;
use crate::validation::is_blank_seq;

verus! {

broadcast use vstd::string::group_string_axioms;

// ------------------------------------------------------------------ primary bindings

pub open spec fn conflicts_with(b: DaemonBinding, daemon_id: Seq<char>, exclude: Option<Seq<char>>) -> bool {
    b.daemon_id@ == daemon_id && exclude != Some(b.id@)
}

/// A daemon has at most one primary binding: refuses `daemon_id` when another
/// binding (not `exclude_binding_id`) already holds it, naming the first such binding.
pub fn ensure_primary_binding_available(
    bindings: &Vec<DaemonBinding>,
    daemon_id: &str,
    exclude_binding_id: Option<&str>,
) -> (r: Result<(), String>)
    ensures
        r is Ok <==> forall|i: int|
            0 <= i < bindings@.len() ==> !conflicts_with(
                #[trigger] bindings@[i],
                daemon_id@,
                exclude_binding_id.deep_view(),
            ),
        r matches Err(e) ==> exists|i: int|
            0 <= i < bindings@.len() && conflicts_with(
                #[trigger] bindings@[i],
                daemon_id@,
                exclude_binding_id.deep_view(),
            ) && (forall|j: int|
                0 <= j < i ==> !conflicts_with(
                    #[trigger] bindings@[j],
                    daemon_id@,
                    exclude_binding_id.deep_view(),
                )) && e@ == "daemon "@ + daemon_id@ + " already has primary binding "@
                + bindings@[i].id@
                + "; update or delete that binding instead of creating another"@,
{
    let mut i: usize = 0;
    while i < bindings.len()
        invariant
            0 <= i <= bindings@.len(),
            forall|j: int|
                0 <= j < i ==> !conflicts_with(
                    #[trigger] bindings@[j],
                    daemon_id@,
                    exclude_binding_id.deep_view(),
                ),
        decreases bindings@.len() - i,
    {
        let b = &bindings[i];
        let excluded = match exclude_binding_id {
            Some(x) => text_eq(x, b.id.as_str()),
            None => false,
        };
        if text_eq(b.daemon_id.as_str(), daemon_id) && !excluded {
            let mut e = cat3("daemon ", daemon_id, " already has primary binding ");
            e.append(b.id.as_str());
            e.append("; update or delete that binding instead of creating another");
            return Err(e);
        }
        i = i + 1;
    }
    Ok(())
}

/// The position of the first binding with ID `binding_id`, if any.
pub fn find_binding(bindings: &Vec<DaemonBinding>, binding_id: &str) -> (r: Option<usize>)
    ensures
        r matches Some(i) ==> i < bindings@.len() && bindings@[i as int].id@ == binding_id@ && forall|
            k: int,
        | 0 <= k < i ==> (#[trigger] bindings@[k]).id@ != binding_id@,
        r is None ==> forall|k: int| 0 <= k < bindings@.len() ==> (#[trigger] bindings@[k]).id@
            != binding_id@,
{
    let mut i: usize = 0;
    while i < bindings.len()
        invariant
            0 <= i <= bindings@.len(),
            forall|k: int| 0 <= k < i ==> (#[trigger] bindings@[k]).id@ != binding_id@,
        decreases bindings@.len() - i,
    {
        if text_eq(bindings[i].id.as_str(), binding_id) {
            return Some(i);
        }
        i = i + 1;
    }
    None
}

/// A new binding's ID must not be taken.
pub fn ensure_binding_id_available(bindings: &Vec<DaemonBinding>, binding_id: &str) -> (r: Result<
    (),
    String,
>)
    ensures
        r is Ok <==> forall|i: int| 0 <= i < bindings@.len() ==> (#[trigger] bindings@[i]).id@ != binding_id@,
        r matches Err(e) ==> e@ == "daemon binding ID already exists; retry creation"@,
{
    let mut i: usize = 0;
    while i < bindings.len()
        invariant
            0 <= i <= bindings@.len(),
            forall|j: int| 0 <= j < i ==> (#[trigger] bindings@[j]).id@ != binding_id@,
        decreases bindings@.len() - i,
    {
        if text_eq(bindings[i].id.as_str(), binding_id) {
            return Err("daemon binding ID already exists; retry creation".to_string());
        }
        i = i + 1;
    }
    Ok(())
}

/// Each daemon has at most one binding.
pub open spec fn one_binding_per_daemon(bs: Seq<DaemonBinding>) -> bool {
    forall|i: int, j: int| 0 <= i < j < bs.len() ==> (#[trigger] bs[i]).daemon_id@ != (#[trigger] bs[j]).daemon_id@
}

/// Adds a new binding to the store: its daemon must have no binding yet and its
/// ID must be unused.
pub fn add_binding(bindings: &mut Vec<DaemonBinding>, binding: DaemonBinding) -> (r: Result<
    (),
    String,
>)
    ensures
        r is Ok <==> (forall|i: int|
            0 <= i < old(bindings)@.len() ==> (#[trigger] old(bindings)@[i]).daemon_id@
                != binding.daemon_id@) && (forall|i: int|
            0 <= i < old(bindings)@.len() ==> (#[trigger] old(bindings)@[i]).id@ != binding.id@),
        r is Ok ==> final(bindings)@ == old(bindings)@.push(binding),
        r is Err ==> final(bindings)@ == old(bindings)@,
        one_binding_per_daemon(old(bindings)@) ==> one_binding_per_daemon(final(bindings)@),
{
    ensure_primary_binding_available(bindings, binding.daemon_id.as_str(), None)?;
    ensure_binding_id_available(bindings, binding.id.as_str())?;
    let ghost before = bindings@;
    bindings.push(binding);
    proof {
        assert forall|i: int, j: int| 0 <= i < j < bindings@.len() && one_binding_per_daemon(before) implies (#[trigger] bindings@[i]).daemon_id@ != (#[trigger] bindings@[j]).daemon_id@ by {
            if j < before.len() {
                assert(bindings@[i] == before[i] && bindings@[j] == before[j]);
            } else {
                assert(bindings@[i] == before[i]);
                assert(!conflicts_with(before[i], binding.daemon_id@, None));
            }
        }
    }
    Ok(())
}

// ------------------------------------------------------------------ deletion

pub open spec fn count_id(bs: Seq<DaemonBinding>, id: Seq<char>) -> nat
    decreases bs.len(),
{
    if bs.len() == 0 {
        0
    } else {
        count_id(bs.drop_last(), id) + if bs.last().id@ == id {
            1nat
        } else {
            0nat
        }
    }
}

/// The bindings whose ID is not `id`, in order.
pub open spec fn without_id(bs: Seq<DaemonBinding>, id: Seq<char>) -> Seq<DaemonBinding>
    decreases bs.len(),
{
    if bs.len() == 0 {
        Seq::empty()
    } else if bs.last().id@ == id {
        without_id(bs.drop_last(), id)
    } else {
        without_id(bs.drop_last(), id).push(bs.last())
    }
}

/// Deletes the one binding with `binding_id`; with none, or with several (a
/// legacy store), nothing is deleted.
pub fn delete_binding_record(bindings: &mut Vec<DaemonBinding>, binding_id: &str) -> (r: Result<
    (),
    String,
>)
    ensures
        count_id(old(bindings)@, binding_id@) == 0 ==> (r matches Err(e) && e@
            == "daemon binding not found"@),
        count_id(old(bindings)@, binding_id@) == 1 ==> r is Ok && final(bindings)@ == without_id(
            old(bindings)@,
            binding_id@,
        ),
        count_id(old(bindings)@, binding_id@) > 1 ==> (r matches Err(e) && e@
            == "daemon binding store contains "@ + decimal(count_id(old(bindings)@, binding_id@))
            + " records with ID "@ + binding_id@
            + "; no records were deleted. Repair the duplicate IDs, then retry deletion"@),
        r is Err ==> final(bindings)@ == old(bindings)@,
{
    let ghost original = bindings@;
    let mut count: usize = 0;
    let mut i: usize = 0;
    while i < bindings.len()
        invariant
            0 <= i <= bindings@.len(),
            bindings@ == original,
            count == count_id(original.take(i as int), binding_id@),
            count <= i,
        decreases bindings@.len() - i,
    {
        proof {
            assert(original.take(i + 1).drop_last() =~= original.take(i as int));
        }
        if text_eq(bindings[i].id.as_str(), binding_id) {
            count = count + 1;
        }
        i = i + 1;
    }
    assert(original.take(original.len() as int) =~= original);
    if count == 0 {
        return Err("daemon binding not found".to_string());
    }
    if count > 1 {
        let mut e = cat("daemon binding store contains ", decimal_string(count as u64).as_str());
        e.append(" records with ID ");
        e.append(binding_id);
        e.append("; no records were deleted. Repair the duplicate IDs, then retry deletion");
        return Err(e);
    }
    let mut kept: Vec<DaemonBinding> = Vec::new();
    let mut source: Vec<DaemonBinding> = Vec::new();
    std::mem::swap(&mut source, bindings);
    let ghost n = original.len();
    let mut k: usize = 0;
    assert(n <= usize::MAX) by {
        assert(source@.len() == source.len());
    }
    assert(source@ == original);
    assert(original.skip(0) =~= original);
    assert(original.take(0) =~= Seq::<DaemonBinding>::empty());
    assert(without_id(Seq::<DaemonBinding>::empty(), binding_id@) =~= Seq::<DaemonBinding>::empty());
    while source.len() > 0
        invariant
            n == original.len(),
            n <= usize::MAX,
            k + source@.len() == n,
            source@ == original.skip(k as int),
            kept@ == without_id(original.take(k as int), binding_id@),
        decreases source@.len(),
    {
        let ghost before = source@;
        let b = source.remove(0);
        proof {
            assert(b == before[0]);
            assert(before[0] == original.skip(k as int)[0]);
            assert(before[0] == original[k as int]);
            assert(source@ =~= original.skip(k + 1)) by {
                assert forall|m: int| 0 <= m < source@.len() implies source@[m] == original.skip(k + 1)[m] by {
                    assert(source@[m] == before[m + 1]);
                }
            }
            assert(original.take(k + 1) =~= original.take(k as int).push(b));
            assert(original.take(k as int).push(b).drop_last() =~= original.take(k as int));
        }
        if !text_eq(b.id.as_str(), binding_id) {
            kept.push(b);
        }
        k = k + 1;
    }
    assert(original.take(n as int) =~= original);
    *bindings = kept;
    Ok(())
}

// ------------------------------------------------------------------ updates

/// The canonical text of a channel UUID.
pub fn canonical_channel_id(text: &str) -> (r: Result<String, String>)
    ensures
        match uuid_canonical_text(trim_seq(text@)) {
            Some(c) => r matches Ok(s) && s@ == c,
            None => r matches Err(e) && e@ == "invalid channel UUID"@,
        },
{
    let t = trim(text);
    match uuid_parse(t.as_str()) {
        Some(id) => Ok(id),
        None => Err("invalid channel UUID".to_string()),
    }
}

/// The first complaint about a binding update, given the outcome of validating
/// the named package, of normalizing the agent key, and of canonicalizing the
/// context directory (each consulted only when the request sets that field).
pub open spec fn update_error(
    request: UpdateDaemonBindingRequest,
    package_check: Result<(), String>,
    runtime_key: Result<(String, String), String>,
    context: Result<Option<String>, String>,
) -> Option<Seq<char>> {
    if request.daemon_id is Some && package_check is Err {
        Some(package_check->Err_0@)
    } else if (request.agent_pubkey is Some || request.relay_url is Some) && runtime_key is Err {
        Some(runtime_key->Err_0@)
    } else if request.channel_id is Some && uuid_canonical_text(trim_seq(request.channel_id->0@))
        is None {
        Some("invalid channel UUID"@)
    } else if request.context_directory is Some && context is Err {
        Some(context->Err_0@)
    } else {
        None
    }
}

/// A binding updated by a request whose checks all passed.
pub open spec fn updated_binding(
    b: DaemonBinding,
    old: DaemonBinding,
    request: UpdateDaemonBindingRequest,
    runtime_key: Result<(String, String), String>,
    context: Result<Option<String>, String>,
    updated_at: String,
) -> bool {
    &&& b.id == old.id
    &&& b.daemon_id@ == match request.daemon_id {
        Some(d) => trim_seq(d@),
        None => old.daemon_id@,
    }
    &&& if request.agent_pubkey is Some || request.relay_url is Some {
        b.agent_pubkey == runtime_key->Ok_0.0 && b.relay_url == runtime_key->Ok_0.1
    } else {
        b.agent_pubkey == old.agent_pubkey && b.relay_url == old.relay_url
    }
    &&& b.channel_id@ == match request.channel_id {
        Some(c) => uuid_canonical_text(trim_seq(c@))->0,
        None => old.channel_id@,
    }
    &&& if request.context_directory is Some {
        b.context_directory == context->Ok_0 && b.context_configured == context->Ok_0 is Some
    } else {
        b.context_directory == old.context_directory && b.context_configured == old.context_configured
    }
    &&& b.schedule_enabled == match request.schedule_enabled {
        Some(e) => e,
        None => old.schedule_enabled,
    }
    &&& b.created_at == old.created_at
    &&& b.updated_at == updated_at
}

/// Applies a partial update to a binding. The caller then validates the agent
/// relationship of the result.
pub fn apply_daemon_binding_update(
    binding: DaemonBinding,
    request: UpdateDaemonBindingRequest,
    updated_at: String,
    package_check: Result<(), String>,
    runtime_key: Result<(String, String), String>,
    context: Result<Option<String>, String>,
) -> (r: Result<DaemonBinding, String>)
    ensures
        r is Err <==> update_error(request, package_check, runtime_key, context) is Some,
        r matches Err(e) ==> update_error(request, package_check, runtime_key, context) == Some(
            e@,
        ),
        r matches Ok(b) ==> updated_binding(b, binding, request, runtime_key, context, updated_at),
{
    let mut binding = binding;
    let UpdateDaemonBindingRequest {
        id: _,
        daemon_id,
        agent_pubkey,
        relay_url,
        channel_id,
        context_directory,
        schedule_enabled,
    } = request;
    if let Some(daemon_id) = daemon_id {
        package_check?;
        binding.daemon_id = trim(daemon_id.as_str());
    }
    if agent_pubkey.is_some() || relay_url.is_some() {
        let (pubkey, relay) = runtime_key?;
        binding.agent_pubkey = pubkey;
        binding.relay_url = relay;
    }
    if let Some(channel) = channel_id {
        binding.channel_id = canonical_channel_id(channel.as_str())?;
    }
    if context_directory.is_some() {
        let directory = context?;
        binding.context_configured = directory.is_some();
        binding.context_directory = directory;
    }
    if let Some(enabled) = schedule_enabled {
        binding.schedule_enabled = enabled;
    }
    binding.updated_at = updated_at;
    Ok(binding)
}

pub open spec fn same_binding(a: DaemonBinding, b: DaemonBinding) -> bool {
    &&& a.id@ == b.id@
    &&& a.daemon_id@ == b.daemon_id@
    &&& a.agent_pubkey@ == b.agent_pubkey@
    &&& a.relay_url@ == b.relay_url@
    &&& a.channel_id@ == b.channel_id@
    &&& opt_text(a.context_directory) == opt_text(b.context_directory)
    &&& a.context_configured == b.context_configured
    &&& a.schedule_enabled == b.schedule_enabled
    &&& a.created_at@ == b.created_at@
    &&& a.updated_at@ == b.updated_at@
}

pub fn bindings_equal(a: &DaemonBinding, b: &DaemonBinding) -> (r: bool)
    ensures
        r == same_binding(*a, *b),
{
    let context = match (&a.context_directory, &b.context_directory) {
        (Some(x), Some(y)) => {
            let e = *x == *y;
            e
        },
        (None, None) => true,
        _ => false,
    };
    a.id == b.id && a.daemon_id == b.daemon_id && a.agent_pubkey == b.agent_pubkey && a.relay_url
        == b.relay_url && a.channel_id == b.channel_id && context && a.context_configured
        == b.context_configured && a.schedule_enabled == b.schedule_enabled && a.created_at
        == b.created_at && a.updated_at == b.updated_at
}

/// `i` is the first position in `bs` whose binding has the id `id`.
pub open spec fn first_with_id(bs: Seq<DaemonBinding>, i: int, id: Seq<char>) -> bool {
    &&& 0 <= i < bs.len()
    &&& bs[i].id@ == id
    &&& forall|k: int| 0 <= k < i ==> (#[trigger] bs[k]).id@ != id
}

/// `j` is the first position in `bs` whose binding already holds `daemon_id`.
pub open spec fn first_conflict(
    bs: Seq<DaemonBinding>,
    j: int,
    daemon_id: Seq<char>,
    exclude: Option<Seq<char>>,
) -> bool {
    &&& 0 <= j < bs.len()
    &&& conflicts_with(bs[j], daemon_id, exclude)
    &&& forall|k: int| 0 <= k < j ==> !conflicts_with(#[trigger] bs[k], daemon_id, exclude)
}

/// The refusal given when a daemon already has a primary binding.
pub open spec fn primary_binding_message(daemon_id: Seq<char>, existing: Seq<char>) -> Seq<char> {
    "daemon "@ + daemon_id + " already has primary binding "@ + existing
        + "; update or delete that binding instead of creating another"@
}

pub open spec fn distinct_ids(bs: Seq<DaemonBinding>) -> bool {
    forall|i: int, j: int| 0 <= i < j < bs.len() ==> (#[trigger] bs[i]).id@ != (#[trigger] bs[j]).id@
}

/// Stores an updated binding in place of the one it was made from, unless the
/// store changed meanwhile or another binding holds its daemon.
pub fn commit_binding_update(
    bindings: &mut Vec<DaemonBinding>,
    original: &DaemonBinding,
    updated: DaemonBinding,
) -> (r: Result<(), String>)
    ensures
        r is Ok ==> exists|i: int|
            0 <= i < old(bindings)@.len() && (#[trigger] old(bindings)@[i]).id@ == updated.id@
                && same_binding(old(bindings)@[i], *original) && final(bindings)@ == old(
                bindings,
            )@.update(i, updated),
        r is Err ==> final(bindings)@ == old(bindings)@,
        (forall|i: int| 0 <= i < old(bindings)@.len() ==> (#[trigger] old(bindings)@[i]).id@
            != updated.id@) ==> (r matches Err(e) && e@ == "daemon binding not found"@),
        forall|i: int|
            #![trigger old(bindings)@[i]]
            first_with_id(old(bindings)@, i, updated.id@) ==> {
                if !same_binding(old(bindings)@[i], *original) {
                    r matches Err(e) && e@
                        == "daemon binding changed while validating; reload and retry the update"@
                } else if exists|j: int|
                    0 <= j < old(bindings)@.len() && conflicts_with(
                        #[trigger] old(bindings)@[j],
                        updated.daemon_id@,
                        Some(updated.id@),
                    ) {
                    r matches Err(e) && exists|j: int|
                        #![trigger old(bindings)@[j]]
                        first_conflict(old(bindings)@, j, updated.daemon_id@, Some(updated.id@))
                            && e@ == primary_binding_message(
                            updated.daemon_id@,
                            old(bindings)@[j].id@,
                        )
                } else {
                    r is Ok && final(bindings)@ == old(bindings)@.update(i, updated)
                }
            },
        one_binding_per_daemon(old(bindings)@) && distinct_ids(old(bindings)@)
            ==> one_binding_per_daemon(final(bindings)@),
{
    let mut index: usize = 0;
    while index < bindings.len() && !text_eq(bindings[index].id.as_str(), updated.id.as_str())
        invariant
            0 <= index <= bindings@.len(),
            forall|k: int| 0 <= k < index ==> (#[trigger] bindings@[k]).id@ != updated.id@,
        decreases bindings@.len() - index,
    {
        index = index + 1;
    }
    if index == bindings.len() {
        return Err("daemon binding not found".to_string());
    }
    if !bindings_equal(&bindings[index], original) {
        return Err(
            "daemon binding changed while validating; reload and retry the update".to_string(),
        );
    }
    ensure_primary_binding_available(
        bindings,
        updated.daemon_id.as_str(),
        Some(updated.id.as_str()),
    )?;
    let ghost before = bindings@;
    bindings.set(index, updated);
    proof {
        assert forall|i: int, j: int|
            0 <= i < j < bindings@.len() && one_binding_per_daemon(before) && distinct_ids(
                before,
            ) implies (#[trigger] bindings@[i]).daemon_id@ != (#[trigger] bindings@[j]).daemon_id@ by {
            if i == index {
                assert(bindings@[j] == before[j]);
                assert(!conflicts_with(before[j], updated.daemon_id@, Some(updated.id@)));
                assert(before[j].id@ != before[index as int].id@);
            } else if j == index {
                assert(bindings@[i] == before[i]);
                assert(!conflicts_with(before[i], updated.daemon_id@, Some(updated.id@)));
                assert(before[i].id@ != before[index as int].id@);
            } else {
                assert(bindings@[i] == before[i] && bindings@[j] == before[j]);
            }
        }
    }
    Ok(())
}

/// A new binding from a create request, with its agent key, channel and context
/// already normalized.
pub fn new_binding(
    id: String,
    request: &CreateDaemonBindingRequest,
    agent_pubkey: String,
    relay_url: String,
    channel_id: String,
    context_directory: Option<String>,
    now: String,
) -> (r: DaemonBinding)
    ensures
        r.id == id,
        r.daemon_id@ == trim_seq(request.daemon_id@),
        r.agent_pubkey == agent_pubkey,
        r.relay_url == relay_url,
        r.channel_id == channel_id,
        r.context_configured == context_directory is Some,
        r.context_directory == context_directory,
        r.schedule_enabled == request.schedule_enabled,
        r.created_at == now,
        r.updated_at == now,
{
    let created = now.clone();
    DaemonBinding {
        id,
        daemon_id: trim(request.daemon_id.as_str()),
        agent_pubkey,
        relay_url,
        channel_id,
        context_configured: context_directory.is_some(),
        context_directory,
        schedule_enabled: request.schedule_enabled,
        created_at: created,
        updated_at: now,
    }
}

/// Scheduling is on unless a create request turns it off.
pub fn default_true() -> (r: bool)
    ensures
        r,
{
    true
}

// ------------------------------------------------------------------ listing

pub open spec fn created_keys(bs: Seq<DaemonBinding>) -> Seq<String> {
    bs.map_values(|b: DaemonBinding| b.created_at)
}

/// Binding summaries, oldest first (stable by creation time).
pub fn list_binding_summaries(bindings: &Vec<DaemonBinding>) -> (r: Vec<DaemonBindingSummary>)
    ensures
        r@.len() == bindings@.len(),
        exists|order: Seq<usize>|
            #[trigger] stable_ascending(created_keys(bindings@), order) && forall|p: int|
                0 <= p < order.len() ==> #[trigger] r@[p] == summary_of(bindings@[order[p] as int]),
{
    let mut summaries: Vec<DaemonBindingSummary> = Vec::new();
    let mut keys: Vec<String> = Vec::new();
    let mut i: usize = 0;
    while i < bindings.len()
        invariant
            0 <= i <= bindings@.len(),
            summaries@.len() == i,
            keys@ == created_keys(bindings@).take(i as int),
            forall|k: int| 0 <= k < i ==> #[trigger] summaries@[k] == summary_of(bindings@[k]),
        decreases bindings@.len() - i,
    {
        summaries.push(DaemonBindingSummary::from(&bindings[i]));
        keys.push(bindings[i].created_at.clone());
        i = i + 1;
        assert(keys@ =~= created_keys(bindings@).take(i as int));
    }
    assert(keys@ =~= created_keys(bindings@));
    let order = stable_ascending_order(&keys);
    proof {
        lemma_stable_ascending_permutation(keys@, order@);
    }
    let ghost s = summaries@;
    let r = rearrange(summaries, &order);
    assert(forall|p: int| 0 <= p < order@.len() ==> #[trigger] r@[p] == s[order@[p] as int]);
    r
}

pub open spec fn id_keys(ps: Seq<DaemonPackageSummary>) -> Seq<String> {
    ps.map_values(|p: DaemonPackageSummary| p.id)
}

/// Package summaries ordered by ID (stable).
pub fn sort_package_summaries(packages: Vec<DaemonPackageSummary>) -> (r: Vec<DaemonPackageSummary>)
    ensures
        r@.len() == packages@.len(),
        exists|order: Seq<usize>|
            #[trigger] stable_ascending(id_keys(packages@), order) && forall|p: int|
                0 <= p < order.len() ==> #[trigger] r@[p] == packages@[order[p] as int],
{
    let mut keys: Vec<String> = Vec::new();
    let mut i: usize = 0;
    while i < packages.len()
        invariant
            0 <= i <= packages@.len(),
            keys@ == id_keys(packages@).take(i as int),
        decreases packages@.len() - i,
    {
        keys.push(packages[i].id.clone());
        i = i + 1;
        assert(keys@ =~= id_keys(packages@).take(i as int));
    }
    assert(keys@ =~= id_keys(packages@));
    let order = stable_ascending_order(&keys);
    proof {
        lemma_stable_ascending_permutation(keys@, order@);
    }
    let ghost p0 = packages@;
    let r = rearrange(packages, &order);
    assert(stable_ascending(id_keys(p0), order@));
    r
}

/// Library entries whose name starts with `.` (staging, backups) are not packages.
pub fn is_listed_package_name(name: &str) -> (r: bool)
    ensures
        r == !seq_starts_with(name@, "."@),
{
    !starts_with(name, ".")
}

// ------------------------------------------------------------------ deleting packages

/// `parts` joined with `sep`.
pub open spec fn join_with(parts: Seq<Seq<char>>, sep: Seq<char>) -> Seq<char>
    decreases parts.len(),
{
    if parts.len() == 0 {
        Seq::empty()
    } else if parts.len() == 1 {
        parts[0]
    } else {
        join_with(parts.drop_last(), sep) + sep + parts.last()
    }
}

/// IDs of the bindings of `daemon_id`, in store order.
pub open spec fn bound_ids(bs: Seq<DaemonBinding>, daemon_id: Seq<char>) -> Seq<Seq<char>>
    decreases bs.len(),
{
    if bs.len() == 0 {
        Seq::empty()
    } else if bs.last().daemon_id@ == daemon_id {
        bound_ids(bs.drop_last(), daemon_id).push(bs.last().id@)
    } else {
        bound_ids(bs.drop_last(), daemon_id)
    }
}

/// A package is deleted only when no binding uses it.
pub fn bindings_blocking_package_delete(bindings: &Vec<DaemonBinding>, daemon_id: &str) -> (r:
    Result<(), String>)
    ensures
        r is Ok <==> bound_ids(bindings@, daemon_id@).len() == 0,
        r matches Err(e) ==> e@ == "remove all "@ + decimal(bound_ids(bindings@, daemon_id@).len())
            + " daemon binding record(s) before deleting the package (binding IDs: "@ + join_with(
            bound_ids(bindings@, daemon_id@),
            ", "@,
        ) + ")"@,
{
    let mut joined = String::new();
    let mut count: usize = 0;
    let mut i: usize = 0;
    while i < bindings.len()
        invariant
            0 <= i <= bindings@.len(),
            count == bound_ids(bindings@.take(i as int), daemon_id@).len(),
            count <= i,
            joined@ == join_with(bound_ids(bindings@.take(i as int), daemon_id@), ", "@),
        decreases bindings@.len() - i,
    {
        proof {
            assert(bindings@.take(i + 1).drop_last() =~= bindings@.take(i as int));
        }
        if text_eq(bindings[i].daemon_id.as_str(), daemon_id) {
            if count > 0 {
                joined.append(", ");
            }
            joined.append(bindings[i].id.as_str());
            count = count + 1;
            proof {
                let ids = bound_ids(bindings@.take(i + 1), daemon_id@);
                assert(ids.drop_last() == bound_ids(bindings@.take(i as int), daemon_id@));
                if count == 1 {
                    assert(ids.len() == 1);
                }
            }
        }
        i = i + 1;
    }
    assert(bindings@.take(bindings@.len() as int) =~= bindings@);
    if count == 0 {
        return Ok(());
    }
    let mut e = cat3(
        "remove all ",
        decimal_string(count as u64).as_str(),
        " daemon binding record(s) before deleting the package (binding IDs: ",
    );
    e.append(joined.as_str());
    e.append(")");
    Err(e)
}

// ------------------------------------------------------------------ sources, contexts, agents

/// An import needs a source path.
pub fn require_import_source(path: &str) -> (r: Result<(), String>)
    ensures
        r is Ok <==> !is_blank_seq(path@),
        r matches Err(e) ==> e@ == "import source path is required"@,
{
    if is_blank(path) {
        return Err("import source path is required".to_string());
    }
    Ok(())
}

/// The context directory to canonicalize: the trimmed text, unless absent or blank.
pub open spec fn context_target_spec(value: Option<Seq<char>>) -> Option<Seq<char>> {
    match value {
        Some(v) => if is_blank_seq(v) {
            None
        } else {
            Some(trim_seq(v))
        },
        None => None,
    }
}

pub fn context_target(value: Option<&str>) -> (r: Option<String>)
    ensures
        opt_text(r) == context_target_spec(value.deep_view()),
{
    match value {
        Some(v) => {
            let t = trim(v);
            if t.as_str().is_empty() {
                None
            } else {
                Some(t)
            }
        },
        None => None,
    }
}

/// The context directory of a binding that must still resolve when it runs.
pub fn revalidate_binding_context(binding: &DaemonBinding) -> (r: Option<String>)
    ensures
        opt_text(r) == context_target_spec(opt_text(binding.context_directory)),
{
    match &binding.context_directory {
        Some(d) => context_target(Some(d.as_str())),
        None => None,
    }
}

/// Accepts a canonicalized context directory: an existing, non-symlink
/// directory whose path is UTF-8.
pub fn accept_context_directory(is_dir: bool, is_symlink: bool, path: Option<String>) -> (r: Result<
    Option<String>,
    String,
>)
    ensures
        !is_dir || is_symlink ==> (r matches Err(e) && e@
            == "daemon context must be an existing non-symlink directory"@),
        is_dir && !is_symlink && path is None ==> (r matches Err(e) && e@
            == "daemon context directory must be valid UTF-8"@),
        is_dir && !is_symlink && path is Some ==> r == Ok::<Option<String>, String>(path),
{
    if !is_dir || is_symlink {
        return Err("daemon context must be an existing non-symlink directory".to_string());
    }
    match path {
        Some(p) => Ok(Some(p)),
        None => Err("daemon context directory must be valid UTF-8".to_string()),
    }
}

/// `s.trim_end_matches('/')`.
pub open spec fn strip_trailing_slashes(s: Seq<char>) -> Seq<char>
    decreases s.len(),
{
    if s.len() > 0 && s.last() == '/' {
        strip_trailing_slashes(s.drop_last())
    } else {
        s
    }
}

/// Two relay URLs name the same relay when they agree once trailing slashes are dropped.
pub open spec fn relays_match_spec(a: Seq<char>, b: Seq<char>) -> bool {
    strip_trailing_slashes(a) == strip_trailing_slashes(b)
}

pub fn relays_match(a: &str, b: &str) -> (r: bool)
    ensures
        r == relays_match_spec(a@, b@),
{
    let x = strip_slashes(a);
    let y = strip_slashes(b);
    x == y
}

/// `s.trim_end_matches('/')`.
pub fn strip_slashes(s: &str) -> (r: String)
    ensures
        r@ == strip_trailing_slashes(s@),
{
    let v = chars_of(s);
    let mut j = v.len();
    assert(v@.take(j as int) =~= v@);
    while j > 0 && v[j - 1] == '/'
        invariant
            0 <= j <= v@.len(),
            strip_trailing_slashes(v@.take(j as int)) == strip_trailing_slashes(v@),
        decreases j,
    {
        assert(v@.take(j as int).drop_last() =~= v@.take(j - 1));
        j = j - 1;
    }
    let r = crate::text::string_of_range(&v, 0, j);
    assert(v@.subrange(0, j as int) =~= v@.take(j as int));
    r
}

pub open spec fn ascii_lower(b: u8) -> u8 {
    if 65 <= b <= 90 {
        (b + 32) as u8
    } else {
        b
    }
}

/// `str::eq_ignore_ascii_case` on the UTF-8 bytes.
pub open spec fn eq_ignore_ascii_case(a: Seq<u8>, b: Seq<u8>) -> bool {
    a.len() == b.len() && forall|i: int| 0 <= i < a.len() ==> ascii_lower(#[trigger] a[i]) == ascii_lower(b[i])
}

pub fn ascii_eq_ignore_case(a: &str, b: &str) -> (r: bool)
    ensures
        r == eq_ignore_ascii_case(a.spec_bytes(), b.spec_bytes()),
{
    let x = a.as_bytes();
    let y = b.as_bytes();
    if x.len() != y.len() {
        return false;
    }
    let mut i: usize = 0;
    while i < x.len()
        invariant
            0 <= i <= x@.len(),
            x@.len() == y@.len(),
            x@ == a.spec_bytes(),
            y@ == b.spec_bytes(),
            forall|k: int| 0 <= k < i ==> ascii_lower(#[trigger] x@[k]) == ascii_lower(y@[k]),
        decreases x@.len() - i,
    {
        let p = x[i];
        let q = y[i];
        let lp = if 65 <= p && p <= 90 {
            p + 32
        } else {
            p
        };
        let lq = if 65 <= q && q <= 90 {
            q + 32
        } else {
            q
        };
        if lp != lq {
            assert(ascii_lower(x@[i as int]) != ascii_lower(y@[i as int]));
            return false;
        }
        i = i + 1;
    }
    true
}

/// A managed agent as a binding sees it.
#[derive(Debug, Clone, PartialEq, Eq)]
pub struct ManagedAgentRef {
    pub pubkey: String,
    pub relay_url: String,
}

// ---------------------------------------------------------------- key lookup

/// Index of the first item whose key (by `key`) matches `pubkey` ignoring ASCII case.
pub open spec fn first_key_match<A>(items: Seq<A>, key: spec_fn(A) -> Seq<char>, pubkey: Seq<u8>) -> Option<int>
    decreases items.len(),
{
    if items.len() == 0 {
        None
    } else {
        match first_key_match(items.drop_last(), key, pubkey) {
            Some(i) => Some(i),
            None => if eq_ignore_ascii_case(vstd::utf8::encode_utf8(key(items.last())), pubkey) {
                Some(items.len() - 1)
            } else {
                None
            },
        }
    }
}

/// A first match found in a prefix is the first match of the whole sequence.
pub proof fn lemma_first_key_match_prefix<A>(
    items: Seq<A>,
    key: spec_fn(A) -> Seq<char>,
    pubkey: Seq<u8>,
    n: int,
)
    requires
        0 < n <= items.len(),
        first_key_match(items.take(n), key, pubkey) == Some(n - 1),
    ensures
        first_key_match(items, key, pubkey) == Some(n - 1),
    decreases items.len(),
{
    if n < items.len() {
        assert(items.drop_last().take(n) =~= items.take(n));
        lemma_first_key_match_prefix(items.drop_last(), key, pubkey, n);
    } else {
        assert(items.take(n) =~= items);
    }
}

/// The agent a binding names: the first whose key matches ignoring ASCII case,
/// which must sit on the binding's relay (trailing slashes aside).
pub open spec fn first_agent_index(agents: Seq<ManagedAgentRef>, pubkey: Seq<u8>) -> Option<int> {
    first_key_match(agents, |a: ManagedAgentRef| a.pubkey@, pubkey)
}

pub fn select_binding_agent(agents: &Vec<ManagedAgentRef>, pubkey: &str, relay_url: &str) -> (r:
    Result<usize, String>)
    ensures
        first_agent_index(agents@, pubkey.spec_bytes()) is None ==> (r matches Err(e) && e@
            == "managed agent not found"@),
        first_agent_index(agents@, pubkey.spec_bytes()) matches Some(i) ==> {
            if relays_match_spec(agents@[i].relay_url@, relay_url@) {
                r == Ok::<usize, String>(i as usize)
            } else {
                r matches Err(e) && e@
                    == "daemon binding relay must match the selected managed agent relay"@
            }
        },
{
    let mut i: usize = 0;
    while i < agents.len()
        invariant
            0 <= i <= agents@.len(),
            first_agent_index(agents@.take(i as int), pubkey.spec_bytes()) is None,
        decreases agents@.len() - i,
    {
        proof {
            assert(agents@.take(i + 1).drop_last() =~= agents@.take(i as int));
        }
        if ascii_eq_ignore_case(agents[i].pubkey.as_str(), pubkey) {
            proof {
                lemma_first_key_match_prefix(
                    agents@,
                    |a: ManagedAgentRef| a.pubkey@,
                    pubkey.spec_bytes(),
                    i as int + 1,
                );
            }
            if relays_match(agents[i].relay_url.as_str(), relay_url) {
                return Ok(i);
            }
            return Err("daemon binding relay must match the selected managed agent relay".to_string());
        }
        i = i + 1;
    }
    assert(agents@.take(agents@.len() as int) =~= agents@);
    Err("managed agent not found".to_string())
}

} // verus!
