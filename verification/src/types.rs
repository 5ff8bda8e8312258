//! Data types shared by the daemon library, its binding store and its run history.
use vstd::prelude::*;
use vstd::std_specs::convert::FromSpecImpl;

verus! {

/// Which wake sources a daemon policy declares.
#[derive(Debug, Clone, Copy, PartialEq, Eq, Structural)]
pub enum DaemonActivationMode {
    WatchOnly,
    ScheduleOnly,
    Hybrid,
}

/// A validated, canonical DAEMON.md policy.
#[derive(Debug, Clone, PartialEq, Eq)]
pub struct DaemonPolicy {
    pub id: String,
    pub purpose: String,
    pub watch: Vec<String>,
    pub routines: Vec<String>,
    pub deny: Vec<String>,
    pub schedule: Option<String>,
    pub body: String,
    pub activation_mode: DaemonActivationMode,
}

/// The metadata keys that DAEMON.md frontmatter may hold, as decoded from YAML.
#[derive(Debug, Clone, PartialEq, Eq)]
pub struct DaemonFrontmatter {
    pub id: String,
    pub purpose: String,
    pub watch: Vec<String>,
    pub routines: Vec<String>,
    pub deny: Vec<String>,
    pub schedule: Option<String>,
}

#[derive(Debug, Clone, PartialEq, Eq)]
pub struct UpdateDaemonPackageRequest {
    pub daemon_id: String,
    pub daemon_md: String,
}

#[derive(Debug, Clone, PartialEq, Eq)]
pub struct DaemonPackageSummary {
    pub id: String,
    pub purpose: String,
    pub activation_mode: DaemonActivationMode,
    pub package_hash: String,
    pub watch_count: usize,
    pub routine_count: usize,
    pub has_scripts: bool,
    pub has_references: bool,
}

#[derive(Debug, Clone, PartialEq, Eq)]
pub struct DaemonPackageDetail {
    pub summary: DaemonPackageSummary,
    pub daemon_md: String,
}

#[derive(Debug, Clone, PartialEq, Eq)]
pub struct CreateDaemonPackageRequest {
    pub daemon_md: String,
    pub files: Vec<DaemonPackageFileInput>,
}

#[derive(Debug, Clone, PartialEq, Eq)]
pub struct DaemonPackageFileInput {
    pub path: String,
    pub bytes: Vec<u8>,
    pub executable: bool,
}

#[derive(Debug, Clone, PartialEq, Eq)]
pub struct ImportDaemonPackageRequest {
    pub source_path: String,
    pub replace: bool,
}

/// A loaded, validated package: where it lives, its DAEMON.md text and policy,
/// and the content hash over its files.
#[derive(Debug, Clone, PartialEq, Eq)]
pub struct LoadedDaemonPackage {
    pub directory: String,
    pub daemon_md: String,
    pub policy: DaemonPolicy,
    pub package_hash: String,
    pub has_scripts: bool,
    pub has_references: bool,
}

/// The primary binding of a daemon package to a managed agent and output channel.
#[derive(Debug, Clone, PartialEq, Eq)]
pub struct DaemonBinding {
    pub id: String,
    pub daemon_id: String,
    pub agent_pubkey: String,
    pub relay_url: String,
    pub channel_id: String,
    pub context_directory: Option<String>,
    pub context_configured: bool,
    pub schedule_enabled: bool,
    pub created_at: String,
    pub updated_at: String,
}

#[derive(Debug, Clone, PartialEq, Eq)]
pub struct DaemonBindingSummary {
    pub id: String,
    pub daemon_id: String,
    pub agent_pubkey: String,
    pub relay_url: String,
    pub channel_id: String,
    pub context_configured: bool,
    pub schedule_enabled: bool,
    pub created_at: String,
    pub updated_at: String,
}

pub open spec fn summary_of(b: DaemonBinding) -> DaemonBindingSummary {
    DaemonBindingSummary {
        id: b.id,
        daemon_id: b.daemon_id,
        agent_pubkey: b.agent_pubkey,
        relay_url: b.relay_url,
        channel_id: b.channel_id,
        context_configured: b.context_configured,
        schedule_enabled: b.schedule_enabled,
        created_at: b.created_at,
        updated_at: b.updated_at,
    }
}

impl<'a> From<&'a DaemonBinding> for DaemonBindingSummary {
    fn from(value: &'a DaemonBinding) -> (r: Self) {
        DaemonBindingSummary {
            id: value.id.clone(),
            daemon_id: value.daemon_id.clone(),
            agent_pubkey: value.agent_pubkey.clone(),
            relay_url: value.relay_url.clone(),
            channel_id: value.channel_id.clone(),
            context_configured: value.context_configured,
            schedule_enabled: value.schedule_enabled,
            created_at: value.created_at.clone(),
            updated_at: value.updated_at.clone(),
        }
    }
}

impl<'a> FromSpecImpl<&'a DaemonBinding> for DaemonBindingSummary {
    open spec fn obeys_from_spec() -> bool {
        true
    }

    open spec fn from_spec(v: &'a DaemonBinding) -> Self {
        summary_of(*v)
    }
}

#[derive(Debug, Clone, PartialEq, Eq)]
pub struct CreateDaemonBindingRequest {
    pub daemon_id: String,
    pub agent_pubkey: String,
    pub relay_url: String,
    pub channel_id: String,
    pub context_directory: Option<String>,
    pub schedule_enabled: bool,
}

/// A partial update of a binding. `context_directory` tells an omitted field
/// (`None`) apart from an explicit clear (`Some(None)`).
#[derive(Debug, Clone, Default, PartialEq, Eq)]
pub struct UpdateDaemonBindingRequest {
    pub id: String,
    pub daemon_id: Option<String>,
    pub agent_pubkey: Option<String>,
    pub relay_url: Option<String>,
    pub channel_id: Option<String>,
    pub context_directory: Option<Option<String>>,
    pub schedule_enabled: Option<bool>,
}

#[derive(Debug, Clone, Copy, PartialEq, Eq, Structural)]
pub enum DaemonRunTrigger {
    Manual,
    Watch,
    Schedule,
}

impl Default for DaemonRunTrigger {
    fn default() -> (r: Self)
        ensures
            r == DaemonRunTrigger::Manual,
    {
        DaemonRunTrigger::Manual
    }
}

#[derive(Debug, Clone, PartialEq, Eq)]
pub struct RunManagedDaemonRequest {
    pub run_id: String,
    pub binding_id: String,
    pub wake_instruction: String,
    pub trigger: DaemonRunTrigger,
    pub scheduled_for_utc: Option<String>,
}

/// Where a durable run record stands: reserved, running, publishing its
/// output, or terminal (immutable).
#[derive(Debug, Clone, Copy, PartialEq, Eq, Structural)]
pub enum DaemonRunLifecycle {
    Reserved,
    Running,
    Publishing,
    Terminal,
}

#[derive(Debug, Clone, Copy, PartialEq, Eq, Structural)]
pub enum DaemonRunStatus {
    Succeeded,
    NoOp,
    Failed,
    Cancelled,
    Interrupted,
    Missed,
    SkippedOverlap,
    SkippedUnready,
}

#[derive(Debug, Clone, Copy, PartialEq, Eq, Structural)]
pub enum DaemonScheduleReadiness {
    Ready,
    Disabled,
    WatchOnly,
    MissingPackage,
    InvalidSchedule,
    MissingAgent,
    RelayMismatch,
    ChannelUnavailable,
    UnsupportedRuntime,
    AgentNotReady,
    InvalidContext,
}

#[derive(Debug, Clone, Copy, PartialEq, Eq, Structural)]
pub enum DaemonSchedulerDecisionKind {
    Ready,
    Executed,
    Missed,
    SkippedOverlap,
    SkippedUnready,
    Disabled,
    WatchOnly,
}

#[derive(Debug, Clone, PartialEq, Eq)]
pub struct DaemonSchedulerDecision {
    pub kind: DaemonSchedulerDecisionKind,
    pub decided_at_utc: String,
    pub scheduled_for_utc: Option<String>,
    pub diagnostic: Option<String>,
}

#[derive(Debug, Clone, PartialEq, Eq)]
pub struct DaemonScheduleStatus {
    pub binding_id: String,
    pub schedule: Option<String>,
    pub schedule_hash: Option<String>,
    pub readiness: DaemonScheduleReadiness,
    pub readiness_reason: Option<String>,
    pub next_occurrence_utc: Option<String>,
    pub last_decision: Option<DaemonSchedulerDecision>,
}

/// The binding fields that a run record freezes at reservation time.
#[derive(Debug, Clone, PartialEq, Eq)]
pub struct DaemonBindingSnapshot {
    pub binding_id: String,
    pub daemon_id: String,
    pub agent_pubkey: String,
    pub relay_url: String,
    pub channel_id: String,
    pub context_configured: bool,
    pub schedule_enabled: bool,
}

pub open spec fn snapshot_of(b: DaemonBinding) -> DaemonBindingSnapshot {
    DaemonBindingSnapshot {
        binding_id: b.id,
        daemon_id: b.daemon_id,
        agent_pubkey: b.agent_pubkey,
        relay_url: b.relay_url,
        channel_id: b.channel_id,
        context_configured: b.context_configured,
        schedule_enabled: b.schedule_enabled,
    }
}

impl<'a> From<&'a DaemonBinding> for DaemonBindingSnapshot {
    fn from(value: &'a DaemonBinding) -> (r: Self) {
        DaemonBindingSnapshot {
            binding_id: value.id.clone(),
            daemon_id: value.daemon_id.clone(),
            agent_pubkey: value.agent_pubkey.clone(),
            relay_url: value.relay_url.clone(),
            channel_id: value.channel_id.clone(),
            context_configured: value.context_configured,
            schedule_enabled: value.schedule_enabled,
        }
    }
}

impl<'a> FromSpecImpl<&'a DaemonBinding> for DaemonBindingSnapshot {
    open spec fn obeys_from_spec() -> bool {
        true
    }

    open spec fn from_spec(v: &'a DaemonBinding) -> Self {
        snapshot_of(*v)
    }
}

/// A durable run record (receipt) of one daemon activation.
#[derive(Debug, Clone, PartialEq, Eq)]
pub struct DaemonRunRecord {
    pub run_id: String,
    pub binding_id: String,
    pub daemon_id: String,
    pub package_hash: Option<String>,
    pub policy_hash: Option<String>,
    pub fingerprint: String,
    pub wake_hash: String,
    pub binding: DaemonBindingSnapshot,
    pub trigger: DaemonRunTrigger,
    pub scheduled_for_utc: Option<String>,
    pub lifecycle: DaemonRunLifecycle,
    pub status: Option<DaemonRunStatus>,
    pub reserved_at: String,
    pub started_at: Option<String>,
    pub publishing_at: Option<String>,
    pub completed_at: Option<String>,
    pub acp_session_id: Option<String>,
    pub output_event_id: Option<String>,
    pub diagnostic: Option<String>,
}

/// A direct-run receipt (kept under `daemon-runs/`), as history shows it.
#[derive(Debug, Clone, PartialEq, Eq)]
pub struct LegacyDaemonRunRecord {
    pub run_id: String,
    pub daemon_id: String,
    pub status: DaemonRunStatus,
    pub started_at: String,
    pub completed_at: String,
    pub acp_session_id: Option<String>,
    pub output_event_id: Option<String>,
    pub diagnostic: Option<String>,
}

#[derive(Debug, Clone, PartialEq, Eq)]
pub enum DaemonHistoryEntry {
    Managed(Box<DaemonRunRecord>),
    Legacy(LegacyDaemonRunRecord),
}

} // verus!
