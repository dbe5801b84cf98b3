//! Sandboxes as the orchestrator knows them and as replies show them.

use vstd::prelude::*;

use crate::ident::SandboxId;
use crate::json::Json;
use crate::network;
use crate::network::{
    allow_internet_access_from_base_policy, network_config, Nullable, SandboxNetworkConfig,
    SandboxNetworkPolicy,
};
use crate::text_map::TextMap;

verus! {

/// The state of a sandbox.
#[derive(Debug, Clone, Copy, PartialEq, Eq, Structural)]
pub enum SandboxState {
    Creating,
    Resuming,
    Running,
    Snapshotting,
    Forking,
    Pausing,
    Paused,
    Killing,
    CleanupPending,
}

/// The state of a sandbox as replies show it.
#[derive(Debug, Clone, Copy, PartialEq, Eq, Structural)]
pub enum PublicState {
    Running,
    Paused,
    CleanupPending,
}

/// How a reply shows a state.
pub open spec fn shown_state(state: SandboxState) -> PublicState {
    match state {
        SandboxState::CleanupPending => PublicState::CleanupPending,
        SandboxState::Pausing => PublicState::Paused,
        SandboxState::Paused => PublicState::Paused,
        SandboxState::Snapshotting => PublicState::Paused,
        SandboxState::Forking => PublicState::Paused,
        SandboxState::Creating => PublicState::Running,
        SandboxState::Resuming => PublicState::Running,
        SandboxState::Running => PublicState::Running,
        SandboxState::Killing => PublicState::Running,
    }
}

/// How a reply shows a state.
pub fn public_state(state: SandboxState) -> (shown: PublicState)
    ensures
        shown == shown_state(state),
{
    match state {
        SandboxState::CleanupPending => PublicState::CleanupPending,
        SandboxState::Pausing | SandboxState::Paused | SandboxState::Snapshotting
        | SandboxState::Forking => PublicState::Paused,
        _ => PublicState::Running,
    }
}

/// An instant: seconds and nanoseconds since the start of 1970 in UTC.
#[derive(Debug, Clone, Copy, PartialEq, Eq, Structural)]
pub struct Timestamp {
    pub secs: i64,
    pub nanos: u32,
}

/// When a sandbox was started, as replies show it.
pub fn started_at(created_at: Timestamp) -> (at: Timestamp)
    ensures
        at == created_at,
{
    created_at
}

/// When a sandbox ends, as replies show it: the distant future for one that does
/// not expire, a hundred years of 365 days after the start of 1970.
pub fn end_at(expires_at: Option<Timestamp>) -> (at: Timestamp)
    ensures
        at == shown_end(expires_at),
{
    match expires_at {
        Some(at) => at,
        None => Timestamp { secs: 60 * 60 * 24 * 365 * 100, nanos: 0 },
    }
}

/// When a sandbox ends, as replies show it.
pub open spec fn shown_end(expires_at: Option<Timestamp>) -> Timestamp {
    match expires_at {
        Some(at) => at,
        None => Timestamp { secs: 3_153_600_000, nanos: 0 },
    }
}

/// What a sandbox is given.
#[derive(Debug, Clone, Copy, PartialEq, Eq, Structural)]
pub struct SandboxResources {
    pub cpu_count: u32,
    pub memory_mib: u32,
    pub disk_size_mib: u32,
}

/// What happens to a sandbox when its time is up.
#[derive(Debug, Clone, Copy, PartialEq, Eq, Structural)]
pub enum SandboxTimeoutAction {
    Pause,
    Delete,
}

/// What happens to a sandbox when its time is up, as replies show it.
#[derive(Debug, Clone, Copy, PartialEq, Eq, Structural)]
pub enum SandboxOnTimeout {
    Pause,
    Kill,
}

/// How a reply shows what happens to a sandbox when its time is up.
pub open spec fn shown_on_timeout(action: SandboxTimeoutAction) -> SandboxOnTimeout {
    match action {
        SandboxTimeoutAction::Pause => SandboxOnTimeout::Pause,
        SandboxTimeoutAction::Delete => SandboxOnTimeout::Kill,
    }
}

/// How a reply shows what happens to a sandbox when its time is up.
pub fn on_timeout(action: SandboxTimeoutAction) -> (shown: SandboxOnTimeout)
    ensures
        shown == shown_on_timeout(action),
{
    match action {
        SandboxTimeoutAction::Pause => SandboxOnTimeout::Pause,
        SandboxTimeoutAction::Delete => SandboxOnTimeout::Kill,
    }
}

/// What the orchestrator knows of a sandbox.
#[derive(Debug)]
pub struct SandboxMetadata {
    pub id: SandboxId,
    pub snapshot_id: String,
    pub snapshot_alias: Option<String>,
    pub created_at: Timestamp,
    pub expires_at: Option<Timestamp>,
    pub resources: SandboxResources,
    pub user_metadata: Option<TextMap>,
    pub state: SandboxState,
    pub envd_version: String,
    pub volume_mounts: TextMap,
    pub network_policy: SandboxNetworkPolicy,
    pub auto_resume: bool,
    pub timeout_action: SandboxTimeoutAction,
    pub custom_extension_params: Option<Vec<(String, Json)>>,
}

/// A sandbox in a list.
#[derive(Debug)]
pub struct ListedSandbox {
    pub template_id: String,
    pub alias: Option<String>,
    pub sandbox_id: String,
    pub client_id: String,
    pub started_at: Timestamp,
    pub end_at: Timestamp,
    pub cpu_count: u32,
    pub memory_mb: u32,
    pub disk_size_mb: u32,
    pub metadata: Option<TextMap>,
    pub state: PublicState,
    pub envd_version: String,
    pub volume_mounts: Option<TextMap>,
}

/// A sandbox that was created or resumed.
#[derive(Debug)]
pub struct Sandbox {
    pub template_id: String,
    pub sandbox_id: String,
    pub alias: Option<String>,
    pub client_id: String,
    pub envd_version: String,
    pub envd_access_token: Option<String>,
    pub traffic_access_token: Option<Nullable<String>>,
    pub domain: Option<Nullable<String>>,
}

/// What a sandbox does over time.
#[derive(Debug, Clone, Copy, PartialEq, Eq, Structural)]
pub struct SandboxLifecycle {
    pub auto_resume: bool,
    pub on_timeout: SandboxOnTimeout,
}

/// A sandbox in detail.
#[derive(Debug)]
pub struct SandboxDetail {
    pub template_id: String,
    pub alias: Option<String>,
    pub sandbox_id: String,
    pub client_id: String,
    pub started_at: Timestamp,
    pub end_at: Timestamp,
    pub envd_version: String,
    pub envd_access_token: Option<String>,
    pub allow_internet_access: Option<Nullable<bool>>,
    pub domain: Option<Nullable<String>>,
    pub cpu_count: u32,
    pub memory_mb: u32,
    pub disk_size_mb: u32,
    pub metadata: Option<TextMap>,
    pub state: PublicState,
    pub network: Option<SandboxNetworkConfig>,
    pub lifecycle: Option<SandboxLifecycle>,
    pub volume_mounts: Option<TextMap>,
}

/// How a reply shows volume mounts: not at all where there are none.
pub fn volume_mounts_model(mounts: TextMap) -> (shown: Option<TextMap>)
    ensures
        shown == shown_mounts(mounts),
{
    if mounts.is_empty() {
        None
    } else {
        Some(mounts)
    }
}

/// How a reply shows volume mounts.
pub open spec fn shown_mounts(mounts: TextMap) -> Option<TextMap> {
    if mounts.list().len() == 0 {
        None
    } else {
        Some(mounts)
    }
}

/// How a list shows a sandbox.
pub fn listed_sandbox(m: SandboxMetadata) -> (listed: ListedSandbox)
    ensures
        shows_listed(listed, m),
{
    ListedSandbox {
        volume_mounts: volume_mounts_model(m.volume_mounts),
        template_id: m.snapshot_id,
        alias: m.snapshot_alias,
        sandbox_id: m.id.to_text(),
        client_id: "".to_owned(),
        started_at: started_at(m.created_at),
        end_at: end_at(m.expires_at),
        cpu_count: m.resources.cpu_count,
        memory_mb: m.resources.memory_mib,
        disk_size_mb: m.resources.disk_size_mib,
        metadata: m.user_metadata,
        state: public_state(m.state),
        envd_version: m.envd_version,
    }
}

/// Whether an entry of a list shows a sandbox.
pub open spec fn shows_listed(listed: ListedSandbox, m: SandboxMetadata) -> bool {
    &&& listed.template_id == m.snapshot_id
    &&& listed.alias == m.snapshot_alias
    &&& listed.sandbox_id@ == m.id.text()
    &&& listed.client_id@ == ""@
    &&& listed.started_at == m.created_at
    &&& listed.end_at == shown_end(m.expires_at)
    &&& listed.cpu_count == m.resources.cpu_count
    &&& listed.memory_mb == m.resources.memory_mib
    &&& listed.disk_size_mb == m.resources.disk_size_mib
    &&& listed.metadata == m.user_metadata
    &&& listed.state == shown_state(m.state)
    &&& listed.envd_version == m.envd_version
    &&& listed.volume_mounts == shown_mounts(m.volume_mounts)
}

/// What of a sandbox is not kept in its metadata: its access tokens and the
/// domains that it is reached under.
#[derive(Debug)]
pub struct SandboxAccess {
    pub envd_access_token: Option<String>,
    /// The token for private traffic. It is shown only where public traffic is
    /// not allowed.
    pub traffic_access_token: String,
    pub proxy_domains: Vec<String>,
}

/// Whether a reply has to carry the token for private traffic.
pub fn needs_traffic_token(m: &SandboxMetadata) -> (needed: bool)
    ensures
        needed == !m.network_policy.allow_public_traffic,
{
    !m.network_policy.allow_public_traffic
}

fn first_domain(domains: &Vec<String>) -> (domain: Option<Nullable<String>>)
    ensures
        shows_domain(domain, domains@),
{
    if domains.len() == 0 {
        None
    } else {
        Some(Nullable::Present(domains[0].clone()))
    }
}

/// Whether a reply shows the first of the domains, or none where there is none.
pub open spec fn shows_domain(domain: Option<Nullable<String>>, domains: Seq<String>) -> bool {
    if domains.len() == 0 {
        domain is None
    } else {
        domain == Some(Nullable::Present(domains[0]))
    }
}

/// How a reply shows a sandbox that was created or resumed.
pub fn sandbox_model(m: SandboxMetadata, access: SandboxAccess) -> (sandbox: Sandbox)
    ensures
        shows_sandbox(sandbox, m, access),
{
    let domain = first_domain(&access.proxy_domains);
    Sandbox {
        template_id: m.snapshot_id,
        sandbox_id: m.id.to_text(),
        alias: m.snapshot_alias,
        client_id: "".to_owned(),
        envd_version: m.envd_version,
        envd_access_token: access.envd_access_token,
        traffic_access_token: Some(
            if m.network_policy.allow_public_traffic {
                Nullable::Null
            } else {
                Nullable::Present(access.traffic_access_token)
            },
        ),
        domain,
    }
}

/// Whether a reply shows a sandbox that was created or resumed.
pub open spec fn shows_sandbox(sandbox: Sandbox, m: SandboxMetadata, access: SandboxAccess) -> bool {
    &&& sandbox.template_id == m.snapshot_id
    &&& sandbox.sandbox_id@ == m.id.text()
    &&& sandbox.alias == m.snapshot_alias
    &&& sandbox.client_id@ == ""@
    &&& sandbox.envd_version == m.envd_version
    &&& sandbox.envd_access_token == access.envd_access_token
    &&& sandbox.traffic_access_token == Some(
        if m.network_policy.allow_public_traffic {
            Nullable::Null
        } else {
            Nullable::Present(access.traffic_access_token)
        },
    )
    &&& shows_domain(sandbox.domain, access.proxy_domains@)
}

/// How a reply shows a sandbox in detail. The network is shown only where it is
/// restricted.
pub fn sandbox_detail_model(m: SandboxMetadata, access: SandboxAccess) -> (detail: SandboxDetail)
    ensures
        shows_detail(detail, m, access),
{
    let domain = first_domain(&access.proxy_domains);
    let network = if !m.network_policy.allow_public_traffic
        || m.network_policy.has_explicit_egress_rules() {
        Some(network_config(&m.network_policy))
    } else {
        None
    };
    SandboxDetail {
        allow_internet_access: Some(
            allow_internet_access_from_base_policy(m.network_policy.base_policy),
        ),
        network,
        volume_mounts: volume_mounts_model(m.volume_mounts),
        template_id: m.snapshot_id,
        alias: m.snapshot_alias,
        sandbox_id: m.id.to_text(),
        client_id: "".to_owned(),
        started_at: started_at(m.created_at),
        end_at: end_at(m.expires_at),
        envd_version: m.envd_version,
        envd_access_token: access.envd_access_token,
        domain,
        cpu_count: m.resources.cpu_count,
        memory_mb: m.resources.memory_mib,
        disk_size_mb: m.resources.disk_size_mib,
        metadata: m.user_metadata,
        state: public_state(m.state),
        lifecycle: Some(
            SandboxLifecycle {
                auto_resume: m.auto_resume,
                on_timeout: on_timeout(m.timeout_action),
            },
        ),
    }
}

/// Whether a reply shows a network policy.
pub open spec fn shows_network(
    config: Option<SandboxNetworkConfig>,
    policy: SandboxNetworkPolicy,
) -> bool {
    if !policy.allow_public_traffic || policy.restricts_egress() {
        &&& config is Some
        &&& (config->0).allow_public_traffic == Some(policy.allow_public_traffic)
        &&& (config->0).mask_request_host is None
        &&& network::optional_texts((config->0).allow_out) == network::shown_allow_out(policy.egress)
        &&& network::optional_texts((config->0).deny_out) == network::shown_deny_out(policy.egress)
    } else {
        config is None
    }
}

/// Whether a reply shows a sandbox in detail.
pub open spec fn shows_detail(
    detail: SandboxDetail,
    m: SandboxMetadata,
    access: SandboxAccess,
) -> bool {
    &&& detail.template_id == m.snapshot_id
    &&& detail.alias == m.snapshot_alias
    &&& detail.sandbox_id@ == m.id.text()
    &&& detail.client_id@ == ""@
    &&& detail.started_at == m.created_at
    &&& detail.end_at == shown_end(m.expires_at)
    &&& detail.envd_version == m.envd_version
    &&& detail.envd_access_token == access.envd_access_token
    &&& detail.allow_internet_access == Some(network::internet_access(m.network_policy.base_policy))
    &&& shows_domain(detail.domain, access.proxy_domains@)
    &&& detail.cpu_count == m.resources.cpu_count
    &&& detail.memory_mb == m.resources.memory_mib
    &&& detail.disk_size_mb == m.resources.disk_size_mib
    &&& detail.metadata == m.user_metadata
    &&& detail.state == shown_state(m.state)
    &&& shows_network(detail.network, m.network_policy)
    &&& detail.lifecycle == Some(
        SandboxLifecycle {
            auto_resume: m.auto_resume,
            on_timeout: shown_on_timeout(m.timeout_action),
        },
    )
    &&& detail.volume_mounts == shown_mounts(m.volume_mounts)
}

} // verus!
