use std::collections::HashMap;

use agentenv::allocation::{AllocationReceipt, AllocationResult, AllocationState, JournalError};
use agentenv::allocation_api::{
    accepted_key, admit_keyed_request, allocation_id, checked_owner, create_keyed_sandbox,
    owned_allocation_journal, readable_owner, sandbox_allocation_owner_get,
    sandbox_allocations_allocation_id_delete, sandbox_allocations_allocation_id_get,
};
use agentenv::api::{
    error_model, ApiError, OrchestratorError, OrchestratorErrorKind, Reply, Status,
};
use agentenv::create::CreatedSandbox;
use agentenv::handlers::{
    accepted_sandbox, connect_kept_alive, connect_resumed, network_put_policy, refresh_timeout,
    resume_timeout, sandbox_of_path, sandboxes_sandbox_id_connect_post,
    sandboxes_sandbox_id_custom_extension_params_get,
    sandboxes_sandbox_id_custom_extension_params_patch, sandboxes_sandbox_id_delete,
    sandboxes_sandbox_id_get, sandboxes_sandbox_id_network_put, sandboxes_sandbox_id_pause_post,
    sandboxes_sandbox_id_refreshes_post, sandboxes_sandbox_id_resume_post,
    sandboxes_sandbox_id_timeout_post, set_timeout, ConnectStep,
};
use agentenv::ident::SandboxId;
use agentenv::json::Json;
use agentenv::listing::{
    metadata_filter, parse_metadata_filter, sandboxes_get, sandboxes_get_filter, total_running,
    v2_sandboxes_get, v2_sandboxes_listed, v2_sandboxes_page, ListCursor, ListDraft, ListQuery,
};
use agentenv::models::{
    end_at, listed_sandbox, needs_traffic_token, public_state, sandbox_detail_model,
    sandbox_model, PublicState, SandboxAccess, SandboxMetadata, SandboxOnTimeout,
    SandboxResources, SandboxState, SandboxTimeoutAction, Timestamp,
};
use agentenv::network::{
    network_config, network_policy_from_create, network_policy_from_update,
    BaseSandboxNetworkPolicy, Cidr, Nullable, SandboxNetworkConfig, SandboxNetworkEgressPolicy,
    SandboxNetworkPolicy, SandboxNetworkUpdateConfig, V4Cidr, V6Cidr,
};
use agentenv::requests::{
    build_image_configs, cold_start_resources, params_map_to_model, timeout_action,
    validate_custom_extension_params, AttachedImage, NewColdSandbox,
};
use agentenv::text_map::TextMap;

/// What a reply refuses with.
fn refusal<T>(reply: Reply<T>) -> (Status, i32, String) {
    match reply {
        Reply::Refused(status, error) => (status, error.code, error.message),
        _ => panic!("the request was not refused"),
    }
}

fn refused(status: Status, code: i32, message: &str) -> (Status, i32, String) {
    (status, code, message.to_string())
}

fn map(pairs: &[(&str, &str)]) -> TextMap {
    TextMap::from_pairs(
        pairs
            .iter()
            .map(|(key, value)| (key.to_string(), value.to_string()))
            .collect(),
    )
}

fn entries(map: &TextMap) -> HashMap<String, String> {
    (0..map.len())
        .map(|i| (map.key_at(i).clone(), map.value_at(i).clone()))
        .collect()
}

#[test]
fn parse_metadata_filter_with_none_returns_none() {
    assert!(parse_metadata_filter(&None).is_none());
}

#[test]
fn parse_metadata_filter_with_empty_string_returns_none() {
    assert!(parse_metadata_filter(&Some(String::new())).is_none());
}

#[test]
fn parse_metadata_filter_with_single_pair() {
    let result = parse_metadata_filter(&Some("key=value".to_string()));
    assert_eq!(
        result.as_ref().map(entries),
        Some(HashMap::from([("key".to_string(), "value".to_string())]))
    );
}

#[test]
fn parse_metadata_filter_with_multiple_pairs() {
    let result = parse_metadata_filter(&Some("a=1&b=2".to_string()));
    assert_eq!(result.map(|m| m.len()), Some(2));
}

#[test]
fn parse_metadata_filter_filters_empty_keys() {
    let result = parse_metadata_filter(&Some("=value&key=val".to_string()));
    let map = result.unwrap();
    assert!(!map.contains_key(""));
    assert!(map.contains_key("key"));
}

#[test]
fn parse_metadata_filter_with_encoded_characters() {
    let result = parse_metadata_filter(&Some(
        "key%20with%20spaces=value%20with%20spaces".to_string(),
    ));
    assert_eq!(
        result.as_ref().map(entries),
        Some(HashMap::from([(
            "key with spaces".to_string(),
            "value with spaces".to_string()
        )]))
    );
}

#[test]
fn the_later_of_two_filters_on_one_key_counts() {
    let result = parse_metadata_filter(&Some("a=1&b=2&a=3&c=".to_string())).unwrap();
    assert_eq!(result.get("a").map(String::as_str), Some("3"));
    assert_eq!(result.get("b").map(String::as_str), Some("2"));
    assert!(result.get("c").is_none());
    assert_eq!(result.len(), 2);
    assert!(metadata_filter(vec![("k".to_string(), String::new())]).is_none());
    assert_eq!(result.values(), ["3", "2"]);
    assert_eq!(entries(&result.clone()), entries(&result));
}

#[test]
fn cold_start_resources_maps_and_validates_optional_disk_mb() {
    let mut body = NewColdSandbox::new("ubuntu:24.04".to_string());
    body.cpu_count = Some(2);
    body.memory_mb = Some(512);

    let resources = cold_start_resources(&body, 1, 1024).unwrap();
    assert_eq!(resources.cpu_count, 2);
    assert_eq!(resources.memory_mib, 512);
    assert_eq!(resources.disk_size_mib, 0);

    body.disk_size_mb = Some(8192);
    assert_eq!(
        cold_start_resources(&body, 1, 1024).unwrap().disk_size_mib,
        8192
    );

    body.disk_size_mb = Some(0);
    assert!(cold_start_resources(&body, 1, 1024).is_err());

    body.disk_size_mb = Some(512);
    assert!(cold_start_resources(&body, 1, 1024).is_err());

    body.disk_size_mb = Some(1536);
    let error = cold_start_resources(&body, 1, 1024).unwrap_err();
    assert_eq!(error.code, 400);
    assert_eq!(
        error.message,
        "diskSizeMB must be at least 1024 and divisible by 1024"
    );
}

#[test]
fn cold_start_resources_come_from_the_configuration_where_left_out() {
    let mut body = NewColdSandbox::new("ubuntu:24.04".to_string());
    let resources = cold_start_resources(&body, 4, 2048).unwrap();
    assert_eq!((resources.cpu_count, resources.memory_mib), (4, 2048));
    let error = cold_start_resources(&body, 0, 2048).unwrap_err();
    assert_eq!(error.message, "cpuCount must be greater than 0");
    body.memory_mb = Some(127);
    let error = cold_start_resources(&body, 4, 2048).unwrap_err();
    assert_eq!(error.message, "memoryMB must be at least 128");
}

fn json(value: &serde_json::Value) -> Json {
    match value {
        serde_json::Value::Null => Json::Null,
        serde_json::Value::Bool(b) => Json::Bool(*b),
        serde_json::Value::Number(n) => Json::Number(n.clone()),
        serde_json::Value::String(s) => Json::Text(s.clone()),
        serde_json::Value::Array(items) => Json::Array(items.iter().map(json).collect()),
        serde_json::Value::Object(fields) => Json::Object(
            fields
                .iter()
                .map(|(name, value)| (name.clone(), json(value)))
                .collect(),
        ),
    }
}

fn value(json: &Json) -> serde_json::Value {
    match json {
        Json::Null => serde_json::Value::Null,
        Json::Bool(b) => serde_json::Value::Bool(*b),
        Json::Number(n) => serde_json::Value::Number(n.clone()),
        Json::Text(s) => serde_json::Value::String(s.clone()),
        Json::Array(items) => serde_json::Value::Array(items.iter().map(value).collect()),
        Json::Object(fields) => serde_json::Value::Object(
            fields
                .iter()
                .map(|(name, field)| (name.clone(), value(field)))
                .collect(),
        ),
    }
}

#[test]
fn build_image_configs_preserves_rootfs_and_attached_drives() {
    let rootfs_config: serde_json::Value =
        serde_json::from_str(r#"{"Cmd":["/bin/bash"],"WorkingDir":"/workspace"}"#).unwrap();
    let drive_config: serde_json::Value =
        serde_json::from_str(r#"{"Env":["DATA=1"]}"#).unwrap();
    let attached = AttachedImage {
        drive_id: "data".to_string(),
        mount_path: "/data".to_string(),
        raw_config: Some(json(&drive_config)),
    };

    let entries = build_image_configs(Some(json(&rootfs_config)), vec![attached]);

    assert_eq!(entries.len(), 2);
    assert_eq!(entries[0].drive_id, None);
    assert_eq!(entries[0].mount_path, "/");
    assert_eq!(value(&entries[0].config), rootfs_config);
    assert_eq!(entries[1].drive_id.as_deref(), Some("data"));
    assert_eq!(entries[1].mount_path, "/data");
    assert_eq!(value(&entries[1].config), drive_config);
}

#[test]
fn images_without_configuration_are_left_out() {
    let drive = |id: &str, config: Option<Json>| AttachedImage {
        drive_id: id.to_string(),
        mount_path: format!("/{id}"),
        raw_config: config,
    };
    let entries = build_image_configs(
        None,
        vec![drive("a", None), drive("b", Some(Json::Null)), drive("c", None)],
    );
    assert_eq!(entries.len(), 1);
    assert_eq!(entries[0].drive_id.as_deref(), Some("b"));
}

fn cidr(text: &str) -> Option<Cidr> {
    match text.parse::<ipnetwork::IpNetwork>().ok()? {
        ipnetwork::IpNetwork::V4(network) => {
            Some(Cidr::V4(V4Cidr::new(network.ip().into(), network.prefix())?))
        }
        ipnetwork::IpNetwork::V6(network) => {
            Some(Cidr::V6(V6Cidr::new(network.ip().into(), network.prefix())?))
        }
    }
}

/// The egress rules that lists of a request are read as.
fn egress(
    allow_out: &Option<Vec<String>>,
    deny_out: &Option<Vec<String>>,
) -> Result<SandboxNetworkEgressPolicy, String> {
    let mut policy = SandboxNetworkEgressPolicy {
        allowed_cidrs: Vec::new(),
        allowed_domains: Vec::new(),
        denied_cidrs: Vec::new(),
    };
    for entry in allow_out.iter().flatten() {
        match cidr(entry) {
            Some(cidr) => policy.allowed_cidrs.push(cidr),
            None => policy.allowed_domains.push(entry.clone()),
        }
    }
    for entry in deny_out.iter().flatten() {
        policy
            .denied_cidrs
            .push(cidr(entry).ok_or_else(|| format!("not a network: {entry}"))?);
    }
    Ok(policy)
}

fn network() -> SandboxNetworkConfig {
    SandboxNetworkConfig {
        allow_public_traffic: None,
        allow_out: None,
        deny_out: None,
        mask_request_host: None,
    }
}

fn from_create(network: &SandboxNetworkConfig) -> Result<SandboxNetworkPolicy, String> {
    network_policy_from_create(
        None,
        Some(network),
        egress(&network.allow_out, &network.deny_out),
    )
}

fn from_update(body: &SandboxNetworkUpdateConfig) -> Result<SandboxNetworkPolicy, String> {
    network_policy_from_update(body, egress(&body.allow_out, &body.deny_out))
}

fn is_default(policy: &SandboxNetworkPolicy) -> bool {
    let default = SandboxNetworkPolicy::default();
    policy.allow_public_traffic == default.allow_public_traffic
        && policy.base_policy == default.base_policy
        && policy.egress.allowed_cidrs == default.egress.allowed_cidrs
        && policy.egress.allowed_domains == default.egress.allowed_domains
        && policy.egress.denied_cidrs == default.egress.denied_cidrs
}

#[test]
fn network_update_replaces_base_policy_and_egress() {
    let body = SandboxNetworkUpdateConfig {
        allow_out: Some(vec!["8.8.8.8".to_string()]),
        deny_out: Some(vec!["203.0.113.0/24".to_string()]),
        allow_internet_access: Some(false),
    };

    let policy = from_update(&body).unwrap();

    assert_eq!(policy.base_policy, BaseSandboxNetworkPolicy::Deny);
    assert_eq!(policy.egress.allowed_cidrs, vec![cidr("8.8.8.8/32").unwrap()]);
    assert_eq!(
        policy.egress.denied_cidrs,
        vec![cidr("203.0.113.0/24").unwrap()]
    );
}

#[test]
fn network_create_preserves_private_ingress() {
    let mut network = network();
    network.allow_public_traffic = Some(false);

    let policy = from_create(&network).unwrap();

    assert!(!policy.allow_public_traffic);
    assert_eq!(network_config(&policy).allow_public_traffic, Some(false));
}

#[test]
fn empty_network_update_clears_base_policy_and_egress() {
    let policy = from_update(&SandboxNetworkUpdateConfig {
        allow_out: None,
        deny_out: None,
        allow_internet_access: None,
    })
    .expect("empty update should be valid");

    assert!(is_default(&policy));
}

#[test]
fn network_create_accepts_domain_allowlist_with_explicit_deny_all() {
    let network = SandboxNetworkConfig {
        allow_out: Some(vec!["example.com".to_string()]),
        deny_out: Some(vec!["0.0.0.0/0".to_string()]),
        ..network()
    };

    let policy = from_create(&network).unwrap();
    assert_eq!(policy.egress.allowed_domains, ["example.com"]);
    assert_eq!(policy.egress.denied_cidrs, vec![cidr("0.0.0.0/0").unwrap()]);
}

#[test]
fn network_create_rejects_ipv6_cidrs() {
    let network = SandboxNetworkConfig {
        allow_out: Some(vec!["2001:db8::/32".to_string()]),
        ..network()
    };

    let error = from_create(&network).unwrap_err();
    assert!(error.contains("IPv6 CIDRs"));
}

#[test]
fn network_create_rejects_domain_allowlist_without_explicit_deny_all() {
    let network = SandboxNetworkConfig {
        allow_out: Some(vec!["example.com".to_string()]),
        ..network()
    };

    let error = from_create(&network).unwrap_err();
    assert!(error.contains("0.0.0.0/0"));
}

#[test]
fn network_update_accepts_domain_allowlist_with_explicit_deny_all() {
    let body = SandboxNetworkUpdateConfig {
        allow_out: Some(vec!["example.com".to_string()]),
        deny_out: Some(vec!["0.0.0.0/0".to_string()]),
        allow_internet_access: None,
    };
    let policy = from_update(&body).unwrap();
    assert_eq!(policy.egress.allowed_domains, ["example.com"]);
    assert_eq!(policy.egress.denied_cidrs, vec![cidr("0.0.0.0/0").unwrap()]);
}

#[test]
fn network_update_rejects_ipv6_cidrs() {
    let body = SandboxNetworkUpdateConfig {
        allow_out: Some(vec!["2001:db8::/32".to_string()]),
        deny_out: None,
        allow_internet_access: None,
    };

    let error = from_update(&body).unwrap_err();
    assert!(error.contains("IPv6 CIDRs"));
}

#[test]
fn network_update_rejects_domain_allowlist_without_explicit_deny_all() {
    let body = SandboxNetworkUpdateConfig {
        allow_out: Some(vec!["example.com".to_string()]),
        deny_out: None,
        allow_internet_access: None,
    };
    let error = from_update(&body).unwrap_err();
    assert!(error.contains("0.0.0.0/0"));
}

#[test]
fn a_denied_ipv6_network_is_refused_too_and_a_narrow_denial_is_not_all() {
    let rejected = |allow: &str, deny: &str| {
        from_update(&SandboxNetworkUpdateConfig {
            allow_out: Some(vec![allow.to_string()]),
            deny_out: Some(vec![deny.to_string()]),
            allow_internet_access: Some(true),
        })
        .unwrap_err()
    };
    assert_eq!(
        rejected("8.8.8.8", "::/0"),
        "IPv6 CIDRs are not supported by the sandbox network API"
    );
    assert_eq!(
        rejected("example.com", "10.0.0.0/8"),
        "allowOut contains domains but denyOut is missing 0.0.0.0/0 (ALL_TRAFFIC)"
    );
    assert_eq!(
        network_policy_from_create(None, None, Err("unreadable".to_string())).unwrap_err(),
        "unreadable"
    );
}

#[test]
fn a_policy_is_shown_with_networks_before_domains() {
    let policy = SandboxNetworkPolicy {
        allow_public_traffic: true,
        base_policy: BaseSandboxNetworkPolicy::Allow,
        egress: egress(
            &Some(vec![
                "example.com".to_string(),
                "8.8.8.8".to_string(),
                "2001:db8::/32".to_string(),
            ]),
            &Some(vec!["203.0.113.7/24".to_string()]),
        )
        .unwrap(),
    };
    let config = network_config(&policy);
    assert_eq!(
        config.allow_out.unwrap(),
        ["8.8.8.8/32", "2001:db8::/32", "example.com"]
    );
    assert_eq!(config.deny_out.unwrap(), ["203.0.113.7/24"]);
    assert!(config.mask_request_host.is_none());
    let empty = network_config(&SandboxNetworkPolicy::default());
    assert!(empty.allow_out.is_none() && empty.deny_out.is_none());
}

#[test]
fn a_prefix_length_has_to_fit() {
    assert!(V4Cidr::new(0, 32).is_some());
    assert!(V4Cidr::new(0, 33).is_none());
    assert!(V6Cidr::new(0, 128).is_some());
    assert!(V6Cidr::new(0, 129).is_none());
}

fn id(bits: u128) -> SandboxId {
    SandboxId { bits }
}

fn metadata(bits: u128, state: SandboxState) -> SandboxMetadata {
    SandboxMetadata {
        id: id(bits),
        snapshot_id: "snap".to_string(),
        snapshot_alias: Some("base".to_string()),
        created_at: Timestamp { secs: 17, nanos: 5 },
        expires_at: None,
        resources: SandboxResources {
            cpu_count: 2,
            memory_mib: 512,
            disk_size_mib: 1024,
        },
        user_metadata: Some(map(&[("team", "a")])),
        state,
        envd_version: "0.1".to_string(),
        volume_mounts: map(&[]),
        network_policy: SandboxNetworkPolicy::default(),
        auto_resume: true,
        timeout_action: SandboxTimeoutAction::Delete,
        custom_extension_params: None,
    }
}

fn access() -> SandboxAccess {
    SandboxAccess {
        envd_access_token: Some("envd".to_string()),
        traffic_access_token: "traffic".to_string(),
        proxy_domains: vec!["first.example".to_string(), "second.example".to_string()],
    }
}

#[test]
fn a_sandbox_is_listed_and_shown_in_detail() {
    let listed = listed_sandbox(metadata(1, SandboxState::Forking));
    assert_eq!(listed.template_id, "snap");
    assert_eq!(listed.alias.as_deref(), Some("base"));
    assert_eq!(listed.sandbox_id, "00000000-0000-0000-0000-000000000001");
    assert_eq!(listed.client_id, "");
    assert_eq!(listed.started_at, Timestamp { secs: 17, nanos: 5 });
    assert_eq!(
        listed.end_at,
        Timestamp {
            secs: 3_153_600_000,
            nanos: 0
        }
    );
    assert_eq!(
        (listed.cpu_count, listed.memory_mb, listed.disk_size_mb),
        (2, 512, 1024)
    );
    assert_eq!(listed.state, PublicState::Paused);
    assert!(listed.volume_mounts.is_none());

    let mut private = metadata(1, SandboxState::Running);
    private.network_policy.allow_public_traffic = false;
    private.volume_mounts = map(&[("/data", "vol")]);
    assert!(needs_traffic_token(&private));
    let detail = sandbox_detail_model(private, access());
    assert!(matches!(detail.domain, Some(Nullable::Present(ref d)) if d == "first.example"));
    assert!(matches!(detail.allow_internet_access, Some(Nullable::Null)));
    assert_eq!(detail.network.unwrap().allow_public_traffic, Some(false));
    assert_eq!(detail.volume_mounts.unwrap().len(), 1);
    let lifecycle = detail.lifecycle.unwrap();
    assert!(lifecycle.auto_resume);
    assert_eq!(lifecycle.on_timeout, SandboxOnTimeout::Kill);
    let open = sandbox_detail_model(metadata(1, SandboxState::Running), access());
    assert!(open.network.is_none());
}

#[test]
fn the_traffic_token_is_shown_for_private_sandboxes_alone() {
    let public = sandbox_model(metadata(1, SandboxState::Running), access());
    assert!(matches!(public.traffic_access_token, Some(Nullable::Null)));
    assert_eq!(public.envd_access_token.as_deref(), Some("envd"));
    let mut private = metadata(1, SandboxState::Running);
    private.network_policy.allow_public_traffic = false;
    let mut nowhere = access();
    nowhere.proxy_domains.clear();
    let shown = sandbox_model(private, nowhere);
    assert!(
        matches!(shown.traffic_access_token, Some(Nullable::Present(ref t)) if t == "traffic")
    );
    assert!(shown.domain.is_none());
}

#[test]
fn states_are_shown_in_three_kinds() {
    for (state, shown) in [
        (SandboxState::Creating, PublicState::Running),
        (SandboxState::Resuming, PublicState::Running),
        (SandboxState::Running, PublicState::Running),
        (SandboxState::Killing, PublicState::Running),
        (SandboxState::Snapshotting, PublicState::Paused),
        (SandboxState::Forking, PublicState::Paused),
        (SandboxState::Pausing, PublicState::Paused),
        (SandboxState::Paused, PublicState::Paused),
        (SandboxState::CleanupPending, PublicState::CleanupPending),
    ] {
        assert_eq!(public_state(state), shown);
    }
    let at = Timestamp { secs: 9, nanos: 1 };
    assert_eq!(end_at(Some(at)), at);
    assert_eq!(timeout_action(Some(false)), SandboxTimeoutAction::Delete);
    assert_eq!(timeout_action(Some(true)), SandboxTimeoutAction::Pause);
    assert_eq!(timeout_action(None), SandboxTimeoutAction::Pause);
}

fn error(kind: OrchestratorErrorKind) -> OrchestratorError {
    OrchestratorError {
        kind,
        message: "its own words".to_string(),
        internal: ApiError::new(500, "internal error"),
    }
}

fn gone() -> OrchestratorError {
    error(OrchestratorErrorKind::SandboxNotFound { id: id(2) })
}

fn wrong_state() -> OrchestratorError {
    error(OrchestratorErrorKind::InvalidSandboxState {
        state: "paused".to_string(),
    })
}

fn conflict() -> OrchestratorError {
    error(OrchestratorErrorKind::SandboxOperationConflict)
}

fn bad_timeout() -> OrchestratorError {
    error(OrchestratorErrorKind::InvalidTimeout {
        timeout: "5 seconds".to_string(),
        timeout_debug: "5s".to_string(),
    })
}

fn failed() -> OrchestratorError {
    error(OrchestratorErrorKind::SandboxOperationFailed {
        sandbox_id: id(3),
        operation: "Resume".to_string(),
        source_message: "no memory".to_string(),
        invalid_request: None,
    })
}

const GONE: &str = "sandbox 00000000-0000-0000-0000-000000000002 not found";

#[test]
fn errors_of_the_orchestrator_have_their_models() {
    let shown = |kind| {
        let model = error_model(error(kind));
        (model.code, model.message)
    };
    assert_eq!(
        shown(OrchestratorErrorKind::ShuttingDown),
        (503, "orchestrator is shutting down".to_string())
    );
    let model = error_model(gone());
    assert_eq!((model.code, model.message.as_str()), (404, GONE));
    let model = error_model(wrong_state());
    assert_eq!((model.code, model.message.as_str()), (400, "its own words"));
    let model = error_model(conflict());
    assert_eq!((model.code, model.message.as_str()), (409, "its own words"));
    let model = error_model(failed());
    assert_eq!(model.code, 500);
    assert_eq!(
        model.message,
        "sandbox 00000000-0000-0000-0000-000000000003 operation Resume failed: no memory"
    );
    for kind in [OrchestratorErrorKind::Other, bad_timeout().kind] {
        assert_eq!(shown(kind), (500, "internal error".to_string()));
    }
}

#[test]
fn a_path_that_names_no_sandbox_is_not_found() {
    let text = id(7).to_text();
    assert_eq!(sandbox_of_path::<()>(&text).unwrap(), id(7));
    assert_eq!(
        refusal(sandbox_of_path::<()>("nowhere").unwrap_err()),
        refused(Status::NotFound, 404, "sandbox nowhere not found")
    );
    assert_eq!(accepted_sandbox::<()>("x", Some(7)).unwrap(), id(7));
    assert!(accepted_sandbox::<()>("x", None).is_err());
}

#[test]
fn connecting_keeps_alive_resumes_or_refuses() {
    for state in [
        SandboxState::Creating,
        SandboxState::Resuming,
        SandboxState::Running,
        SandboxState::Snapshotting,
        SandboxState::Forking,
    ] {
        let step = sandboxes_sandbox_id_connect_post(id(1), Ok(Some(metadata(1, state))), 30);
        let ConnectStep::KeepAlive(_, asked) = step else {
            panic!("the sandbox is kept alive");
        };
        assert_eq!(asked.timeout, Some(30));
        assert!(!asked.may_shorten);
    }
    for state in [SandboxState::Pausing, SandboxState::Paused] {
        let step = sandboxes_sandbox_id_connect_post(id(1), Ok(Some(metadata(1, state))), 30);
        assert!(matches!(step, ConnectStep::Resume(30)));
    }
    for lookup in [
        Ok(None),
        Ok(Some(metadata(2, SandboxState::Killing))),
        Ok(Some(metadata(2, SandboxState::CleanupPending))),
    ] {
        let ConnectStep::Answer(reply) = sandboxes_sandbox_id_connect_post(id(2), lookup, 30)
        else {
            panic!("a sandbox that is being removed is not connected to");
        };
        assert_eq!(refusal(reply), refused(Status::NotFound, 404, GONE));
    }
    let ConnectStep::Answer(reply) = sandboxes_sandbox_id_connect_post(id(2), Err(failed()), 30)
    else {
        panic!("a failed lookup is answered");
    };
    assert_eq!(refusal(reply).0, Status::ServerError);

    let running = || metadata(1, SandboxState::Running);
    assert!(matches!(
        connect_kept_alive(running(), access(), Ok(())),
        Reply::Success(_)
    ));
    assert_eq!(
        refusal(connect_kept_alive(running(), access(), Err(gone()))),
        refused(Status::NotFound, 404, GONE)
    );
    assert_eq!(
        refusal(connect_kept_alive(running(), access(), Err(bad_timeout()))),
        refused(Status::BadRequest, 400, "invalid timeout: 5s")
    );
    assert_eq!(
        refusal(connect_kept_alive(running(), access(), Err(conflict()))),
        refused(Status::ServerError, 409, "its own words")
    );
    assert!(matches!(
        connect_resumed(Ok((running(), access()))),
        Reply::Created(_)
    ));
    assert_eq!(
        refusal(connect_resumed(Err(wrong_state()))),
        refused(
            Status::BadRequest,
            400,
            "sandbox cannot be resumed from paused state"
        )
    );
    assert_eq!(
        refusal(connect_resumed(Err(conflict()))),
        refused(Status::Conflict, 409, "its own words")
    );
    assert_eq!(
        refusal(connect_resumed(Err(bad_timeout()))),
        refused(Status::ServerError, 500, "internal error")
    );
}

#[test]
fn plain_requests_are_done_or_refused() {
    for handler in [
        sandboxes_sandbox_id_delete,
        sandboxes_sandbox_id_refreshes_post,
        sandboxes_sandbox_id_timeout_post,
    ] {
        assert!(matches!(handler(Ok(())), Reply::Done));
        assert_eq!(
            refusal(handler(Err(gone()))),
            refused(Status::NotFound, 404, GONE)
        );
        assert_eq!(
            refusal(handler(Err(wrong_state()))),
            refused(Status::ServerError, 400, "its own words")
        );
    }
    assert!(matches!(
        sandboxes_sandbox_id_pause_post(Ok(())),
        Reply::Done
    ));
    assert_eq!(
        refusal(sandboxes_sandbox_id_pause_post(Err(wrong_state()))),
        refused(
            Status::Conflict,
            409,
            "sandbox cannot be paused from paused state"
        )
    );
    assert_eq!(
        refusal(sandboxes_sandbox_id_pause_post(Err(conflict()))),
        refused(Status::ServerError, 409, "its own words")
    );
    for (duration, timeout) in [(Some(Some(9)), Some(9)), (Some(None), None), (None, None)] {
        let asked = refresh_timeout(duration);
        assert_eq!((asked.timeout, asked.may_shorten), (timeout, false));
    }
    for (seconds, timeout) in [(Some(5), Some(5)), (None, None)] {
        let asked = set_timeout(seconds);
        assert_eq!((asked.timeout, asked.may_shorten), (timeout, true));
    }
}

#[test]
fn a_network_update_conflicts_with_state_and_operations() {
    assert!(matches!(
        sandboxes_sandbox_id_network_put(Ok(())),
        Reply::Done
    ));
    assert_eq!(
        refusal(sandboxes_sandbox_id_network_put(Err(wrong_state()))),
        refused(
            Status::Conflict,
            409,
            "sandbox network cannot be updated from paused state"
        )
    );
    assert_eq!(
        refusal(sandboxes_sandbox_id_network_put(Err(conflict()))),
        refused(Status::Conflict, 409, "its own words")
    );
    let body = SandboxNetworkUpdateConfig {
        allow_out: Some(vec!["2001:db8::/32".to_string()]),
        deny_out: None,
        allow_internet_access: None,
    };
    assert_eq!(
        refusal(network_put_policy(&body, egress(&body.allow_out, &None)).unwrap_err()),
        refused(
            Status::BadRequest,
            400,
            "IPv6 CIDRs are not supported by the sandbox network API"
        )
    );
}

#[test]
fn extension_parameters_are_shown_and_patched() {
    let mut with_params = metadata(1, SandboxState::Running);
    with_params.custom_extension_params = Some(vec![("k".to_string(), Json::Bool(true))]);
    let Reply::Success(params) =
        sandboxes_sandbox_id_custom_extension_params_get("p", Ok(Some(with_params)))
    else {
        panic!("the parameters are shown");
    };
    assert_eq!(params.len(), 1);
    assert!(params_map_to_model(None).is_empty());
    assert_eq!(
        refusal(sandboxes_sandbox_id_custom_extension_params_get(
            "p",
            Ok(None)
        )),
        refused(Status::NotFound, 404, "sandbox p not found")
    );
    assert_eq!(
        refusal(sandboxes_sandbox_id_custom_extension_params_patch(Err(
            failed()
        ))),
        refused(Status::BadRequest, 400, "its own words")
    );
    assert_eq!(
        refusal(sandboxes_sandbox_id_custom_extension_params_patch(Err(
            wrong_state()
        ))),
        refused(
            Status::Conflict,
            409,
            "sandbox custom extension params cannot be patched from paused state"
        )
    );
    assert!(matches!(
        sandboxes_sandbox_id_custom_extension_params_patch(Ok(None)),
        Reply::Success(ref params) if params.is_empty()
    ));
    let some = Some(vec![("k".to_string(), Json::Null)]);
    assert!(validate_custom_extension_params(&some, true).is_ok());
    assert!(validate_custom_extension_params(&Some(Vec::new()), false).is_ok());
    assert!(validate_custom_extension_params(&None, false).is_ok());
    assert_eq!(
        validate_custom_extension_params(&some, false).unwrap_err(),
        "customExtensionParams requires the custom extension to be configured \
         ([custom_extension].url)"
    );
}

#[test]
fn resuming_and_getting_a_sandbox() {
    assert_eq!(resume_timeout(Some(4), 300), 4);
    assert_eq!(resume_timeout(None, 300), 300);
    assert!(matches!(
        sandboxes_sandbox_id_resume_post(Ok((metadata(1, SandboxState::Running), access()))),
        Reply::Created(_)
    ));
    assert_eq!(
        refusal(sandboxes_sandbox_id_resume_post(Err(bad_timeout()))),
        refused(Status::BadRequest, 400, "invalid timeout: 5 seconds")
    );
    assert_eq!(
        refusal(sandboxes_sandbox_id_resume_post(Err(wrong_state()))),
        refused(
            Status::Conflict,
            409,
            "sandbox cannot be resumed from paused state"
        )
    );
    let found = Ok(Some((metadata(1, SandboxState::Running), access())));
    assert!(matches!(
        sandboxes_sandbox_id_get(id(1), found),
        Reply::Success(_)
    ));
    assert_eq!(
        refusal(sandboxes_sandbox_id_get(id(2), Ok(None))),
        refused(Status::NotFound, 404, GONE)
    );
}

fn query() -> ListQuery {
    ListQuery {
        state: Vec::new(),
        ascending: false,
        metadata: None,
        started_after: None,
        template: None,
        next_token: None,
    }
}

const NOW: Timestamp = Timestamp {
    secs: 1_000,
    nanos: 0,
};

/// Where the page of a draft starts, and the total that it shows of a list with
/// one running sandbox.
fn place(draft: ListDraft) -> (ListCursor, Option<i32>) {
    let list = vec![metadata(1, SandboxState::Running)];
    let (whole, cursor, total) = v2_sandboxes_listed(draft, Ok(list)).unwrap();
    let Reply::Success(page) = v2_sandboxes_page(total, whole, None) else {
        panic!("the page is shown");
    };
    (cursor, page.x_total_running)
}

#[test]
fn a_query_names_states_and_a_place() {
    let (all, draft) = v2_sandboxes_get(query(), NOW).unwrap();
    assert!(all.states.is_none());
    let (cursor, total) = place(draft);
    assert_eq!(total, Some(1));
    assert_eq!(
        cursor,
        ListCursor {
            descending: true,
            time: NOW,
            value: SandboxId::max()
        }
    );
    let (paused, draft) = v2_sandboxes_get(
        ListQuery {
            state: vec![PublicState::Paused, PublicState::CleanupPending],
            ascending: true,
            metadata: Some("k=v".to_string()),
            template: Some("t".to_string()),
            ..query()
        },
        NOW,
    )
    .unwrap();
    assert_eq!(
        paused.states.unwrap(),
        [SandboxState::Paused, SandboxState::CleanupPending]
    );
    let (cursor, total) = place(draft);
    assert_eq!(total, None);
    assert_eq!(cursor.time, Timestamp { secs: 0, nanos: 0 });
    assert_eq!(paused.template.as_deref(), Some("t"));
    assert!(paused.user_metadata.unwrap().contains_key("k"));
    let (_, mixed) = v2_sandboxes_get(
        ListQuery {
            state: vec![PublicState::Paused, PublicState::Running],
            ..query()
        },
        NOW,
    )
    .unwrap();
    assert_eq!(place(mixed).1, Some(1));
    let token = |token| {
        v2_sandboxes_get(
            ListQuery {
                next_token: Some(token),
                ..query()
            },
            NOW,
        )
    };
    assert_eq!(
        refusal(token(Err("garbled".to_string())).unwrap_err()),
        refused(Status::BadRequest, 400, "invalid next token: garbled")
    );
    let ascending = ListCursor {
        descending: false,
        time: NOW,
        value: id(4),
    };
    assert_eq!(
        refusal(token(Ok(ascending)).unwrap_err()),
        refused(
            Status::BadRequest,
            400,
            "next token was issued for a different sort order"
        )
    );
    let descending = ListCursor {
        descending: true,
        ..ascending
    };
    assert_eq!(place(token(Ok(descending)).unwrap().1).0, descending);
}

#[test]
fn lists_show_every_sandbox_and_count_the_running() {
    let list = vec![
        metadata(1, SandboxState::Running),
        metadata(2, SandboxState::Paused),
        metadata(3, SandboxState::Running),
    ];
    assert_eq!(total_running(&list, true), Some(2));
    assert_eq!(total_running(&list, false), None);
    let draft = || v2_sandboxes_get(query(), NOW).unwrap().1;
    let (mut whole, _, total) = v2_sandboxes_listed(draft(), Ok(list)).unwrap();
    assert_eq!(whole.len(), 3);
    // The total is that of the whole list, whatever the page shows of it.
    whole.truncate(2);
    let Reply::Success(page) = v2_sandboxes_page(total, whole, Some("next".to_string())) else {
        panic!("the page is shown");
    };
    assert_eq!(page.body.len(), 2);
    assert_eq!(page.body[1].state, PublicState::Paused);
    assert_eq!(page.x_next_token.as_deref(), Some("next"));
    assert_eq!(page.x_total_running, Some(2));
    assert_eq!(
        refusal(v2_sandboxes_listed(draft(), Err(conflict())).err().unwrap()).0,
        Status::ServerError
    );
    let filter = sandboxes_get_filter(&Some("a=b".to_string()));
    assert_eq!(filter.states.unwrap(), [SandboxState::Running]);
    assert!(filter.user_metadata.unwrap().contains_key("a"));
    assert!(matches!(
        sandboxes_get(Ok(vec![metadata(1, SandboxState::Running)])),
        Reply::Success(ref listed) if listed.len() == 1
    ));
    assert_eq!(refusal(sandboxes_get(Err(failed()))).1, 500);
}

const OWNER: u128 = 0x0193_0000_0000_7000_8000_0000_0000_0001;
const OTHER: u128 = 0x0193_0000_0000_7000_8000_0000_0000_0002;
const KEY: u128 = 0x0193_0000_0000_7000_8000_0000_0000_0003;

fn text(bits: u128) -> String {
    id(bits).to_text()
}

#[test]
fn allocation_http_owner_mismatch_never_fences_or_allocates_on_another_node() {
    let Reply::Success(owner) = sandbox_allocation_owner_get(Some(OWNER)) else {
        panic!("the owner is shown");
    };
    assert_eq!(owner.version, 1);
    assert_eq!(owner.owner_id, text(OWNER));
    assert_eq!(
        refusal(admit_keyed_request::<()>(&text(OTHER), Some(OWNER), &text(KEY)).unwrap_err()),
        refused(
            Status::Conflict,
            409,
            "allocation belongs to a different durable state owner"
        )
    );
    assert_eq!(
        admit_keyed_request::<()>(&text(OWNER), Some(OWNER), &text(KEY)).unwrap(),
        KEY
    );
    assert_eq!(
        refusal(sandbox_allocation_owner_get(None)),
        refused(Status::ServerError, 500, "allocation owner unavailable")
    );
}

#[test]
fn allocation_http_rejects_invalid_keys_and_does_not_reinterpret_legacy_metadata() {
    for key in ["invalid", "00000000-0000-0000-0000-000000000000"] {
        assert_eq!(
            refusal(admit_keyed_request::<()>(&text(OWNER), Some(OWNER), key).unwrap_err()),
            refused(
                Status::BadRequest,
                400,
                "allocation key must be a non-nil UUID"
            )
        );
        assert!(allocation_id(key).is_err());
    }
    assert_eq!(allocation_id(&text(KEY)).unwrap(), KEY);
    assert_eq!(accepted_key(Some(KEY)).unwrap(), KEY);
    assert!(accepted_key(Some(0)).is_err());
    assert!(accepted_key(None).is_err());
}

#[test]
fn the_owner_of_a_keyed_request_is_checked_before_its_key() {
    let code = |owner: &str, journal| owned_allocation_journal(owner, journal).unwrap_err().code;
    assert_eq!(code("nobody", Some(OWNER)), 400);
    assert_eq!(code("nobody", None), 400);
    assert_eq!(code(&text(OWNER), None), 500);
    assert_eq!(code(&text(OTHER), Some(OWNER)), 409);
    assert!(owned_allocation_journal(&text(OWNER), Some(OWNER)).is_ok());
    assert!(checked_owner(Some(OWNER), Some(OWNER)).is_ok());
    assert!(readable_owner::<()>(&text(OTHER)).is_ok());
    assert_eq!(
        refusal(readable_owner::<()>("nobody").unwrap_err()),
        refused(Status::BadRequest, 400, "allocation owner must be a UUID")
    );
    assert_eq!(
        refusal(admit_keyed_request::<()>(&text(OWNER), None, "invalid").unwrap_err()),
        refused(Status::ServerError, 500, "allocation journal unavailable")
    );
    assert_eq!(
        refusal(admit_keyed_request::<()>("nobody", Some(OWNER), "invalid").unwrap_err()),
        refused(Status::BadRequest, 400, "allocation owner must be a UUID")
    );
}

fn receipt(state: AllocationState) -> AllocationReceipt {
    AllocationReceipt {
        version: 1,
        owner_id: OWNER,
        allocation_id: KEY,
        sandbox_id: None,
        request_digest: None,
        state,
        cancel_requested: true,
    }
}

#[test]
fn a_replayed_or_changed_keyed_request_is_a_conflict() {
    let existing = create_keyed_sandbox(Ok(AllocationResult::Existing(receipt(
        AllocationState::Cancelled,
    ))));
    assert_eq!(
        refusal(existing),
        refused(
            Status::Conflict,
            409,
            &format!(
                "allocation {} already claimed (Cancelled); query its sandbox-allocation receipt",
                text(KEY)
            )
        )
    );
    assert_eq!(
        refusal(create_keyed_sandbox(Err(Some(JournalError::Conflict)))),
        refused(
            Status::Conflict,
            409,
            "allocation key was already used with a different request"
        )
    );
    for error in [Some(JournalError::Interrupted), None] {
        assert_eq!(
            refusal(create_keyed_sandbox(Err(error))),
            refused(
                Status::ServerError,
                500,
                "allocation outcome unavailable; query the original allocation key"
            )
        );
    }
    let answer: Reply<CreatedSandbox> =
        Reply::Refused(Status::BadRequest, ApiError::new(400, "template x not found"));
    assert_eq!(
        refusal(create_keyed_sandbox(Ok(AllocationResult::Completed(answer)))),
        refused(Status::BadRequest, 400, "template x not found")
    );
}

#[test]
fn receipts_are_shown_or_missed() {
    assert!(matches!(
        sandbox_allocations_allocation_id_get(Ok(Some(receipt(AllocationState::Cancelled)))),
        Reply::Success(_)
    ));
    assert_eq!(
        refusal(sandbox_allocations_allocation_id_get(Ok(None))),
        refused(Status::NotFound, 404, "allocation receipt not found")
    );
    assert_eq!(
        refusal(sandbox_allocations_allocation_id_get(Err(()))),
        refused(Status::ServerError, 500, "allocation receipt unavailable")
    );
    assert!(matches!(
        sandbox_allocations_allocation_id_delete(Ok(receipt(AllocationState::Cancelled))),
        Reply::Success(_)
    ));
    assert_eq!(
        refusal(sandbox_allocations_allocation_id_delete(Err(()))),
        refused(
            Status::ServerError,
            500,
            "allocation cancellation unavailable"
        )
    );
}
