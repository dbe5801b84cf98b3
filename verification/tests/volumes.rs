use std::collections::{BTreeMap, BTreeSet};

use agentenv::api::{ApiError, OrchestratorError, OrchestratorErrorKind, Reply, Status};
use agentenv::create::{
    create_warm_sandbox, sandboxes_cold_post, CreatedSandbox, ImageResolution, LaunchFailure,
    LaunchStep, ResolvedAttachedDrive, ResolvedBlockImage, SandboxLaunchSource, SnapshotLoad,
    WarmStep,
};
use agentenv::fork::{
    sandboxes_sandbox_id_fork_post, ForkStart, NewTimeout, SandboxForkRequest,
};
use agentenv::ident::SandboxId;
use agentenv::json::Json;
use agentenv::models::{
    SandboxAccess, SandboxMetadata, SandboxResources, SandboxState, SandboxTimeoutAction, Timestamp,
};
use agentenv::network::{SandboxNetworkEgressPolicy, SandboxNetworkPolicy};
use agentenv::paths::{path_components, paths_overlap};
use agentenv::requests::{AttachedImage, ImageConfigEntry, NewColdSandbox, NewSandbox};
use agentenv::snapshots::{
    sandboxes_sandbox_id_snapshots_post, snapshot_alias, snapshot_published, Capture,
    CapturedMetadata, PublishDraft, PublishFailure,
};
use agentenv::text_map::TextMap;
use agentenv::volume_runs::{
    ForkRun, ForkStep, RestoreRun, RestoreStep, SandboxForkChildSpec, SnapshotRun, Volume,
    VolumeSnapshot,
};
use agentenv::volumes::{
    cleanup_fork_volume_children, cleanup_unlaunched_volumes, prepare_volume_mounts,
    prepared_mounts, release_failed_create_volumes, CallRun, PrepareStep, PreparedVolumeMounts,
    SnapshotVolume, VolumeCall, VolumeMode,
};

const MAX_MOUNTS: usize = 16;

fn map(pairs: &[(&str, &str)]) -> TextMap {
    TextMap::from_pairs(
        pairs
            .iter()
            .map(|(key, value)| (key.to_string(), value.to_string()))
            .collect(),
    )
}

/// A catalog of volumes with their owners.
#[derive(Default)]
struct Catalog {
    owners: BTreeMap<String, BTreeSet<String>>,
    calls: Vec<String>,
    created: u32,
    /// A volume that cannot be materialised.
    blocked: Option<String>,
}

impl Catalog {
    fn prepare(
        &mut self,
        mounts: Option<TextMap>,
        sandbox_id: SandboxId,
    ) -> Result<PreparedVolumeMounts<u8>, ApiError> {
        let (mounts, owner) = match prepare_volume_mounts(mounts, sandbox_id) {
            PrepareStep::Ready(prepared) => return Ok(prepared),
            PrepareStep::Resolve { mounts, owner } => (mounts, owner),
        };
        let mut drives = Vec::new();
        for volume in mounts.values() {
            if self.blocked.as_ref() == Some(&volume) {
                return Err(ApiError::new(500, "permission denied"));
            }
            self.owners.get_mut(&volume).unwrap().insert(owner.clone());
            drives.push(1);
        }
        Ok(prepared_mounts(owner, drives, mounts))
    }

    fn create(&mut self, owner: &str) -> String {
        self.created += 1;
        let id = format!("vol-{}", self.created);
        self.owners
            .insert(id.clone(), BTreeSet::from([owner.to_string()]));
        id
    }

    fn mounted_by(&self, id: &str, owner: &str) -> bool {
        self.owners[id].contains(owner)
    }

    fn make(&mut self, call: VolumeCall) -> Result<(), ApiError> {
        match call {
            VolumeCall::RecoverAndPublish { owner, .. } => {
                self.calls.push(format!("publish for {owner}"));
                Ok(())
            }
            VolumeCall::ReleaseOwner { owner, volume_ids } => {
                self.calls.push(format!("release {owner}"));
                for id in volume_ids {
                    self.owners.get_mut(&id).unwrap().remove(&owner);
                }
                Ok(())
            }
            VolumeCall::Delete { volume_id } => {
                self.calls.push(format!("delete {volume_id}"));
                if !self.owners[&volume_id].is_empty() {
                    return Err(ApiError::new(409, "volume is reserved"));
                }
                self.owners.remove(&volume_id);
                Ok(())
            }
        }
    }

    fn run(&mut self, mut run: CallRun<ApiError>) -> Result<(), ApiError> {
        while let Some(call) = run.next() {
            let result = self.make(call);
            run.report(result);
        }
        run.result()
    }

    fn restore(
        &mut self,
        snapshots: Vec<SnapshotVolume<u32>>,
        owner: SandboxId,
    ) -> Result<(TextMap, Vec<String>), ApiError> {
        let normalized = snapshots
            .iter()
            .map(|snapshot| normalize(&snapshot.mount_path))
            .collect();
        let mut run = RestoreRun::restore_snapshot_volume_mounts(
            snapshots, normalized, MAX_MOUNTS, owner,
        )?;
        loop {
            match run.next() {
                RestoreStep::Done(mounts, ids) => return Ok((mounts, ids)),
                RestoreStep::Create(call, pending) => {
                    assert!(call.name.starts_with("volume-restore-"));
                    assert_eq!(call.name.len(), "volume-restore-".len() + 32);
                    assert_eq!(call.owner, owner);
                    let result = if call.size_mb == 0 {
                        Err(ApiError::new(400, "volume size must not be zero"))
                    } else {
                        Ok(self.create(&owner.to_text()))
                    };
                    match pending.created_volume(result) {
                        Ok(next) => run = next,
                        Err(mut failure) => {
                            while let Some(call) = failure.cleanup.next() {
                                let result = self.make(call);
                                failure.cleanup.report(result);
                            }
                            return Err(failure.finish());
                        }
                    }
                }
            }
        }
    }
}

fn normalize(path: &str) -> Result<String, String> {
    if !path.starts_with('/') {
        return Err(format!("mount path '{path}' must be absolute"));
    }
    Ok(path.trim_end_matches('/').to_string())
}

fn preparation_snapshot(path: &str, mode: VolumeMode) -> SnapshotVolume<u32> {
    SnapshotVolume {
        mount_path: path.to_string(),
        mode,
        size_mb: 64,
        layers: 4096,
    }
}

#[test]
fn snapshot_volume_layout_is_validated_before_any_catalog_write() {
    for paths in [
        ["/data", "/data"],
        ["/data", "/data/"],
        ["/data", "/data/nested"],
    ] {
        let mut catalog = Catalog::default();
        let snapshots = paths
            .iter()
            .map(|path| preparation_snapshot(path, VolumeMode::Exclusive))
            .collect();
        let error = catalog.restore(snapshots, SandboxId::new()).unwrap_err();
        assert_eq!(error.code, 400);
        assert_eq!(error.message, "snapshot volume mount paths overlap");
        assert_eq!(catalog.created, 0);
    }
    let mut catalog = Catalog::default();
    let oversized = (0..=MAX_MOUNTS)
        .map(|i| preparation_snapshot(&format!("/mount-{i}"), VolumeMode::Exclusive))
        .collect();
    assert_eq!(
        catalog
            .restore(oversized, SandboxId::new())
            .unwrap_err()
            .message,
        "snapshot contains too many volume mounts"
    );
    assert_eq!(catalog.created, 0);
    let relative = vec![preparation_snapshot("data", VolumeMode::Exclusive)];
    assert_eq!(
        catalog
            .restore(relative, SandboxId::new())
            .unwrap_err()
            .message,
        "mount path 'data' must be absolute"
    );
}

#[test]
fn snapshot_volume_preparation_cleans_only_its_original_owned_children() {
    let mut catalog = Catalog::default();
    let owner = SandboxId::new();
    let snapshots = |size_mb| {
        let mut second = preparation_snapshot("/database", VolumeMode::ReadOnly);
        second.size_mb = size_mb;
        vec![
            preparation_snapshot("/data", VolumeMode::Exclusive),
            second,
        ]
    };
    assert!(catalog.restore(snapshots(0), owner).is_err());
    assert!(
        catalog.owners.is_empty(),
        "a later preparation failure must clean the earlier owned child"
    );
    let (mounts, ids) = catalog.restore(snapshots(64), owner).unwrap();
    assert_eq!(
        mounts.len(),
        2,
        "distinct path components must not be mistaken for overlap"
    );
    for id in &ids {
        assert!(catalog.mounted_by(id, &owner.to_text()));
    }
    let step: PrepareStep<u8> = prepare_volume_mounts(Some(mounts.clone()), owner);
    let PrepareStep::Resolve {
        mounts: wanted,
        owner: reserved_for,
    } = step
    else {
        panic!("the mounts are resolved");
    };
    assert_eq!(reserved_for, owner.to_text());
    let prepared = prepared_mounts(reserved_for, vec![1u8, 2], wanted);
    assert_eq!(prepared.volume_ids.len(), 2);
    let shared = mounts.get("/database").unwrap();
    catalog
        .owners
        .get_mut(shared)
        .unwrap()
        .insert("other-reader".to_string());
    let error = catalog
        .run(cleanup_unlaunched_volumes(owner, &ids))
        .unwrap_err();
    assert_eq!(error.code, 409);
    assert!(!catalog.mounted_by(shared, &owner.to_text()));
    assert!(catalog.mounted_by(shared, "other-reader"));
    assert!(!catalog.owners.contains_key(mounts.get("/data").unwrap()));
}

#[test]
fn a_restored_volume_has_a_new_name_and_the_final_owner() {
    let owner = SandboxId::new();
    let run = RestoreRun::restore_snapshot_volume_mounts(
        vec![preparation_snapshot("/data", VolumeMode::ReadOnly)],
        vec![Ok("/data".to_string())],
        MAX_MOUNTS,
        owner,
    )
    .ok()
    .unwrap();
    let RestoreStep::Create(call, _) = run.next() else {
        panic!("a volume is created");
    };
    let digits = call.name.strip_prefix("volume-restore-").unwrap();
    assert_eq!(digits.len(), 32);
    assert!(digits
        .chars()
        .all(|c| c.is_ascii_hexdigit() && !c.is_ascii_uppercase()));
    assert_eq!(digits.chars().nth(12), Some('7'));
    assert_eq!(call.owner, owner);
    assert_eq!(call.mode, VolumeMode::ReadOnly);
    assert_eq!((call.size_mb, call.layers), (64, 4096));
}

#[test]
fn a_restoration_mounts_every_volume_at_its_own_path() {
    let mut catalog = Catalog::default();
    let snapshots = ["/b", "/a/", "/ab"]
        .iter()
        .map(|path| preparation_snapshot(path, VolumeMode::Exclusive))
        .collect();
    let (mounts, ids) = catalog.restore(snapshots, SandboxId::new()).unwrap();
    assert_eq!(mounts.len(), 3);
    assert_eq!(mounts.get("/b"), Some(&ids[0]));
    assert_eq!(mounts.get("/a"), Some(&ids[1]));
    assert_eq!(mounts.get("/ab"), Some(&ids[2]));
}

#[test]
fn mount_resolution_failure_releases_all_preowned_restored_volumes() {
    let mut catalog = Catalog::default();
    let owner = SandboxId::new();
    let snapshots = vec![
        preparation_snapshot("/data", VolumeMode::Exclusive),
        preparation_snapshot("/other", VolumeMode::Exclusive),
    ];
    let (mounts, ids) = catalog.restore(snapshots, owner).unwrap();
    let other = mounts.get("/other").unwrap().clone();
    catalog.blocked = Some(mounts.get("/data").unwrap().clone());
    let result = catalog.prepare(Some(mounts), owner);
    assert!(
        result.is_err(),
        "filesystem failure must stop mount materialization"
    );
    assert!(
        catalog.mounted_by(&other, &owner.to_text()),
        "restored but unvisited mounts still carry their initial owner"
    );
    catalog
        .run(cleanup_unlaunched_volumes(owner, &ids))
        .unwrap();
    assert!(catalog.owners.is_empty());
}

#[test]
fn a_warm_creation_that_cannot_mount_removes_what_it_restored() {
    let mut catalog = Catalog::default();
    let kept = vec![
        preparation_snapshot("/data", VolumeMode::Exclusive),
        preparation_snapshot("/other", VolumeMode::Exclusive),
    ];
    let load = SnapshotLoad::Found("snap", kept);
    let normalized = vec![Ok("/data".to_string()), Ok("/other".to_string())];
    let owner = SandboxId::new();
    let step = create_warm_sandbox(
        new_sandbox(),
        owner,
        load,
        no_rules(),
        false,
        normalized,
        MAX_MOUNTS,
    );
    let WarmStep::Restore(draft, mut run) = step else {
        panic!("the snapshot's volumes are restored");
    };
    let restored = loop {
        match run.next() {
            RestoreStep::Create(_, pending) => {
                let id = catalog.create(&owner.to_text());
                run = pending.created_volume(Ok(id)).ok().unwrap();
            }
            RestoreStep::Done(mounts, ids) => break (mounts, ids),
        }
    };
    catalog.blocked = Some(restored.1[0].clone());
    let WarmStep::Mount(draft, mounts, ids) = draft.restored::<u32>(Ok(restored)) else {
        panic!("the restored mounts are prepared");
    };
    let prepared = catalog.prepare(mounts, owner);
    let mut unprepared = draft.prepared::<(), u8>(ids, prepared).err().unwrap();
    while let Some(call) = unprepared.cleanup.next() {
        let result = catalog.make(call);
        unprepared.cleanup.report(result);
    }
    assert_eq!(
        refusal(unprepared.finish()),
        refused(Status::ServerError, 500, "permission denied")
    );
    assert!(catalog.owners.is_empty());
}

#[test]
fn failed_create_keeps_final_volume_owner_until_runtime_cleanup_is_confirmed() {
    for restored in [false, true] {
        for runtime_stopped in [false, true] {
            let mut catalog = Catalog::default();
            let sandbox_id = SandboxId::new();
            let owner = sandbox_id.to_text();
            let volume = catalog.create(&owner);
            let restored_ids = if restored {
                vec![volume.clone()]
            } else {
                Vec::new()
            };
            let run = release_failed_create_volumes(
                Some(owner.clone()),
                runtime_stopped,
                &vec![volume.clone()],
                &restored_ids,
            );
            catalog.run(run).unwrap();
            if !runtime_stopped {
                assert!(catalog.mounted_by(&volume, &owner));
                assert!(catalog.calls.is_empty());
            } else if restored {
                assert!(!catalog.owners.contains_key(&volume));
                assert_eq!(
                    catalog.calls,
                    [
                        format!("publish for {owner}"),
                        format!("release {owner}"),
                        format!("delete {volume}")
                    ]
                );
            } else {
                assert!(!catalog.mounted_by(&volume, &owner));
            }
        }
    }
}

#[test]
fn a_strict_run_stops_at_its_first_failure_and_another_goes_on() {
    let ids = vec!["a".to_string(), "b".to_string()];
    let mut strict: CallRun<u8> = cleanup_unlaunched_volumes(SandboxId::new(), &ids);
    assert!(matches!(
        strict.next(),
        Some(VolumeCall::ReleaseOwner { .. })
    ));
    strict.report(Err(7));
    assert!(strict.next().is_none());
    assert_eq!(strict.result(), Err(7));

    let mut lenient: CallRun<u8> = cleanup_fork_volume_children(&vec![(SandboxId::new(), ids)]);
    let mut made = 0;
    while lenient.next().is_some() {
        made += 1;
        lenient.report(Err(7));
    }
    assert_eq!(made, 3);
    assert_eq!(lenient.result(), Ok(()));
    let none: CallRun<u8> = release_failed_create_volumes(None, true, &Vec::new(), &Vec::new());
    assert_eq!(none.result(), Ok(()));
}

#[test]
fn paths_overlap_by_whole_components() {
    assert_eq!(path_components("/a//b/./c/"), ["/", "a", "b", "c"]);
    assert_eq!(path_components("./a/.."), [".", "a", ".."]);
    assert_eq!(path_components("/"), ["/"]);
    assert!(path_components("").is_empty());
    assert!(paths_overlap("/data", "/data/nested"));
    assert!(paths_overlap("/data/nested", "/data"));
    assert!(paths_overlap("/data", "/data"));
    assert!(!paths_overlap("/data", "/database"));
    assert!(!paths_overlap("/a/b", "/a/c"));
    assert!(paths_overlap("/", "/a"));
    assert!(!paths_overlap("a", "/a"));
}

fn metadata(bits: u128, mounts: &[(&str, &str)]) -> SandboxMetadata {
    SandboxMetadata {
        id: SandboxId { bits },
        snapshot_id: "snap".to_string(),
        snapshot_alias: None,
        created_at: Timestamp { secs: 1, nanos: 0 },
        expires_at: None,
        resources: SandboxResources {
            cpu_count: 1,
            memory_mib: 128,
            disk_size_mib: 0,
        },
        user_metadata: None,
        state: SandboxState::Running,
        envd_version: "0".to_string(),
        volume_mounts: map(mounts),
        network_policy: SandboxNetworkPolicy::default(),
        auto_resume: false,
        timeout_action: SandboxTimeoutAction::Pause,
        custom_extension_params: None,
    }
}

fn access() -> SandboxAccess {
    SandboxAccess {
        envd_access_token: None,
        traffic_access_token: String::new(),
        proxy_domains: Vec::new(),
    }
}

fn orchestrator_error(kind: OrchestratorErrorKind) -> OrchestratorError {
    OrchestratorError {
        kind,
        message: "its own words".to_string(),
        internal: ApiError::new(500, "internal error"),
    }
}

fn refusal<T>(reply: Reply<T>) -> (Status, i32, String) {
    match reply {
        Reply::Refused(status, error) => (status, error.code, error.message),
        _ => panic!("the request was not refused"),
    }
}

fn refused(status: Status, code: i32, message: &str) -> (Status, i32, String) {
    (status, code, message.to_string())
}

#[test]
fn snapshots_follow_the_mounts_and_stop_at_a_failure() {
    let mut run = SnapshotRun::snapshot_sandbox_volumes(map(&[("/a", "v1"), ("/b", "v2")]));
    let mut asked = Vec::new();
    while let Some(reference) = run.next() {
        asked.push(reference);
        run = run
            .snapshotted(Ok(VolumeSnapshot {
                mode: VolumeMode::ReadOnly,
                size_mb: asked.len() as u64,
                backing_layers: 9u32,
            }))
            .unwrap();
    }
    assert_eq!(asked, ["v1", "v2"]);
    let snapshots = run.into_snapshots();
    assert_eq!(snapshots.len(), 2);
    assert_eq!(snapshots[1].mount_path, "/b");
    assert_eq!(snapshots[1].size_mb, 2);
    assert_eq!(snapshots[1].layers, 9);
    let run: SnapshotRun<u32> = SnapshotRun::snapshot_sandbox_volumes(map(&[("/a", "v1")]));
    let error = run.snapshotted(Err(ApiError::new(404, "no such volume")));
    assert_eq!(error.unwrap_err().code, 404);
}

/// Prepares the volumes of a fork. The creation with the given number fails.
fn prepare_fork(
    count: u32,
    failing_creation: u32,
) -> Result<
    (
        Vec<SandboxForkChildSpec<u8>>,
        Vec<(SandboxId, Vec<String>)>,
    ),
    (ApiError, Vec<VolumeCall>),
> {
    let source = SandboxId { bits: 5 };
    let mounts = map(&[("/own", "own"), ("/shared", "shared")]);
    let mut run = ForkRun::prepare_volume_fork_specs(source, mounts, count);
    let mut creations = 0;
    let failed = loop {
        match run.next() {
            ForkStep::Continue(next) => run = next,
            ForkStep::Fetch(reference, waiting) => {
                let mode = if reference == "own" {
                    VolumeMode::Exclusive
                } else {
                    VolumeMode::ReadOnly
                };
                run = waiting
                    .fetched_volume(Ok(Volume {
                        id: format!("id-{reference}"),
                        mode,
                        size_mb: 64,
                    }))
                    .unwrap();
            }
            ForkStep::CreateChild(call, waiting) => {
                creations += 1;
                assert_eq!(call.volume_id, "id-own");
                assert!(call.name.starts_with("volume-fork-"));
                assert_eq!(call.size_mb, 64);
                assert_eq!(call.source_owner, source.to_text());
                let result = if creations == failing_creation {
                    Err(ApiError::new(409, "source is busy"))
                } else {
                    Ok(format!("child-{creations}"))
                };
                match waiting.created_child(result) {
                    Ok(next) => run = next,
                    Err(failure) => break failure,
                }
            }
            ForkStep::Resolve(mounts, owner, waiting) => {
                assert_eq!(mounts.get("/shared").map(String::as_str), Some("id-shared"));
                assert!(SandboxId::parse_str(&owner).is_some());
                match waiting.resolved(Ok(vec![1, 2])) {
                    Ok(next) => run = next,
                    Err(failure) => break failure,
                }
            }
            ForkStep::Done(specs, children) => return Ok((specs, children)),
        }
    };
    let mut cleanup = failed.cleanup;
    let mut calls = Vec::new();
    while let Some(call) = cleanup.next() {
        calls.push(call);
        cleanup.report(Err(ApiError::new(500, "ignored")));
    }
    Err((failed.error, calls))
}

#[test]
fn every_child_of_a_fork_gets_its_own_exclusive_volumes() {
    let (specs, children) = prepare_fork(2, 0).unwrap();
    assert_eq!(specs.len(), 2);
    for (spec, (child, volumes)) in specs.iter().zip(&children) {
        assert_eq!(spec.sandbox_id, *child);
        assert_eq!(volumes.len(), 1);
        assert_eq!(spec.volume_mounts.get("/own"), Some(&volumes[0]));
        assert_eq!(
            spec.replace_drive_ids,
            [("id-own".to_string(), volumes[0].clone())]
        );
        assert_eq!(spec.extra_drives, [1, 2]);
    }
    assert_ne!(children[0].1, children[1].1);
    assert_ne!(children[0].0, children[1].0);
}

#[test]
fn a_failed_fork_preparation_removes_everything_that_it_made() {
    let (error, calls) = prepare_fork(3, 2).unwrap_err();
    assert_eq!(error.message, "source is busy");
    assert_eq!(calls.len(), 3);
    assert!(matches!(
        &calls[0],
        VolumeCall::ReleaseOwner { volume_ids, .. } if volume_ids == &["child-1"]
    ));
    assert!(matches!(
        &calls[1],
        VolumeCall::Delete { volume_id } if volume_id == "child-1"
    ));
    assert!(matches!(
        &calls[2],
        VolumeCall::ReleaseOwner { volume_ids, .. } if volume_ids.is_empty()
    ));
    let run: ForkRun<u8> =
        ForkRun::prepare_volume_fork_specs(SandboxId { bits: 5 }, map(&[("/a", "v")]), 1);
    let ForkStep::Fetch(reference, waiting) = run.next() else {
        panic!("the volume is looked up first");
    };
    assert_eq!(reference, "v");
    let error = waiting.fetched_volume(Err(ApiError::new(404, "no such volume")));
    assert_eq!(error.unwrap_err().code, 404);
}

#[test]
fn a_volume_mounted_twice_is_taken_as_it_was_looked_up_last() {
    let mounts = map(&[("/a", "v"), ("/b", "v")]);
    let mut run: ForkRun<u8> =
        ForkRun::prepare_volume_fork_specs(SandboxId { bits: 5 }, mounts, 1);
    let mut lookups = 0;
    let mounted = loop {
        match run.next() {
            ForkStep::Continue(next) => run = next,
            ForkStep::Fetch(_, waiting) => {
                lookups += 1;
                run = waiting
                    .fetched_volume(Ok(Volume {
                        id: format!("look-{lookups}"),
                        mode: VolumeMode::ReadOnly,
                        size_mb: 1,
                    }))
                    .unwrap();
            }
            ForkStep::Resolve(mounts, _, _) => break mounts,
            _ => panic!("shared volumes are only resolved"),
        }
    };
    assert_eq!(lookups, 2);
    assert_eq!(mounted.values(), ["look-2", "look-2"]);
}

#[test]
fn a_fork_makes_between_one_and_a_hundred_children() {
    let source = SandboxId { bits: 5 };
    let request = |count, timeout| Some(SandboxForkRequest { count, timeout });
    for count in [0, 101] {
        let ForkStart::Answer(reply) = sandboxes_sandbox_id_fork_post::<u8>(
            source,
            Ok(Some(metadata(5, &[]))),
            request(Some(count), None),
        ) else {
            panic!("the count is refused");
        };
        assert_eq!(
            refusal(reply),
            refused(Status::BadRequest, 400, "count must be between 1 and 100")
        );
    }
    let ForkStart::Launch(call, launch) = sandboxes_sandbox_id_fork_post::<u8>(
        source,
        Ok(Some(metadata(5, &[]))),
        request(Some(100), Some(9)),
    ) else {
        panic!("a sandbox without volumes is forked at once");
    };
    assert_eq!(call.specs.len(), 100);
    assert_eq!(call.new_timeout, NewTimeout::Seconds(9));
    let (mut cleanup, reply) = launch.forked(Ok(vec![
        Ok((metadata(8, &[]), access())),
        Err(orchestrator_error(OrchestratorErrorKind::Other)),
    ]));
    assert!(cleanup.next().is_none());
    let Reply::Created(results) = reply else {
        panic!("the forks were attempted");
    };
    assert!(results[0].sandbox.is_some() && results[0].error.is_none());
    assert_eq!(results[1].error.as_ref().unwrap().message, "internal error");

    let ForkStart::Launch(call, _) =
        sandboxes_sandbox_id_fork_post::<u8>(source, Ok(Some(metadata(5, &[]))), None)
    else {
        panic!("one child by default");
    };
    assert_eq!(call.specs.len(), 1);
    assert_eq!(call.new_timeout, NewTimeout::UseExisting);
    let ForkStart::Answer(reply) = sandboxes_sandbox_id_fork_post::<u8>(source, Ok(None), None)
    else {
        panic!("the source is not there");
    };
    assert_eq!(refusal(reply).0, Status::NotFound);
}

#[test]
fn a_fork_with_volumes_removes_those_of_failed_children() {
    let source = SandboxId { bits: 5 };
    let ForkStart::SnapshotVolumes(volumes) = sandboxes_sandbox_id_fork_post::<u8>(
        source,
        Ok(Some(metadata(5, &[("/own", "own")]))),
        Some(SandboxForkRequest {
            count: Some(2),
            timeout: None,
        }),
    ) else {
        panic!("the volumes are snapshotted first");
    };
    let (owner, ids) = volumes.snapshotted(Ok(())).unwrap();
    assert_eq!(owner, source.to_text());
    assert_eq!(ids, ["own"]);
    assert_eq!(
        refusal(
            volumes
                .snapshotted(Err(orchestrator_error(OrchestratorErrorKind::ShuttingDown)))
                .unwrap_err()
        ),
        refused(Status::ServerError, 503, "orchestrator is shutting down")
    );
    assert_eq!(
        refusal(
            volumes
                .recovered::<u8>(Err("disk gone".to_string()))
                .unwrap_err()
        ),
        refused(
            Status::ServerError,
            500,
            "failed to recover local volume backing before fork: disk gone"
        )
    );
    assert!(volumes.recovered::<u8>(Ok(())).is_ok());
    let (specs, children) = prepare_fork(2, 0).unwrap();
    let survivor = children[0].0;
    let lost = children[1].0;
    let (call, launch) = volumes.prepared(Ok((specs, children))).unwrap();
    assert_eq!(call.sandbox_id, source);
    let (mut cleanup, _) = launch.forked(Ok(vec![
        Ok((metadata(survivor.bits, &[]), access())),
        Err(orchestrator_error(OrchestratorErrorKind::Other)),
    ]));
    let Some(VolumeCall::ReleaseOwner { owner, volume_ids }) = cleanup.next() else {
        panic!("the lost child gives its volume up");
    };
    assert_eq!(owner, lost.to_text());
    assert_eq!(volume_ids, ["child-2"]);
    assert!(matches!(cleanup.next(), Some(VolumeCall::Delete { .. })));
    assert!(cleanup.next().is_none());
}

#[test]
fn a_fork_that_cannot_be_launched_removes_all_volumes() {
    let start = || {
        let ForkStart::SnapshotVolumes(volumes) = sandboxes_sandbox_id_fork_post::<u8>(
            SandboxId { bits: 5 },
            Ok(Some(metadata(5, &[("/own", "own")]))),
            None,
        ) else {
            panic!("the volumes are snapshotted first");
        };
        volumes
    };
    for (kind, expected) in [
        (
            OrchestratorErrorKind::SandboxNotFound {
                id: SandboxId { bits: 2 },
            },
            refused(
                Status::NotFound,
                404,
                "sandbox 00000000-0000-0000-0000-000000000002 not found",
            ),
        ),
        (
            OrchestratorErrorKind::InvalidSandboxState {
                state: "paused".to_string(),
            },
            refused(
                Status::Conflict,
                409,
                "sandbox cannot be forked from paused state",
            ),
        ),
        (
            OrchestratorErrorKind::SandboxOperationConflict,
            refused(Status::ServerError, 409, "its own words"),
        ),
    ] {
        let prepared = prepare_fork(1, 0).unwrap();
        let (_, launch) = start().prepared(Ok(prepared)).unwrap();
        let (mut cleanup, reply) = launch.forked(Err(orchestrator_error(kind)));
        assert!(cleanup.next().is_some() && cleanup.next().is_some());
        assert!(cleanup.next().is_none());
        assert_eq!(refusal(reply), expected);
    }
    for (code, status) in [
        (404, Status::NotFound),
        (409, Status::Conflict),
        (500, Status::ServerError),
        (400, Status::BadRequest),
        (503, Status::BadRequest),
    ] {
        let result = start().prepared::<u8>(Err(ApiError::new(code, "no")));
        assert_eq!(refusal(result.err().unwrap()).0, status);
    }
}

fn new_sandbox() -> NewSandbox {
    NewSandbox {
        template_id: "base".to_string(),
        timeout: Some(60),
        auto_pause: Some(false),
        auto_resume: Some(true),
        secure: Some(true),
        allow_internet_access: None,
        network: None,
        metadata: None,
        env_vars: Some(map(&[])),
        volume_mounts: None,
        custom_extension_params: None,
    }
}

fn no_rules() -> Result<SandboxNetworkEgressPolicy, String> {
    Ok(SandboxNetworkEgressPolicy {
        allowed_cidrs: Vec::new(),
        allowed_domains: Vec::new(),
        denied_cidrs: Vec::new(),
    })
}

fn warm(
    body: NewSandbox,
    load: SnapshotLoad<&'static str, u32>,
    egress: Result<SandboxNetworkEgressPolicy, String>,
) -> WarmStep<&'static str, u32> {
    let normalized = match &load {
        SnapshotLoad::Found(_, kept) => kept
            .iter()
            .map(|volume| normalize(&volume.mount_path))
            .collect(),
        _ => Vec::new(),
    };
    create_warm_sandbox(
        body,
        SandboxId { bits: 6 },
        load,
        egress,
        false,
        normalized,
        MAX_MOUNTS,
    )
}

fn answer(step: WarmStep<&'static str, u32>) -> (Status, i32, String) {
    match step {
        WarmStep::Answer(reply) => refusal(reply),
        _ => panic!("the request is not answered yet"),
    }
}

#[test]
fn a_warm_creation_is_refused_before_anything_is_made() {
    assert_eq!(
        answer(warm(new_sandbox(), SnapshotLoad::NotFound, no_rules())),
        refused(Status::BadRequest, 400, "template base not found")
    );
    let broken = SnapshotLoad::Failed(ApiError::new(500, "store down"));
    assert_eq!(
        answer(warm(new_sandbox(), broken, no_rules())),
        refused(Status::ServerError, 500, "store down")
    );
    let found = || SnapshotLoad::Found("snap", Vec::new());
    assert_eq!(
        answer(warm(new_sandbox(), found(), Err("unreadable".to_string()))),
        refused(Status::BadRequest, 400, "unreadable")
    );
    let mut with_params = new_sandbox();
    with_params.custom_extension_params = Some(vec![("k".to_string(), Json::Null)]);
    assert_eq!(answer(warm(with_params, found(), no_rules())).0, Status::BadRequest);
    let overlapping = SnapshotLoad::Found(
        "snap",
        vec![
            preparation_snapshot("/a", VolumeMode::Exclusive),
            preparation_snapshot("/a/b", VolumeMode::Exclusive),
        ],
    );
    assert_eq!(
        answer(warm(new_sandbox(), overlapping, no_rules())),
        refused(Status::BadRequest, 400, "snapshot volume mount paths overlap")
    );
}

#[test]
fn a_warm_creation_restores_mounts_launches_and_answers() {
    let mut catalog = Catalog::default();
    let kept = vec![preparation_snapshot("/data", VolumeMode::Exclusive)];
    let WarmStep::Restore(draft, mut run) =
        warm(new_sandbox(), SnapshotLoad::Found("snap", kept), no_rules())
    else {
        panic!("the snapshot's volumes are restored");
    };
    assert!(draft.extra_drives_in_snapshot);
    assert_eq!(draft.options.timeout, Some(60));
    assert_eq!(draft.options.timeout_action, SandboxTimeoutAction::Delete);
    assert!(draft.options.auto_resume && draft.options.secure);
    assert!(draft.options.env_vars.is_none());
    let owner = draft.sandbox_id.to_text();
    let restored = loop {
        match run.next() {
            RestoreStep::Create(_, pending) => {
                let id = catalog.create(&owner);
                run = pending.created_volume(Ok(id)).unwrap();
            }
            RestoreStep::Done(mounts, ids) => break (mounts, ids),
        }
    };
    let WarmStep::Mount(draft, Some(mounts), ids) = draft.restored::<u32>(Ok(restored)) else {
        panic!("the restored mounts are prepared");
    };
    assert_eq!(mounts.len(), 1);
    let prepared = prepared_mounts(owner.clone(), vec![7u8], mounts);
    let (call, launch) = draft.prepared::<(), u8>(ids, Ok(prepared)).unwrap();
    assert_eq!(call.sandbox_id, SandboxId { bits: 6 });
    assert_eq!(call.volumes_created_for_launch, ["vol-1"]);
    assert!(matches!(
        call.request.source,
        SandboxLaunchSource::Snapshot("snap")
    ));
    assert_eq!(call.request.extra_drives, [7]);
    let LaunchStep::Release(run, reply) = launch.launched(Err(LaunchFailure {
        error: orchestrator_error(OrchestratorErrorKind::Other),
        runtime_stopped: true,
    })) else {
        panic!("a failed launch releases its volumes");
    };
    catalog.run(run).unwrap();
    assert!(catalog.owners.is_empty());
    assert_eq!(
        refusal(reply),
        refused(Status::ServerError, 500, "internal error")
    );
}

#[test]
fn a_warm_creation_with_its_own_mounts_restores_nothing() {
    let mut body = new_sandbox();
    body.volume_mounts = Some(map(&[("/mine", "v")]));
    let kept = vec![preparation_snapshot("/data", VolumeMode::Exclusive)];
    let WarmStep::Mount(draft, Some(mounts), restored) =
        warm(body, SnapshotLoad::Found("snap", kept), no_rules())
    else {
        panic!("the request's mounts are prepared");
    };
    assert!(!draft.extra_drives_in_snapshot);
    assert!(mounts.contains_key("/mine"));
    assert!(restored.is_empty());
    let failed: Result<PreparedVolumeMounts<u8>, ApiError> =
        Err(ApiError::new(409, "volume is reserved"));
    let Err(mut unprepared) = draft.prepared::<(), u8>(restored, failed) else {
        panic!("the mounts could not be prepared");
    };
    while unprepared.cleanup.next().is_some() {
        unprepared.cleanup.report(Ok(()));
    }
    assert_eq!(
        refusal(unprepared.finish()),
        refused(Status::Conflict, 409, "volume is reserved")
    );
}

#[test]
fn a_failed_cleanup_of_unprepared_mounts_is_a_server_error() {
    let mount = || {
        let step = warm(new_sandbox(), SnapshotLoad::Found("snap", Vec::new()), no_rules());
        let WarmStep::Restore(draft, run) = step else {
            panic!("there is nothing to restore");
        };
        let RestoreStep::Done(mounts, ids) = run.next() else {
            panic!("there is nothing to restore");
        };
        let WarmStep::Mount(draft, None, ids) = draft.restored::<u32>(Ok((mounts, ids))) else {
            panic!("there is nothing to mount");
        };
        (draft, ids)
    };
    for (code, status) in [
        (400, Status::BadRequest),
        (409, Status::Conflict),
        (500, Status::ServerError),
        (503, Status::ServerError),
    ] {
        let (draft, ids) = mount();
        let failed: Result<PreparedVolumeMounts<u8>, ApiError> = Err(ApiError::new(code, "no"));
        let unprepared = draft.prepared::<(), u8>(ids, failed).err().unwrap();
        assert_eq!(refusal(unprepared.finish()), refused(status, code, "no"));
    }
    let (draft, ids) = mount();
    let failed: Result<PreparedVolumeMounts<u8>, ApiError> = Err(ApiError::new(400, "no"));
    let mut unprepared = draft.prepared::<(), u8>(ids, failed).err().unwrap();
    assert!(unprepared.cleanup.next().is_some());
    unprepared.cleanup.report(Err(ApiError::new(409, "cleanup failed")));
    assert_eq!(
        refusal(unprepared.finish()),
        refused(Status::ServerError, 409, "cleanup failed")
    );
    let (draft, _) = mount();
    let WarmStep::Answer(reply) = draft.restored::<u32>(Err(ApiError::new(500, "restore"))) else {
        panic!("a failed restoration is answered");
    };
    assert_eq!(refusal(reply).0, Status::ServerError);
    let (draft, _) = mount();
    let WarmStep::Answer(reply) = draft.restored::<u32>(Err(ApiError::new(503, "restore"))) else {
        panic!("a failed restoration is answered");
    };
    assert_eq!(refusal(reply).0, Status::BadRequest);
}

#[test]
fn a_created_sandbox_is_named_in_the_header() {
    let step = warm(new_sandbox(), SnapshotLoad::Found("snap", Vec::new()), no_rules());
    let WarmStep::Restore(draft, _) = step else {
        panic!("there is nothing to restore");
    };
    let PrepareStep::Ready(prepared) = prepare_volume_mounts::<u8>(None, draft.sandbox_id) else {
        panic!("there is nothing to resolve");
    };
    let (_, launch) = draft.prepared::<(), u8>(Vec::new(), Ok(prepared)).unwrap();
    let LaunchStep::Answer(Reply::Created(CreatedSandbox {
        body,
        x_agentenv_sandbox_id,
    })) = launch.launched(Ok((metadata(6, &[]), access())))
    else {
        panic!("the sandbox was created");
    };
    let id = SandboxId { bits: 6 }.to_text();
    assert_eq!(body.sandbox_id, id);
    assert_eq!(x_agentenv_sandbox_id, Some(id));
}

fn image() -> ResolvedBlockImage<&'static str> {
    ResolvedBlockImage {
        image_ref: "ubuntu:24.04".to_string(),
        overlaybd_config_path: "/tmp/rootfs-image.json".to_string(),
        base_context: "context",
        raw_config: Some(Json::Null),
    }
}

#[test]
fn a_cold_creation_resolves_checks_and_launches() {
    let body = || NewColdSandbox::new("ubuntu:24.04".to_string());
    let user: ImageResolution<&str> = ImageResolution::UserError("no such image".to_string());
    assert_eq!(
        refusal(sandboxes_cold_post(body(), user, 1, 512).err().unwrap()),
        refused(Status::BadRequest, 400, "no such image")
    );
    let broken: ImageResolution<&str> = ImageResolution::Failed("registry: down".to_string());
    assert_eq!(
        refusal(sandboxes_cold_post(body(), broken, 1, 512).err().unwrap()),
        refused(
            Status::ServerError,
            500,
            "resolve sandbox rootfs image 'ubuntu:24.04': registry: down"
        )
    );
    let small = sandboxes_cold_post(body(), ImageResolution::Resolved(image()), 1, 64);
    assert_eq!(refusal(small.err().unwrap()).1, 400);

    let draft = || sandboxes_cold_post(body(), ImageResolution::Resolved(image()), 1, 512).unwrap();
    for (code, status) in [(404, Status::BadRequest), (500, Status::ServerError)] {
        let failed: Result<Vec<ResolvedAttachedDrive<u8>>, _> = Err(ApiError::new(code, "drive"));
        assert_eq!(
            refusal(draft().attached(failed, no_rules(), false).err().unwrap()),
            refused(status, code, "drive")
        );
    }
    let attached = vec![ResolvedAttachedDrive {
        drive: 1u8,
        image: AttachedImage {
            drive_id: "data".to_string(),
            mount_path: "/data".to_string(),
            raw_config: None,
        },
    }];
    let (mount, mounts) = draft().attached(Ok(attached), no_rules(), false).unwrap();
    assert!(mounts.is_none());
    let owner = mount.sandbox_id.to_text();
    let prepared = prepared_mounts(owner.clone(), vec![2u8], map(&[("/v", "vol")]));
    let id = mount.sandbox_id;
    let (call, launch) = mount.prepared::<()>(Ok(prepared)).unwrap();
    assert_eq!(call.sandbox_id, id);
    let SandboxLaunchSource::Image {
        extra_drives,
        image_configs,
        resources,
        context,
        ..
    } = call.request.source
    else {
        panic!("the image is launched");
    };
    assert_eq!(extra_drives, [1, 2]);
    assert_eq!(image_configs.len(), 1);
    assert_eq!(resources.unwrap().memory_mib, 512);
    assert_eq!(context, "context");
    let LaunchStep::Release(mut run, reply) = launch.launched(Err(LaunchFailure {
        error: orchestrator_error(OrchestratorErrorKind::SandboxOperationFailed {
            sandbox_id: id,
            operation: "Create".to_string(),
            source_message: "no".to_string(),
            invalid_request: Some("bad device request".to_string()),
        }),
        runtime_stopped: false,
    })) else {
        panic!("a failed launch is cleaned up");
    };
    assert!(run.next().is_none(), "the runtime may still run");
    assert_eq!(
        refusal(reply),
        refused(Status::BadRequest, 400, "bad device request")
    );
}

type Text = &'static str;
type Draft = PublishDraft<Text, Text, Text, Text, Text, u32>;

fn capture(mounts: &[(&str, &str)]) -> Capture<Text, Text, Text, Text, u32> {
    Capture {
        metadata: CapturedMetadata {
            id: SandboxId { bits: 6 },
            context: "context",
            startup: "startup",
            resources: SandboxResources {
                cpu_count: 2,
                memory_mib: 512,
                disk_size_mib: 1024,
            },
            runtime_versions: "versions",
            virtualization_mode: "mode",
            image_configs: vec![ImageConfigEntry {
                drive_id: None,
                mount_path: "/".to_string(),
                config: Json::Null,
            }],
            custom_extension_params: Some(vec![("p".to_string(), Json::Bool(true))]),
            volume_mounts: map(mounts),
        },
        captured_snapshot: 42,
    }
}

fn post_snapshot(
    alias: Option<Text>,
    capture: Result<Capture<Text, Text, Text, Text, u32>, OrchestratorError>,
) -> Result<(Draft, SnapshotRun<u32>), Reply<()>> {
    sandboxes_sandbox_id_snapshots_post(alias, capture)
}

#[test]
fn a_snapshot_is_captured_with_its_volumes_and_published() {
    let named: Result<Option<&str>, Reply<()>> =
        snapshot_alias(Some(Err("bad character".to_string())));
    assert_eq!(
        refusal(named.err().unwrap()),
        refused(
            Status::BadRequest,
            400,
            "invalid snapshot alias: bad character"
        )
    );
    let alias: Result<Option<&str>, Reply<()>> = snapshot_alias(Some(Ok("name")));
    let alias = alias.unwrap();
    let (draft, run) = post_snapshot(alias, Ok(capture(&[("/a", "v")]))).unwrap();
    assert_eq!(run.next().as_deref(), Some("v"));
    let call = draft.snapshotted::<u32, ()>(Ok(Vec::new())).unwrap();
    let published = call.metadata;
    assert_eq!(published.alias, Some("name"));
    assert_eq!(published.source_sandbox_id, SandboxId { bits: 6 }.to_text());
    assert_eq!(published.context, "context");
    assert_eq!(published.startup, "startup");
    assert_eq!(published.resources.memory_mib, 512);
    assert_eq!(published.runtime_versions, "versions");
    assert_eq!(published.virtualization_mode, "mode");
    assert_eq!(published.image_configs.len(), 1);
    assert_eq!(published.image_configs[0].mount_path, "/");
    assert_eq!(published.custom_extension_params.unwrap()[0].0, "p");
    assert!(published.volume_snapshots.is_empty());
    assert_eq!(call.captured_snapshot, 42);
    let refused_capture = |kind| {
        let result = post_snapshot(None, Err(orchestrator_error(kind)));
        refusal(result.err().unwrap())
    };
    assert_eq!(
        refused_capture(OrchestratorErrorKind::InvalidSandboxState {
            state: "paused".to_string()
        }),
        refused(
            Status::BadRequest,
            400,
            "sandbox cannot be snapshotted from paused state"
        )
    );
    assert_eq!(
        refused_capture(OrchestratorErrorKind::SandboxOperationConflict),
        refused(Status::ServerError, 500, "internal error")
    );
    assert!(matches!(snapshot_published(Ok(3)), Reply::Created(3)));
    let failure = |bad_request| PublishFailure {
        bad_request,
        message: "disk full".to_string(),
    };
    assert_eq!(
        refusal(snapshot_published::<()>(Err(failure(None)))),
        refused(Status::ServerError, 500, "disk full")
    );
    assert_eq!(
        refusal(snapshot_published::<()>(Err(failure(Some(
            ApiError::new(400, "bad layer")
        ))))),
        refused(Status::BadRequest, 400, "bad layer")
    );
}

#[test]
fn volumes_that_cannot_be_snapshotted_refuse_the_snapshot() {
    for (code, status) in [(500, Status::ServerError), (404, Status::BadRequest)] {
        let (draft, _) = post_snapshot(None, Ok(capture(&[]))).unwrap();
        let result = draft.snapshotted::<u32, ()>(Err(ApiError::new(code, "volume")));
        assert_eq!(refusal(result.err().unwrap()), refused(status, code, "volume"));
    }
}
