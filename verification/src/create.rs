//! The creation of sandboxes: from a snapshot ("warm") and from an image
//! ("cold").
//!
//! Every stage is a type of its own. A stage is left by reporting how its
//! outside action ended, which gives the next stage or the reply.

use vstd::prelude::*;

use crate::api;
use crate::api::{
    client_or_server_response, ApiError, ErrorView, OrchestratorError, OrchestratorErrorKind, Reply,
    Status,
};
use crate::ident;
use crate::ident::SandboxId;
use crate::json::Json;
use crate::models;
use crate::models::{
    sandbox_model, Sandbox, SandboxAccess, SandboxMetadata, SandboxResources, SandboxTimeoutAction,
};
use crate::network;
use crate::network::{
    network_policy_from_create, SandboxNetworkConfig, SandboxNetworkEgressPolicy,
    SandboxNetworkPolicy,
};
use crate::requests;
use crate::requests::{
    build_image_configs, cold_start_resources, duration_from_secs, env_vars_of, timeout_action,
    validate_custom_extension_params, AttachedImage, ImageConfigEntry, NewColdSandbox, NewSandbox,
};
use crate::text;
use crate::text_map::TextMap;
use crate::volume_runs;
use crate::volume_runs::RestoreRun;
use crate::volumes;
use crate::volumes::{
    cleanup_unlaunched_volumes, release_failed_create_volumes, CallRun, PreparedVolumeMounts,
    SnapshotVolume,
};

verus! {

/// What both kinds of creation take from a request.
#[derive(Debug)]
pub struct LaunchOptions {
    /// In seconds.
    pub timeout: Option<u64>,
    pub timeout_action: SandboxTimeoutAction,
    pub auto_resume: bool,
    pub user_metadata: Option<TextMap>,
    pub env_vars: Option<TextMap>,
    pub network_policy: SandboxNetworkPolicy,
    pub secure: bool,
    pub custom_extension_params: Option<Vec<(String, Json)>>,
}

/// What a sandbox is launched from.
#[derive(Debug)]
pub enum SandboxLaunchSource<S, C, D> {
    Snapshot(S),
    Image {
        image_ref: String,
        overlaybd_config_path: String,
        context: C,
        resources: Option<SandboxResources>,
        extra_drives: Vec<D>,
        extra_boot_args: Option<String>,
        image_configs: Vec<ImageConfigEntry>,
    },
}

/// What the orchestrator is asked to launch.
#[derive(Debug)]
pub struct CreateSandboxRequest<S, C, D> {
    pub source: SandboxLaunchSource<S, C, D>,
    pub extra_drives: Vec<D>,
    pub extra_drives_in_snapshot: bool,
    pub options: LaunchOptions,
    pub volume_mounts: TextMap,
}

/// The launch of a sandbox under its final identity. The volumes that were made
/// for it alone are named, so that a failed launch can be cleaned up later.
#[derive(Debug)]
pub struct LaunchCall<S, C, D> {
    pub sandbox_id: SandboxId,
    pub request: CreateSandboxRequest<S, C, D>,
    pub volumes_created_for_launch: Vec<String>,
}

/// A launch that failed, with the evidence whether its runtime never started or
/// was confirmed stopped.
#[derive(Debug)]
pub struct LaunchFailure {
    pub error: OrchestratorError,
    pub runtime_stopped: bool,
}

/// The reply to a successful creation.
#[derive(Debug)]
pub struct CreatedSandbox {
    pub body: Sandbox,
    pub x_agentenv_sandbox_id: Option<String>,
}

/// Whether a reply shows a created sandbox, and names it in its header.
pub open spec fn shows_created(
    reply: Reply<CreatedSandbox>,
    metadata: SandboxMetadata,
    access: SandboxAccess,
) -> bool {
    reply matches Reply::Created(created) && {
        &&& models::shows_sandbox(created.body, metadata, access)
        &&& created.x_agentenv_sandbox_id matches Some(id) && id@ == metadata.id.text()
    }
}

fn created_reply(metadata: SandboxMetadata, access: SandboxAccess) -> (reply: Reply<CreatedSandbox>)
    ensures
        shows_created(reply, metadata, access),
{
    let id = metadata.id.to_text();
    Reply::Created(
        CreatedSandbox { body: sandbox_model(metadata, access), x_agentenv_sandbox_id: Some(id) },
    )
}

/// What is wrong with the network or the extension parameters of a request, or
/// nothing.
pub open spec fn options_fault(
    egress: Result<SandboxNetworkEgressPolicy, String>,
    params: Option<Vec<(String, Json)>>,
    extension_configured: bool,
) -> Option<ErrorView> {
    match egress {
        Err(error) => Some(ErrorView { code: 400, message: error@ }),
        Ok(rules) => match network::policy_fault(rules) {
            Some(message) => Some(ErrorView { code: 400, message }),
            None => if !requests::no_params(params) && !extension_configured {
                Some(ErrorView { code: 400, message: requests::params_refusal() })
            } else {
                None
            },
        },
    }
}

/// The policy of a request whose egress rules were read and are in order.
pub open spec fn asked_policy(
    allow_internet_access: Option<bool>,
    network: Option<SandboxNetworkConfig>,
    rules: SandboxNetworkEgressPolicy,
) -> SandboxNetworkPolicy {
    SandboxNetworkPolicy {
        allow_public_traffic: match network {
            Some(network) => network.allow_public_traffic != Some(false),
            None => true,
        },
        base_policy: network::base_policy(allow_internet_access),
        egress: rules,
    }
}

/// What a warm request takes from its body.
pub open spec fn warm_options(body: NewSandbox, rules: SandboxNetworkEgressPolicy) -> LaunchOptions {
    LaunchOptions {
        timeout: requests::widened(body.timeout),
        timeout_action: requests::asked_timeout_action(body.auto_pause),
        auto_resume: body.auto_resume == Some(true),
        user_metadata: body.metadata,
        env_vars: requests::nonempty_map(body.env_vars),
        network_policy: asked_policy(body.allow_internet_access, body.network, rules),
        secure: body.secure == Some(true),
        custom_extension_params: body.custom_extension_params,
    }
}

/// What a cold request takes from its body.
pub open spec fn cold_options(body: NewColdSandbox, rules: SandboxNetworkEgressPolicy) -> LaunchOptions {
    LaunchOptions {
        timeout: requests::widened(body.timeout),
        timeout_action: requests::asked_timeout_action(body.auto_pause),
        auto_resume: body.auto_resume == Some(true),
        user_metadata: body.metadata,
        env_vars: requests::nonempty_map(body.env_vars),
        network_policy: asked_policy(body.allow_internet_access, body.network, rules),
        secure: body.secure == Some(true),
        custom_extension_params: body.custom_extension_params,
    }
}

fn is_true(value: Option<bool>) -> (yes: bool)
    ensures
        yes == (value == Some(true)),
{
    match value {
        Some(value) => value,
        None => false,
    }
}

/// How loading a runnable snapshot ended: with the snapshot and the volumes that
/// it keeps, without one, or with an error.
#[derive(Debug)]
pub enum SnapshotLoad<S, L> {
    Found(S, Vec<SnapshotVolume<L>>),
    NotFound,
    Failed(ApiError),
}

/// A warm creation whose request is in order.
#[derive(Debug)]
pub struct WarmDraft<S> {
    pub sandbox_id: SandboxId,
    pub snapshot: S,
    pub extra_drives_in_snapshot: bool,
    pub options: LaunchOptions,
}

/// What a warm creation does next.
pub enum WarmStep<S, L> {
    /// The request is answered.
    Answer(Reply<CreatedSandbox>),
    /// Restore the volumes of the snapshot.
    Restore(WarmDraft<S>, RestoreRun<L>),
    /// Prepare the mounts, and keep note of the volumes that were restored.
    Mount(WarmDraft<S>, Option<TextMap>, Vec<String>),
}

/// What is said of a template that is not there.
pub open spec fn template_not_found(template_id: Seq<char>) -> ErrorView {
    ErrorView { code: 400, message: "template "@ + template_id + " not found"@ }
}

/// The status of a failed restoration.
pub open spec fn restore_status(code: i32) -> Status {
    if code == 500 {
        Status::ServerError
    } else {
        Status::BadRequest
    }
}

fn refuse_restore(error: ApiError) -> (reply: Reply<CreatedSandbox>)
    ensures
        reply.refusal() == Some((restore_status(error.code), error@)),
{
    let status = if error.code == 500 {
        Status::ServerError
    } else {
        Status::BadRequest
    };
    Reply::Refused(status, error)
}

/// The status of mounts that could not be prepared.
pub open spec fn mount_status(code: i32) -> Status {
    if code >= 500 {
        Status::ServerError
    } else if code == 409 {
        Status::Conflict
    } else {
        Status::BadRequest
    }
}

fn refuse_mounts(error: ApiError) -> (reply: Reply<CreatedSandbox>)
    ensures
        reply.refusal() == Some((mount_status(error.code), error@)),
{
    let status = if error.code >= 500 {
        Status::ServerError
    } else if error.code == 409 {
        Status::Conflict
    } else {
        Status::BadRequest
    };
    Reply::Refused(status, error)
}

/// Starts a warm creation once its snapshot was looked for. The egress rules are
/// those that the request's lists were read as, and the mount paths of the
/// snapshot's volumes are given as they were normalised. Volumes are restored
/// only for a request that names no mounts of its own.
pub fn create_warm_sandbox<S, L>(
    body: NewSandbox,
    sandbox_id: SandboxId,
    load: SnapshotLoad<S, L>,
    egress: Result<SandboxNetworkEgressPolicy, String>,
    extension_configured: bool,
    normalized: Vec<Result<String, String>>,
    max_mounts: usize,
) -> (step: WarmStep<S, L>)
    requires
        load matches SnapshotLoad::Found(_, kept) ==> normalized@.len() == kept@.len(),
    ensures
        match load {
            SnapshotLoad::NotFound => step matches WarmStep::Answer(reply) && reply.refusal() == Some(
                (Status::BadRequest, template_not_found(body.template_id@)),
            ),
            SnapshotLoad::Failed(error) => step matches WarmStep::Answer(reply) && reply.refusal()
                == Some((Status::ServerError, error@)),
            SnapshotLoad::Found(snapshot, kept) => match options_fault(
                egress,
                body.custom_extension_params,
                extension_configured,
            ) {
                Some(fault) => step matches WarmStep::Answer(reply) && reply.refusal() == Some(
                    (Status::BadRequest, fault),
                ),
                None => {
                    let draft = WarmDraft {
                        sandbox_id,
                        snapshot,
                        extra_drives_in_snapshot: body.volume_mounts is None && kept@.len() > 0,
                        options: warm_options(body, egress->Ok_0),
                    };
                    if body.volume_mounts is Some {
                        step matches WarmStep::Mount(made, mounts, restored) && made == draft
                            && mounts == body.volume_mounts && restored@.len() == 0
                    } else {
                        match volume_runs::restore_fault(
                            kept@.len(),
                            max_mounts as nat,
                            normalized@,
                        ) {
                            Some(fault) => step matches WarmStep::Answer(reply) && reply.refusal()
                                == Some((restore_status(fault.code), fault)),
                            None => step matches WarmStep::Restore(made, run) && {
                                &&& made == draft
                                &&& run.wf()
                                &&& run.owner() == sandbox_id
                                &&& run.todo() == kept@
                                &&& run.paths() == volumes::layout_paths(normalized@)
                                &&& run.mounts() == Map::<Seq<char>, Seq<char>>::empty()
                                &&& run.created() == Seq::<Seq<char>>::empty()
                                &&& run.placed() == Seq::<Seq<char>>::empty()
                            },
                        }
                    }
                },
            },
        },
        step matches WarmStep::Mount(made, _, _) ==> {
            &&& made.options.user_metadata == body.metadata
            &&& match body.env_vars {
                Some(map) if map.list().len() > 0 => made.options.env_vars == Some(map),
                _ => made.options.env_vars is None,
            }
            &&& match body.timeout {
                Some(secs) => made.options.timeout == Some(secs as u64),
                None => made.options.timeout is None,
            }
            &&& made.options.timeout_action is Delete <==> body.auto_pause == Some(false)
            &&& made.options.auto_resume <==> body.auto_resume == Some(true)
            &&& made.options.secure <==> body.secure == Some(true)
            &&& made.options.custom_extension_params == body.custom_extension_params
            &&& Ok::<SandboxNetworkEgressPolicy, String>(made.options.network_policy.egress)
                == egress
        },
        step matches WarmStep::Restore(made, _) ==> {
            &&& made.options.user_metadata == body.metadata
            &&& match body.env_vars {
                Some(map) if map.list().len() > 0 => made.options.env_vars == Some(map),
                _ => made.options.env_vars is None,
            }
            &&& match body.timeout {
                Some(secs) => made.options.timeout == Some(secs as u64),
                None => made.options.timeout is None,
            }
            &&& made.options.timeout_action is Delete <==> body.auto_pause == Some(false)
            &&& made.options.auto_resume <==> body.auto_resume == Some(true)
            &&& made.options.secure <==> body.secure == Some(true)
            &&& made.options.custom_extension_params == body.custom_extension_params
            &&& Ok::<SandboxNetworkEgressPolicy, String>(made.options.network_policy.egress)
                == egress
        },
{
    let (snapshot, kept) = match load {
        SnapshotLoad::Found(snapshot, kept) => (snapshot, kept),
        SnapshotLoad::NotFound => {
            let mut message = "template ".to_owned();
            message.append(body.template_id.as_str());
            message.append(" not found");
            return WarmStep::Answer(
                Reply::Refused(Status::BadRequest, ApiError { code: 400, message }),
            );
        },
        SnapshotLoad::Failed(error) => {
            return WarmStep::Answer(Reply::Refused(Status::ServerError, error));
        },
    };
    let network_policy = match network_policy_from_create(
        body.allow_internet_access,
        body.network.as_ref(),
        egress,
    ) {
        Ok(policy) => policy,
        Err(message) => {
            return WarmStep::Answer(
                Reply::Refused(Status::BadRequest, ApiError { code: 400, message }),
            );
        },
    };
    if let Err(message) = validate_custom_extension_params(
        &body.custom_extension_params,
        extension_configured,
    ) {
        return WarmStep::Answer(
            Reply::Refused(Status::BadRequest, ApiError { code: 400, message }),
        );
    }
    let draft = WarmDraft {
        sandbox_id,
        snapshot,
        extra_drives_in_snapshot: body.volume_mounts.is_none() && kept.len() > 0,
        options: LaunchOptions {
            timeout: duration_from_secs(body.timeout),
            timeout_action: timeout_action(body.auto_pause),
            auto_resume: is_true(body.auto_resume),
            user_metadata: body.metadata,
            env_vars: env_vars_of(body.env_vars),
            network_policy,
            secure: is_true(body.secure),
            custom_extension_params: body.custom_extension_params,
        },
    };
    if body.volume_mounts.is_some() {
        return WarmStep::Mount(draft, body.volume_mounts, Vec::new());
    }
    match RestoreRun::restore_snapshot_volume_mounts(kept, normalized, max_mounts, sandbox_id) {
        Ok(run) => WarmStep::Restore(draft, run),
        Err(error) => WarmStep::Answer(refuse_restore(error)),
    }
}

impl<S> WarmDraft<S> {
    /// Goes on once the volumes of the snapshot are restored.
    pub fn restored<L>(self, result: Result<(TextMap, Vec<String>), ApiError>) -> (step: WarmStep<
        S,
        L,
    >)
        ensures
            match result {
                Ok((mounts, volume_ids)) => step matches WarmStep::Mount(draft, wanted, restored) && {
                    &&& draft == self
                    &&& wanted == requests::nonempty_map(Some(mounts))
                    &&& restored == volume_ids
                },
                Err(error) => step matches WarmStep::Answer(reply) && reply.refusal() == Some(
                    (restore_status(error.code), error@),
                ),
            },
    {
        match result {
            Ok((mounts, volume_ids)) => {
                let wanted = if mounts.is_empty() {
                    None
                } else {
                    Some(mounts)
                };
                WarmStep::Mount(self, wanted, volume_ids)
            },
            Err(error) => WarmStep::Answer(refuse_restore(error)),
        }
    }

    /// Goes on once the mounts are prepared, or could not be.
    pub fn prepared<C, D>(
        self,
        restored: Vec<String>,
        result: Result<PreparedVolumeMounts<D>, ApiError>,
    ) -> (step: Result<(LaunchCall<S, C, D>, WarmLaunch), Unprepared>)
        ensures
            match result {
                Ok(prepared) => step matches Ok((call, launch)) && {
                    &&& call.sandbox_id == self.sandbox_id
                    &&& text::texts(call.volumes_created_for_launch@) == text::texts(restored@)
                    &&& call.request == (CreateSandboxRequest {
                        source: SandboxLaunchSource::<S, C, D>::Snapshot(self.snapshot),
                        extra_drives: prepared.drives,
                        extra_drives_in_snapshot: self.extra_drives_in_snapshot,
                        options: self.options,
                        volume_mounts: prepared.mounts,
                    })
                    &&& launch.owner() == volumes::optional_text(prepared.owner)
                    &&& launch.reserved() == text::texts(prepared.volume_ids@)
                    &&& launch.restored() == text::texts(restored@)
                },
                Err(error) => step matches Err(unprepared) && {
                    &&& unprepared.error == error
                    &&& unprepared.cleanup.is_strict()
                    &&& unprepared.cleanup.failure() is None
                    &&& unprepared.cleanup.remaining() == volumes::unlaunched_calls(
                        self.sandbox_id.text(),
                        text::texts(restored@),
                    )
                },
            },
    {
        match result {
            Ok(prepared) => {
                let call = LaunchCall {
                    sandbox_id: self.sandbox_id,
                    request: CreateSandboxRequest {
                        source: SandboxLaunchSource::Snapshot(self.snapshot),
                        extra_drives: prepared.drives,
                        extra_drives_in_snapshot: self.extra_drives_in_snapshot,
                        options: self.options,
                        volume_mounts: prepared.mounts,
                    },
                    volumes_created_for_launch: text::copy_texts(&restored),
                };
                let launch = WarmLaunch {
                    owner: prepared.owner,
                    reserved: prepared.volume_ids,
                    restored,
                };
                Ok((call, launch))
            },
            Err(error) => Err(
                Unprepared {
                    cleanup: cleanup_unlaunched_volumes(self.sandbox_id, &restored),
                    error,
                },
            ),
        }
    }
}

/// A creation whose mounts could not be prepared: what was restored for it is
/// removed, and then it is answered.
#[derive(Debug)]
pub struct Unprepared {
    pub cleanup: CallRun<ApiError>,
    pub error: ApiError,
}

impl Unprepared {
    /// The reply once the cleanup is over.
    pub fn finish(self) -> (reply: Reply<CreatedSandbox>)
        ensures
            reply.refusal() == (match self.cleanup.failure() {
                Some(cleanup_error) => Some((Status::ServerError, cleanup_error@)),
                None => Some((mount_status(self.error.code), self.error@)),
            }),
    {
        match self.cleanup.result() {
            Err(cleanup_error) => Reply::Refused(Status::ServerError, cleanup_error),
            Ok(()) => refuse_mounts(self.error),
        }
    }
}

/// A launch that has been asked for, with everything that was reserved for it.
#[derive(Debug)]
pub struct WarmLaunch {
    owner: Option<String>,
    reserved: Vec<String>,
    restored: Vec<String>,
}

/// What comes of a launch.
#[derive(Debug)]
pub enum LaunchStep {
    /// The request is answered.
    Answer(Reply<CreatedSandbox>),
    /// Release the volumes, whatever comes of that, and then answer.
    Release(CallRun<ApiError>, Reply<CreatedSandbox>),
}

impl WarmLaunch {
    /// The owner that volumes were reserved for.
    pub closed spec fn owner(self) -> Option<Seq<char>> {
        volumes::optional_text(self.owner)
    }

    /// The volumes that were reserved.
    pub closed spec fn reserved(self) -> Seq<Seq<char>> {
        text::texts(self.reserved@)
    }

    /// The volumes that were restored.
    pub closed spec fn restored(self) -> Seq<Seq<char>> {
        text::texts(self.restored@)
    }

    /// What comes of the launch. After a failure the volumes are released as far
    /// as the evidence of the stop allows, and the failure is an internal error.
    pub fn launched(self, outcome: Result<(SandboxMetadata, SandboxAccess), LaunchFailure>) -> (step:
        LaunchStep)
        ensures
            match outcome {
                Ok((metadata, access)) => step matches LaunchStep::Answer(reply) && shows_created(
                    reply,
                    metadata,
                    access,
                ),
                Err(failure) => step matches LaunchStep::Release(run, reply) && {
                    &&& run.is_strict()
                    &&& run.failure() is None
                    &&& run.remaining() == volumes::failed_create_calls(
                        self.owner(),
                        failure.runtime_stopped,
                        self.reserved(),
                        self.restored(),
                    )
                    &&& reply.refusal() == Some((Status::ServerError, failure.error.internal@))
                },
            },
    {
        match outcome {
            Ok((metadata, access)) => LaunchStep::Answer(created_reply(metadata, access)),
            Err(failure) => {
                let run = release_failed_create_volumes(
                    self.owner,
                    failure.runtime_stopped,
                    &self.reserved,
                    &self.restored,
                );
                LaunchStep::Release(
                    run,
                    Reply::Refused(Status::ServerError, failure.error.internal),
                )
            },
        }
    }
}

/// An image that was resolved for a cold creation.
#[derive(Debug)]
pub struct ResolvedBlockImage<C> {
    pub image_ref: String,
    pub overlaybd_config_path: String,
    pub base_context: C,
    pub raw_config: Option<Json>,
}

/// How resolving an image ended.
#[derive(Debug)]
pub enum ImageResolution<C> {
    Resolved(ResolvedBlockImage<C>),
    /// The request is to blame.
    UserError(String),
    /// Something else failed; the text gives all causes.
    Failed(String),
}

/// An attached drive that was resolved for a cold creation.
#[derive(Debug)]
pub struct ResolvedAttachedDrive<D> {
    pub drive: D,
    pub image: AttachedImage,
}

/// A cold creation whose image and resources are in order. Its attached drives
/// are to be resolved next.
#[derive(Debug)]
pub struct ColdDraft<C> {
    pub rootfs: ResolvedBlockImage<C>,
    pub resources: SandboxResources,
    pub body: NewColdSandbox,
}

/// A cold creation whose request is in order. Its mounts are to be prepared next,
/// for the sandbox that was drawn for it.
#[derive(Debug)]
pub struct ColdMount<C, D> {
    pub sandbox_id: SandboxId,
    pub rootfs: ResolvedBlockImage<C>,
    pub resources: SandboxResources,
    pub attached: Vec<ResolvedAttachedDrive<D>>,
    pub extra_boot_args: Option<String>,
    pub options: LaunchOptions,
}

/// What is said of an image that could not be resolved.
pub open spec fn image_failure(image: Seq<char>, detail: Seq<char>) -> ErrorView {
    ErrorView {
        code: 500,
        message: "resolve sandbox rootfs image '"@ + image + "': "@ + detail,
    }
}

/// Starts a cold creation once its image was resolved.
pub fn sandboxes_cold_post<C>(
    body: NewColdSandbox,
    image: ImageResolution<C>,
    default_cpu: u32,
    default_mem: u32,
) -> (result: Result<ColdDraft<C>, Reply<CreatedSandbox>>)
    ensures
        match image {
            ImageResolution::UserError(message) => result matches Err(reply) && reply.refusal()
                == Some((Status::BadRequest, ErrorView { code: 400, message: message@ })),
            ImageResolution::Failed(detail) => result matches Err(reply) && reply.refusal() == Some(
                (Status::ServerError, image_failure(body.image@, detail@)),
            ),
            ImageResolution::Resolved(rootfs) => match requests::resources_fault(
                body,
                default_cpu,
                default_mem,
            ) {
                Some(fault) => result matches Err(reply) && reply.refusal() == Some(
                    (Status::BadRequest, fault),
                ),
                None => result matches Ok(draft) && {
                    &&& draft.rootfs == rootfs
                    &&& draft.body == body
                    &&& draft.resources == asked_resources(body, default_cpu, default_mem)
                },
            },
        },
{
    let rootfs = match image {
        ImageResolution::Resolved(rootfs) => rootfs,
        ImageResolution::UserError(message) => {
            return Err(Reply::Refused(Status::BadRequest, ApiError { code: 400, message }));
        },
        ImageResolution::Failed(detail) => {
            let mut message = "resolve sandbox rootfs image '".to_owned();
            message.append(body.image.as_str());
            message.append("': ");
            message.append(detail.as_str());
            return Err(Reply::Refused(Status::ServerError, ApiError { code: 500, message }));
        },
    };
    match cold_start_resources(&body, default_cpu, default_mem) {
        Err(error) => Err(Reply::Refused(Status::BadRequest, error)),
        Ok(resources) => Ok(ColdDraft { rootfs, resources, body }),
    }
}

/// The resources of a request that are in order.
pub open spec fn asked_resources(
    body: NewColdSandbox,
    default_cpu: u32,
    default_mem: u32,
) -> SandboxResources {
    SandboxResources {
        cpu_count: if body.cpu_count is Some {
            body.cpu_count->0
        } else {
            default_cpu
        },
        memory_mib: if body.memory_mb is Some {
            body.memory_mb->0
        } else {
            default_mem
        },
        disk_size_mib: if body.disk_size_mb is Some {
            body.disk_size_mb->0
        } else {
            0
        },
    }
}

impl<C> ColdDraft<C> {
    /// Goes on once the attached drives are resolved, or could not be. The mounts
    /// that the request asks for are handed on.
    pub fn attached<D>(
        self,
        result: Result<Vec<ResolvedAttachedDrive<D>>, ApiError>,
        egress: Result<SandboxNetworkEgressPolicy, String>,
        extension_configured: bool,
    ) -> (step: Result<(ColdMount<C, D>, Option<TextMap>), Reply<CreatedSandbox>>)
        ensures
            match result {
                Err(error) => step matches Err(reply) && reply.refusal() == Some(
                    (api::client_or_server(error.code), error@),
                ),
                Ok(drives) => match options_fault(
                    egress,
                    self.body.custom_extension_params,
                    extension_configured,
                ) {
                    Some(fault) => step matches Err(reply) && reply.refusal() == Some(
                        (Status::BadRequest, fault),
                    ),
                    None => step matches Ok((mount, mounts)) && {
                        &&& ident::is_v7(mount.sandbox_id.bits)
                        &&& mount == (ColdMount {
                            sandbox_id: mount.sandbox_id,
                            rootfs: self.rootfs,
                            resources: self.resources,
                            attached: drives,
                            extra_boot_args: self.body.extra_boot_args,
                            options: cold_options(self.body, egress->Ok_0),
                        })
                        &&& mounts == self.body.volume_mounts
                    },
                },
            },
            step matches Ok((made, _)) ==> {
                let body = self.body;
                &&& made.options.user_metadata == body.metadata
                &&& match body.env_vars {
                    Some(map) if map.list().len() > 0 => made.options.env_vars == Some(map),
                    _ => made.options.env_vars is None,
                }
                &&& match body.timeout {
                    Some(secs) => made.options.timeout == Some(secs as u64),
                    None => made.options.timeout is None,
                }
                &&& made.options.timeout_action is Delete <==> body.auto_pause == Some(false)
                &&& made.options.auto_resume <==> body.auto_resume == Some(true)
                &&& made.options.secure <==> body.secure == Some(true)
                &&& made.options.custom_extension_params == body.custom_extension_params
                &&& Ok::<SandboxNetworkEgressPolicy, String>(made.options.network_policy.egress)
                    == egress
            },
    {
        let attached = match result {
            Ok(attached) => attached,
            Err(error) => {
                return Err(client_or_server_response(error));
            },
        };
        let body = self.body;
        let network_policy = match network_policy_from_create(
            body.allow_internet_access,
            body.network.as_ref(),
            egress,
        ) {
            Ok(policy) => policy,
            Err(message) => {
                return Err(Reply::Refused(Status::BadRequest, ApiError { code: 400, message }));
            },
        };
        if let Err(message) = validate_custom_extension_params(
            &body.custom_extension_params,
            extension_configured,
        ) {
            return Err(Reply::Refused(Status::BadRequest, ApiError { code: 400, message }));
        }
        let mount = ColdMount {
            sandbox_id: SandboxId::new(),
            rootfs: self.rootfs,
            resources: self.resources,
            attached,
            extra_boot_args: body.extra_boot_args,
            options: LaunchOptions {
                timeout: duration_from_secs(body.timeout),
                timeout_action: timeout_action(body.auto_pause),
                auto_resume: is_true(body.auto_resume),
                user_metadata: body.metadata,
                env_vars: env_vars_of(body.env_vars),
                network_policy,
                secure: is_true(body.secure),
                custom_extension_params: body.custom_extension_params,
            },
        };
        Ok((mount, body.volume_mounts))
    }
}

/// The drives of resolved attachments, in order.
pub open spec fn drives_of<D>(attached: Seq<ResolvedAttachedDrive<D>>) -> Seq<D> {
    attached.map_values(|one: ResolvedAttachedDrive<D>| one.drive)
}

/// The images of resolved attachments, in order.
pub open spec fn images_of<D>(attached: Seq<ResolvedAttachedDrive<D>>) -> Seq<AttachedImage> {
    attached.map_values(|one: ResolvedAttachedDrive<D>| one.image)
}

fn split_attached<D>(attached: Vec<ResolvedAttachedDrive<D>>) -> (parts: (
    Vec<D>,
    Vec<AttachedImage>,
))
    ensures
        parts.0@ == drives_of(attached@),
        parts.1@ == images_of(attached@),
{
    let mut rest = attached;
    let mut drives: Vec<D> = Vec::new();
    let mut images: Vec<AttachedImage> = Vec::new();
    let ghost mut done: int = 0;
    while rest.len() > 0
        invariant
            0 <= done <= attached@.len(),
            rest@ == attached@.skip(done),
            drives@ == drives_of(attached@).take(done),
            images@ == images_of(attached@).take(done),
        decreases rest.len(),
    {
        let first = rest.remove(0);
        assert(first == attached@[done]);
        drives.push(first.drive);
        images.push(first.image);
        proof {
            assert(drives@ =~= drives_of(attached@).take(done + 1));
            assert(images@ =~= images_of(attached@).take(done + 1));
            done = done + 1;
            assert(rest@ =~= attached@.skip(done));
        }
    }
    assert(drives@ =~= drives_of(attached@));
    assert(images@ =~= images_of(attached@));
    (drives, images)
}

/// Whether entries are the image configurations of a root file system and of
/// attached drives, as far as they are known.
pub open spec fn configures(
    entries: Seq<ImageConfigEntry>,
    rootfs: Option<Json>,
    attached: Seq<AttachedImage>,
) -> bool {
    match rootfs {
        Some(config) => {
            &&& entries.len() > 0
            &&& entries[0].drive_id is None
            &&& entries[0].mount_path@ == "/"@
            &&& entries[0].config == config
            &&& requests::attached_entries(entries.skip(1), attached)
        },
        None => requests::attached_entries(entries, attached),
    }
}

impl<C, D> ColdMount<C, D> {
    /// Goes on once the mounts are prepared, or could not be. The drives of the
    /// request come before those of its volumes.
    pub fn prepared<S>(self, result: Result<PreparedVolumeMounts<D>, ApiError>) -> (step: Result<
        (LaunchCall<S, C, D>, ColdLaunch),
        Reply<CreatedSandbox>,
    >)
        ensures
            match result {
                Err(error) => step matches Err(reply) && reply.refusal() == Some(
                    (mount_status(error.code), error@),
                ),
                Ok(prepared) => step matches Ok((call, launch)) && {
                    &&& call.sandbox_id == self.sandbox_id
                    &&& call.volumes_created_for_launch@.len() == 0
                    &&& call.request.extra_drives@.len() == 0
                    &&& !call.request.extra_drives_in_snapshot
                    &&& call.request.options == self.options
                    &&& call.request.volume_mounts == prepared.mounts
                    &&& call.request.source matches SandboxLaunchSource::Image {
                        image_ref,
                        overlaybd_config_path,
                        context,
                        resources,
                        extra_drives,
                        extra_boot_args,
                        image_configs,
                    } && {
                        &&& image_ref == self.rootfs.image_ref
                        &&& overlaybd_config_path == self.rootfs.overlaybd_config_path
                        &&& context == self.rootfs.base_context
                        &&& resources == Some(self.resources)
                        &&& extra_drives@ == drives_of(self.attached@) + prepared.drives@
                        &&& extra_boot_args == self.extra_boot_args
                        &&& configures(
                            image_configs@,
                            self.rootfs.raw_config,
                            images_of(self.attached@),
                        )
                    }
                    &&& launch.owner() == volumes::optional_text(prepared.owner)
                    &&& launch.reserved() == text::texts(prepared.volume_ids@)
                },
            },
    {
        let prepared = match result {
            Ok(prepared) => prepared,
            Err(error) => {
                return Err(refuse_mounts(error));
            },
        };
        let (mut extra_drives, images) = split_attached(self.attached);
        let mut volume_drives = prepared.drives;
        extra_drives.append(&mut volume_drives);
        let image_configs = build_image_configs(self.rootfs.raw_config, images);
        let call = LaunchCall {
            sandbox_id: self.sandbox_id,
            request: CreateSandboxRequest {
                source: SandboxLaunchSource::Image {
                    image_ref: self.rootfs.image_ref,
                    overlaybd_config_path: self.rootfs.overlaybd_config_path,
                    context: self.rootfs.base_context,
                    resources: Some(self.resources),
                    extra_drives,
                    extra_boot_args: self.extra_boot_args,
                    image_configs,
                },
                extra_drives: Vec::new(),
                extra_drives_in_snapshot: false,
                options: self.options,
                volume_mounts: prepared.mounts,
            },
            volumes_created_for_launch: Vec::new(),
        };
        Ok((call, ColdLaunch { owner: prepared.owner, reserved: prepared.volume_ids }))
    }
}

/// A cold launch that has been asked for, with everything that was reserved for
/// it.
#[derive(Debug)]
pub struct ColdLaunch {
    owner: Option<String>,
    reserved: Vec<String>,
}

impl ColdLaunch {
    /// The owner that volumes were reserved for.
    pub closed spec fn owner(self) -> Option<Seq<char>> {
        volumes::optional_text(self.owner)
    }

    /// The volumes that were reserved.
    pub closed spec fn reserved(self) -> Seq<Seq<char>> {
        text::texts(self.reserved@)
    }

    /// What comes of the launch. After a failure the volumes are released as far
    /// as the evidence of the stop allows. A request that the device daemon found
    /// invalid is the client's fault; anything else is an internal error.
    pub fn launched(self, outcome: Result<(SandboxMetadata, SandboxAccess), LaunchFailure>) -> (step:
        LaunchStep)
        ensures
            match outcome {
                Ok((metadata, access)) => step matches LaunchStep::Answer(reply) && shows_created(
                    reply,
                    metadata,
                    access,
                ),
                Err(failure) => step matches LaunchStep::Release(run, reply) && {
                    &&& run.is_strict()
                    &&& run.failure() is None
                    &&& run.remaining() == volumes::failed_create_calls(
                        self.owner(),
                        failure.runtime_stopped,
                        self.reserved(),
                        Seq::<Seq<char>>::empty(),
                    )
                    &&& reply.refusal() == Some(cold_refusal(failure.error))
                },
            },
    {
        match outcome {
            Ok((metadata, access)) => LaunchStep::Answer(created_reply(metadata, access)),
            Err(failure) => {
                let none: Vec<String> = Vec::new();
                assert(text::texts(none@) =~= Seq::<Seq<char>>::empty());
                let run = release_failed_create_volumes(
                    self.owner,
                    failure.runtime_stopped,
                    &self.reserved,
                    &none,
                );
                let invalid_request: Option<String> = match failure.error.kind {
                    OrchestratorErrorKind::SandboxOperationFailed { invalid_request, .. } => {
                        invalid_request
                    },
                    _ => None,
                };
                let reply = match invalid_request {
                    Some(message) => Reply::Refused(
                        Status::BadRequest,
                        ApiError { code: 400, message },
                    ),
                    None => Reply::Refused(Status::ServerError, failure.error.internal),
                };
                LaunchStep::Release(run, reply)
            },
        }
    }
}

/// How a failed cold launch is refused.
pub open spec fn cold_refusal(error: OrchestratorError) -> (Status, ErrorView) {
    match error.kind {
        OrchestratorErrorKind::SandboxOperationFailed {
            invalid_request: Some(message),
            ..
        } => (Status::BadRequest, ErrorView { code: 400, message: message@ }),
        _ => (Status::ServerError, error.internal@),
    }
}

} // verus!
