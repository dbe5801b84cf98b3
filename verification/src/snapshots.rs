//! Publishing a snapshot of a sandbox.

use vstd::prelude::*;

use crate::api;
use crate::api::{
    client_or_server_response, refuse_not_found, refuse_state, ApiError, ErrorView,
    OrchestratorError, OrchestratorErrorKind, Reply, Status,
};
use crate::ident::SandboxId;
use crate::json::Json;
use crate::models::SandboxResources;
use crate::requests::ImageConfigEntry;
use crate::text_map::TextMap;
use crate::volume_runs::SnapshotRun;
use crate::volumes::SnapshotVolume;

verus! {

/// The alias that a request names, given as it was read.
pub fn snapshot_alias<A, I>(name: Option<Result<A, String>>) -> (result: Result<
    Option<A>,
    Reply<I>,
>)
    ensures
        match name {
            None => result == Ok::<Option<A>, Reply<I>>(None),
            Some(Ok(alias)) => result == Ok::<Option<A>, Reply<I>>(Some(alias)),
            Some(Err(error)) => result matches Err(reply) && reply.refusal() == Some(
                (
                    Status::BadRequest,
                    ErrorView { code: 400, message: "invalid snapshot alias: "@ + error@ },
                ),
            ),
        },
{
    match name {
        None => Ok(None),
        Some(Ok(alias)) => Ok(Some(alias)),
        Some(Err(error)) => {
            let mut message = "invalid snapshot alias: ".to_owned();
            message.append(error.as_str());
            Err(Reply::Refused(Status::BadRequest, ApiError { code: 400, message }))
        },
    }
}

/// What is known of a sandbox when it is captured. The command context, the
/// startup, the versions and the virtualization mode (`C`, `U`, `R` and `V`) are
/// handed through as they are.
#[derive(Debug)]
pub struct CapturedMetadata<C, U, R, V> {
    pub id: SandboxId,
    pub context: C,
    pub startup: U,
    pub resources: SandboxResources,
    pub runtime_versions: R,
    pub virtualization_mode: V,
    pub image_configs: Vec<ImageConfigEntry>,
    pub custom_extension_params: Option<Vec<(String, Json)>>,
    pub volume_mounts: TextMap,
}

/// A captured snapshot that is not published, with what is known of its sandbox.
#[derive(Debug)]
pub struct Capture<C, U, R, V, M> {
    pub metadata: CapturedMetadata<C, U, R, V>,
    pub captured_snapshot: M,
}

/// How a capture is refused.
pub open spec fn capture_refusal(error: OrchestratorError) -> (Status, ErrorView) {
    match error.kind {
        OrchestratorErrorKind::SandboxNotFound { id } => (
            Status::NotFound,
            api::not_found_view(id.text()),
        ),
        OrchestratorErrorKind::InvalidSandboxState { state } => (
            Status::BadRequest,
            ErrorView {
                code: 400,
                message: "sandbox cannot be snapshotted from "@ + state@ + " state"@,
            },
        ),
        _ => (Status::ServerError, error.internal@),
    }
}

/// A publication that waits for its volumes.
#[derive(Debug)]
pub struct PublishDraft<A, C, U, R, V, M> {
    pub alias: Option<A>,
    pub source_sandbox_id: String,
    pub context: C,
    pub startup: U,
    pub resources: SandboxResources,
    pub runtime_versions: R,
    pub virtualization_mode: V,
    pub image_configs: Vec<ImageConfigEntry>,
    pub custom_extension_params: Option<Vec<(String, Json)>>,
    pub captured_snapshot: M,
}

/// Whether a publication takes everything but the volumes from a capture.
pub open spec fn drafts_capture<A, C, U, R, V, M>(
    draft: PublishDraft<A, C, U, R, V, M>,
    alias: Option<A>,
    capture: Capture<C, U, R, V, M>,
) -> bool {
    &&& draft.alias == alias
    &&& draft.source_sandbox_id@ == capture.metadata.id.text()
    &&& draft.context == capture.metadata.context
    &&& draft.startup == capture.metadata.startup
    &&& draft.resources == capture.metadata.resources
    &&& draft.runtime_versions == capture.metadata.runtime_versions
    &&& draft.virtualization_mode == capture.metadata.virtualization_mode
    &&& draft.image_configs == capture.metadata.image_configs
    &&& draft.custom_extension_params == capture.metadata.custom_extension_params
    &&& draft.captured_snapshot == capture.captured_snapshot
}

/// Goes on once the sandbox is captured: its volumes are to be snapshotted next.
pub fn sandboxes_sandbox_id_snapshots_post<A, C, U, R, V, M, L, I>(
    alias: Option<A>,
    capture: Result<Capture<C, U, R, V, M>, OrchestratorError>,
) -> (result: Result<(PublishDraft<A, C, U, R, V, M>, SnapshotRun<L>), Reply<I>>)
    ensures
        match capture {
            Ok(capture) => result matches Ok((draft, run)) && {
                &&& drafts_capture(draft, alias, capture)
                &&& run.wf()
                &&& run.mounts() == capture.metadata.volume_mounts.list()
                &&& run.snapshots() == Seq::<SnapshotVolume<L>>::empty()
            },
            Err(error) => result matches Err(reply) && reply.refusal() == Some(
                capture_refusal(error),
            ),
        },
{
    match capture {
        Ok(capture) => {
            let metadata = capture.metadata;
            let draft = PublishDraft {
                alias,
                source_sandbox_id: metadata.id.to_text(),
                context: metadata.context,
                startup: metadata.startup,
                resources: metadata.resources,
                runtime_versions: metadata.runtime_versions,
                virtualization_mode: metadata.virtualization_mode,
                image_configs: metadata.image_configs,
                custom_extension_params: metadata.custom_extension_params,
                captured_snapshot: capture.captured_snapshot,
            };
            Ok((draft, SnapshotRun::snapshot_sandbox_volumes(metadata.volume_mounts)))
        },
        Err(error) => {
            match &error.kind {
                OrchestratorErrorKind::SandboxNotFound { id } => {
                    return Err(refuse_not_found(id.to_text().as_str()));
                },
                OrchestratorErrorKind::InvalidSandboxState { state } => {
                    return Err(
                        refuse_state(
                            Status::BadRequest,
                            400,
                            "sandbox cannot be snapshotted from ",
                            state.as_str(),
                        ),
                    );
                },
                _ => {},
            }
            Err(Reply::Refused(Status::ServerError, error.internal))
        },
    }
}

/// What a snapshot is published with, beside its own new identity.
#[derive(Debug)]
pub struct SnapshotPublishMetadata<A, C, U, R, V, L> {
    pub alias: Option<A>,
    pub source_sandbox_id: String,
    pub context: C,
    pub startup: U,
    pub resources: SandboxResources,
    pub runtime_versions: R,
    pub virtualization_mode: V,
    pub image_configs: Vec<ImageConfigEntry>,
    pub volume_snapshots: Vec<SnapshotVolume<L>>,
    pub custom_extension_params: Option<Vec<(String, Json)>>,
}

/// The publication of a captured snapshot.
#[derive(Debug)]
pub struct PublishCall<A, C, U, R, V, M, L> {
    pub metadata: SnapshotPublishMetadata<A, C, U, R, V, L>,
    pub captured_snapshot: M,
}

/// A publication that failed: what a bad request is told, where the repository
/// found the request to blame, and the error's own message.
#[derive(Debug)]
pub struct PublishFailure {
    pub bad_request: Option<ApiError>,
    pub message: String,
}

impl<A, C, U, R, V, M> PublishDraft<A, C, U, R, V, M> {
    /// Goes on once the volumes are snapshotted, or could not be.
    pub fn snapshotted<L, I>(self, result: Result<Vec<SnapshotVolume<L>>, ApiError>) -> (step: Result<
        PublishCall<A, C, U, R, V, M, L>,
        Reply<I>,
    >)
        ensures
            match result {
                Ok(volume_snapshots) => step == Ok::<PublishCall<A, C, U, R, V, M, L>, Reply<I>>(
                    PublishCall {
                        metadata: SnapshotPublishMetadata {
                            alias: self.alias,
                            source_sandbox_id: self.source_sandbox_id,
                            context: self.context,
                            startup: self.startup,
                            resources: self.resources,
                            runtime_versions: self.runtime_versions,
                            virtualization_mode: self.virtualization_mode,
                            image_configs: self.image_configs,
                            volume_snapshots,
                            custom_extension_params: self.custom_extension_params,
                        },
                        captured_snapshot: self.captured_snapshot,
                    },
                ),
                Err(error) => step matches Err(reply) && reply.refusal() == Some(
                    (
                        if error.code == 500 {
                            Status::ServerError
                        } else {
                            Status::BadRequest
                        },
                        error@,
                    ),
                ),
            },
    {
        match result {
            Ok(volume_snapshots) => Ok(
                PublishCall {
                    metadata: SnapshotPublishMetadata {
                        alias: self.alias,
                        source_sandbox_id: self.source_sandbox_id,
                        context: self.context,
                        startup: self.startup,
                        resources: self.resources,
                        runtime_versions: self.runtime_versions,
                        virtualization_mode: self.virtualization_mode,
                        image_configs: self.image_configs,
                        volume_snapshots,
                        custom_extension_params: self.custom_extension_params,
                    },
                    captured_snapshot: self.captured_snapshot,
                },
            ),
            Err(error) => {
                let status = if error.code == 500 {
                    Status::ServerError
                } else {
                    Status::BadRequest
                };
                Err(Reply::Refused(status, error))
            },
        }
    }
}

/// The error of a publication that failed: what a bad request is told, or the
/// error's own message as a server error.
pub open spec fn publish_error(failure: PublishFailure) -> ErrorView {
    match failure.bad_request {
        Some(error) => error@,
        None => ErrorView { code: 500, message: failure.message@ },
    }
}

/// The reply to a request to publish a snapshot.
pub fn snapshot_published<I>(result: Result<I, PublishFailure>) -> (reply: Reply<I>)
    ensures
        match result {
            Ok(info) => reply == Reply::Created(info),
            Err(failure) => reply.refusal() == Some(
                (
                    api::client_or_server(publish_error(failure).code),
                    publish_error(failure),
                ),
            ),
        },
{
    match result {
        Ok(info) => Reply::Created(info),
        Err(failure) => {
            let error = match failure.bad_request {
                Some(error) => error,
                None => ApiError { code: 500, message: failure.message },
            };
            client_or_server_response(error)
        },
    }
}

} // verus!
