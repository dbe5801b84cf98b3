//! Requests about one sandbox: what is asked of the orchestrator, and what its
//! answer comes to.

use vstd::prelude::*;

use crate::api;
use crate::api::{
    error_model, refuse_not_found, refuse_state, ApiError, ErrorView, OrchestratorError,
    OrchestratorErrorKind, Reply, Status,
};
use crate::ident;
use crate::ident::SandboxId;
use crate::json::Json;
use crate::models;
use crate::models::{
    sandbox_detail_model, sandbox_model, Sandbox, SandboxAccess, SandboxDetail, SandboxMetadata,
    SandboxState,
};
use crate::network;
use crate::network::{
    network_policy_from_update, SandboxNetworkEgressPolicy, SandboxNetworkPolicy,
    SandboxNetworkUpdateConfig,
};
use crate::requests;
use crate::requests::{duration_from_secs, params_map_to_model};

verus! {

/// Reads the sandbox that a path names.
pub fn sandbox_of_path<T>(path_id: &str) -> (result: Result<SandboxId, Reply<T>>)
    ensures
        names_sandbox(result, path_id@, ident::uuid_parse(path_id@)),
        forall|id: SandboxId| path_id@ == #[trigger] id.text() ==> result == Ok::<
            SandboxId,
            Reply<T>,
        >(id),
{
    accepted_sandbox(
        path_id,
        match SandboxId::parse_str(path_id) {
            Some(id) => Some(id.bits),
            None => None,
        },
    )
}

/// Whether a result is what reading a path comes to, given the UUID that its text
/// was read as.
pub open spec fn names_sandbox<T>(
    result: Result<SandboxId, Reply<T>>,
    path_id: Seq<char>,
    read: Option<u128>,
) -> bool {
    match read {
        Some(bits) => result == Ok::<SandboxId, Reply<T>>(SandboxId { bits }),
        None => result matches Err(reply) && reply.refusal() == Some(
            (Status::NotFound, api::not_found_view(path_id)),
        ),
    }
}

/// The sandbox that a path names, given the UUID that its text was read as.
pub fn accepted_sandbox<T>(path_id: &str, read: Option<u128>) -> (result: Result<
    SandboxId,
    Reply<T>,
>)
    ensures
        names_sandbox(result, path_id@, read),
{
    match read {
        Some(bits) => Ok(SandboxId { bits }),
        None => Err(refuse_not_found(path_id)),
    }
}

/// How a request is refused for an error that none of its own rules is about: a
/// sandbox that is not there, or a server error.
pub open spec fn plain_refusal(error: OrchestratorError) -> (Status, ErrorView) {
    match error.kind {
        OrchestratorErrorKind::SandboxNotFound { id } => (
            Status::NotFound,
            api::not_found_view(id.text()),
        ),
        _ => (Status::ServerError, api::error_model_view(error)),
    }
}

/// Refuses a request for an error that none of its own rules is about.
fn refuse_plain<T>(error: OrchestratorError) -> (reply: Reply<T>)
    ensures
        reply.refusal() == Some(plain_refusal(error)),
{
    if let OrchestratorErrorKind::SandboxNotFound { id } = error.kind {
        return refuse_not_found(id.to_text().as_str());
    }
    Reply::Refused(Status::ServerError, error_model(error))
}

/// The message that a sandbox's state does not allow something.
pub open spec fn state_message(before: Seq<char>, state: Seq<char>) -> Seq<char> {
    before + state + " state"@
}

/// What the orchestrator is asked about the time that a sandbox has left.
#[derive(Debug, Clone, Copy, PartialEq, Eq, Structural)]
pub struct KeepAlive {
    /// In seconds, where the request gives one.
    pub timeout: Option<u64>,
    /// Whether the time may get shorter by it.
    pub may_shorten: bool,
}

/// What connecting to a sandbox does next.
#[derive(Debug)]
pub enum ConnectStep {
    /// The request is answered.
    Answer(Reply<Sandbox>),
    /// Keep the sandbox alive, and report.
    KeepAlive(SandboxMetadata, KeepAlive),
    /// Resume the sandbox for this many seconds, and report.
    Resume(u64),
}

/// Goes on connecting once the sandbox was looked up. One that is up is kept
/// alive, one that is paused is resumed, and one that is being removed is not
/// there.
pub fn sandboxes_sandbox_id_connect_post(
    sandbox_id: SandboxId,
    lookup: Result<Option<SandboxMetadata>, OrchestratorError>,
    timeout: u32,
) -> (step: ConnectStep)
    ensures
        match lookup {
            Err(error) => step matches ConnectStep::Answer(reply) && reply.refusal() == Some(
                (Status::ServerError, api::error_model_view(error)),
            ),
            Ok(None) => step matches ConnectStep::Answer(reply) && reply.refusal() == Some(
                (Status::NotFound, api::not_found_view(sandbox_id.text())),
            ),
            Ok(Some(metadata)) => match metadata.state {
                SandboxState::Killing | SandboxState::CleanupPending => step matches ConnectStep::Answer(
                    reply,
                ) && reply.refusal() == Some(
                    (Status::NotFound, api::not_found_view(sandbox_id.text())),
                ),
                SandboxState::Pausing | SandboxState::Paused => step == ConnectStep::Resume(
                    timeout as u64,
                ),
                _ => step == ConnectStep::KeepAlive(
                    metadata,
                    KeepAlive { timeout: Some(timeout as u64), may_shorten: false },
                ),
            },
        },
{
    let metadata = match lookup {
        Ok(Some(metadata)) => metadata,
        Ok(None) => {
            return ConnectStep::Answer(refuse_not_found(sandbox_id.to_text().as_str()));
        },
        Err(error) => {
            return ConnectStep::Answer(Reply::Refused(Status::ServerError, error_model(error)));
        },
    };
    match metadata.state {
        SandboxState::Creating | SandboxState::Resuming | SandboxState::Running
        | SandboxState::Snapshotting | SandboxState::Forking => ConnectStep::KeepAlive(
            metadata,
            KeepAlive { timeout: duration_from_secs(Some(timeout)), may_shorten: false },
        ),
        SandboxState::Killing | SandboxState::CleanupPending => ConnectStep::Answer(
            refuse_not_found(sandbox_id.to_text().as_str()),
        ),
        SandboxState::Pausing | SandboxState::Paused => ConnectStep::Resume(timeout as u64),
    }
}

/// How connecting to a sandbox that is up is refused.
pub open spec fn keep_alive_refusal(error: OrchestratorError) -> (Status, ErrorView) {
    match error.kind {
        OrchestratorErrorKind::InvalidTimeout { timeout_debug, .. } => (
            Status::BadRequest,
            ErrorView { code: 400, message: "invalid timeout: "@ + timeout_debug@ },
        ),
        _ => plain_refusal(error),
    }
}

/// The reply to connecting to a sandbox that is up.
pub fn connect_kept_alive(
    metadata: SandboxMetadata,
    access: SandboxAccess,
    result: Result<(), OrchestratorError>,
) -> (reply: Reply<Sandbox>)
    ensures
        match result {
            Ok(()) => reply matches Reply::Success(sandbox) && models::shows_sandbox(
                sandbox,
                metadata,
                access,
            ),
            Err(error) => reply.refusal() == Some(keep_alive_refusal(error)),
        },
{
    match result {
        Ok(()) => Reply::Success(sandbox_model(metadata, access)),
        Err(error) => {
            if let OrchestratorErrorKind::InvalidTimeout { timeout_debug, .. } = &error.kind {
                let mut message = "invalid timeout: ".to_owned();
                message.append(timeout_debug.as_str());
                return Reply::Refused(Status::BadRequest, ApiError { code: 400, message });
            }
            refuse_plain(error)
        },
    }
}

/// How connecting to a paused sandbox is refused.
pub open spec fn connect_resume_refusal(error: OrchestratorError) -> (Status, ErrorView) {
    match error.kind {
        OrchestratorErrorKind::InvalidSandboxState { state } => (
            Status::BadRequest,
            ErrorView {
                code: 400,
                message: state_message("sandbox cannot be resumed from "@, state@),
            },
        ),
        OrchestratorErrorKind::SandboxOperationConflict => (
            Status::Conflict,
            ErrorView { code: 409, message: error.message@ },
        ),
        _ => plain_refusal(error),
    }
}

/// The reply to connecting to a paused sandbox.
pub fn connect_resumed(result: Result<(SandboxMetadata, SandboxAccess), OrchestratorError>) -> (reply:
    Reply<Sandbox>)
    ensures
        match result {
            Ok((metadata, access)) => reply matches Reply::Created(sandbox) && models::shows_sandbox(
                sandbox,
                metadata,
                access,
            ),
            Err(error) => reply.refusal() == Some(connect_resume_refusal(error)),
        },
{
    match result {
        Ok((metadata, access)) => Reply::Created(sandbox_model(metadata, access)),
        Err(error) => {
            match &error.kind {
                OrchestratorErrorKind::InvalidSandboxState { state } => {
                    return refuse_state(
                        Status::BadRequest,
                        400,
                        "sandbox cannot be resumed from ",
                        state.as_str(),
                    );
                },
                OrchestratorErrorKind::SandboxOperationConflict => {
                    return Reply::Refused(
                        Status::Conflict,
                        ApiError { code: 409, message: error.message },
                    );
                },
                _ => {},
            }
            refuse_plain(error)
        },
    }
}

/// The reply to a request to delete a sandbox. Success is reported only for a
/// confirmed deletion.
pub fn sandboxes_sandbox_id_delete(result: Result<(), OrchestratorError>) -> (reply: Reply<()>)
    ensures
        match result {
            Ok(()) => reply == Reply::<()>::Done,
            Err(error) => reply.refusal() == Some(plain_refusal(error)),
        },
{
    match result {
        Ok(()) => Reply::Done,
        Err(error) => refuse_plain(error),
    }
}

/// The reply to a request for a sandbox.
pub fn sandboxes_sandbox_id_get(
    sandbox_id: SandboxId,
    lookup: Result<Option<(SandboxMetadata, SandboxAccess)>, OrchestratorError>,
) -> (reply: Reply<SandboxDetail>)
    ensures
        match lookup {
            Ok(Some((metadata, access))) => reply matches Reply::Success(detail) && {
                &&& models::shows_detail(detail, metadata, access)
                &&& match metadata.state {
                    SandboxState::CleanupPending => detail.state is CleanupPending,
                    SandboxState::Pausing
                    | SandboxState::Paused
                    | SandboxState::Snapshotting
                    | SandboxState::Forking => detail.state is Paused,
                    _ => detail.state is Running,
                }
            },
            Ok(None) => reply.refusal() == Some(
                (Status::NotFound, api::not_found_view(sandbox_id.text())),
            ),
            Err(error) => reply.refusal() == Some(
                (Status::ServerError, api::error_model_view(error)),
            ),
        },
{
    match lookup {
        Ok(Some((metadata, access))) => Reply::Success(sandbox_detail_model(metadata, access)),
        Ok(None) => refuse_not_found(sandbox_id.to_text().as_str()),
        Err(error) => Reply::Refused(Status::ServerError, error_model(error)),
    }
}

/// The policy that a request to update the network of a sandbox asks for.
pub fn network_put_policy(
    body: &SandboxNetworkUpdateConfig,
    egress: Result<SandboxNetworkEgressPolicy, String>,
) -> (result: Result<SandboxNetworkPolicy, Reply<()>>)
    ensures
        match egress {
            Err(error) => result matches Err(reply) && reply.refusal() == Some(
                (Status::BadRequest, ErrorView { code: 400, message: error@ }),
            ),
            Ok(rules) => match network::policy_fault(rules) {
                Some(message) => result matches Err(reply) && reply.refusal() == Some(
                    (Status::BadRequest, ErrorView { code: 400, message }),
                ),
                None => result == Ok::<SandboxNetworkPolicy, Reply<()>>(
                    SandboxNetworkPolicy {
                        allow_public_traffic: true,
                        base_policy: network::base_policy(body.allow_internet_access),
                        egress: rules,
                    },
                ),
            },
        },
{
    match network_policy_from_update(body, egress) {
        Ok(policy) => Ok(policy),
        Err(message) => Err(Reply::Refused(Status::BadRequest, ApiError { code: 400, message })),
    }
}

/// How a request is refused that conflicts with the state of the sandbox or with
/// another operation on it.
pub open spec fn conflict_refusal(error: OrchestratorError, before: Seq<char>) -> (
    Status,
    ErrorView,
) {
    match error.kind {
        OrchestratorErrorKind::InvalidSandboxState { state } => (
            Status::Conflict,
            ErrorView { code: 409, message: state_message(before, state@) },
        ),
        OrchestratorErrorKind::SandboxOperationConflict => (
            Status::Conflict,
            ErrorView { code: 409, message: error.message@ },
        ),
        _ => plain_refusal(error),
    }
}

/// Refuses a request that conflicts with the state of the sandbox or with another
/// operation on it.
fn refuse_conflict<T>(error: OrchestratorError, before: &str) -> (reply: Reply<T>)
    ensures
        reply.refusal() == Some(conflict_refusal(error, before@)),
{
    match &error.kind {
        OrchestratorErrorKind::InvalidSandboxState { state } => {
            return refuse_state(Status::Conflict, 409, before, state.as_str());
        },
        OrchestratorErrorKind::SandboxOperationConflict => {
            return Reply::Refused(
                Status::Conflict,
                ApiError { code: 409, message: error.message },
            );
        },
        _ => {},
    }
    refuse_plain(error)
}

/// The reply to a request to update the network of a sandbox.
pub fn sandboxes_sandbox_id_network_put(result: Result<(), OrchestratorError>) -> (reply: Reply<()>)
    ensures
        match result {
            Ok(()) => reply == Reply::<()>::Done,
            Err(error) => reply.refusal() == Some(
                conflict_refusal(error, "sandbox network cannot be updated from "@),
            ),
        },
{
    match result {
        Ok(()) => Reply::Done,
        Err(error) => refuse_conflict(error, "sandbox network cannot be updated from "),
    }
}

/// The reply to a request for the parameters of the custom extension. A sandbox
/// that is not there is named as the request named it.
pub fn sandboxes_sandbox_id_custom_extension_params_get(
    path_id: &str,
    lookup: Result<Option<SandboxMetadata>, OrchestratorError>,
) -> (reply: Reply<Vec<(String, Json)>>)
    ensures
        match lookup {
            Ok(Some(metadata)) => reply matches Reply::Success(params) && match metadata.custom_extension_params {
                Some(map) => params == map,
                None => params@.len() == 0,
            },
            Ok(None) => reply.refusal() == Some((Status::NotFound, api::not_found_view(path_id@))),
            Err(error) => reply.refusal() == Some(
                (Status::ServerError, api::error_model_view(error)),
            ),
        },
{
    match lookup {
        Ok(Some(metadata)) => Reply::Success(params_map_to_model(metadata.custom_extension_params)),
        Ok(None) => refuse_not_found(path_id),
        Err(error) => Reply::Refused(Status::ServerError, error_model(error)),
    }
}

/// How a patch of the parameters of the custom extension is refused. An operation
/// that failed means that the extension rejected the patch, or that none is
/// configured.
pub open spec fn patch_refusal(error: OrchestratorError) -> (Status, ErrorView) {
    match error.kind {
        OrchestratorErrorKind::SandboxOperationFailed { .. } => (
            Status::BadRequest,
            ErrorView { code: 400, message: error.message@ },
        ),
        _ => conflict_refusal(error, "sandbox custom extension params cannot be patched from "@),
    }
}

/// The reply to a patch of the parameters of the custom extension.
pub fn sandboxes_sandbox_id_custom_extension_params_patch(
    result: Result<Option<Vec<(String, Json)>>, OrchestratorError>,
) -> (reply: Reply<Vec<(String, Json)>>)
    ensures
        match result {
            Ok(new_params) => reply matches Reply::Success(params) && match new_params {
                Some(map) => params == map,
                None => params@.len() == 0,
            },
            Err(error) => reply.refusal() == Some(patch_refusal(error)),
        },
{
    match result {
        Ok(new_params) => Reply::Success(params_map_to_model(new_params)),
        Err(error) => {
            if let OrchestratorErrorKind::SandboxOperationFailed { .. } = &error.kind {
                return Reply::Refused(
                    Status::BadRequest,
                    ApiError { code: 400, message: error.message },
                );
            }
            refuse_conflict(error, "sandbox custom extension params cannot be patched from ")
        },
    }
}

/// How a request to pause a sandbox is refused.
pub open spec fn pause_refusal(error: OrchestratorError) -> (Status, ErrorView) {
    match error.kind {
        OrchestratorErrorKind::InvalidSandboxState { state } => (
            Status::Conflict,
            ErrorView {
                code: 409,
                message: state_message("sandbox cannot be paused from "@, state@),
            },
        ),
        _ => plain_refusal(error),
    }
}

/// The reply to a request to pause a sandbox.
pub fn sandboxes_sandbox_id_pause_post(result: Result<(), OrchestratorError>) -> (reply: Reply<()>)
    ensures
        match result {
            Ok(()) => reply == Reply::<()>::Done,
            Err(error) => reply.refusal() == Some(pause_refusal(error)),
        },
{
    match result {
        Ok(()) => Reply::Done,
        Err(error) => {
            if let OrchestratorErrorKind::InvalidSandboxState { state } = &error.kind {
                return refuse_state(
                    Status::Conflict,
                    409,
                    "sandbox cannot be paused from ",
                    state.as_str(),
                );
            }
            refuse_plain(error)
        },
    }
}

/// What a refresh asks for, given its body. It never shortens the time.
pub fn refresh_timeout(duration: Option<Option<u32>>) -> (asked: KeepAlive)
    ensures
        asked == (KeepAlive {
            timeout: match duration {
                Some(duration) => requests::widened(duration),
                None => None,
            },
            may_shorten: false,
        }),
{
    let timeout = match duration {
        Some(duration) => duration_from_secs(duration),
        None => None,
    };
    KeepAlive { timeout, may_shorten: false }
}

/// What a request for a new timeout asks for, given its body. The time may get
/// shorter by it.
pub fn set_timeout(timeout: Option<u32>) -> (asked: KeepAlive)
    ensures
        asked == (KeepAlive { timeout: requests::widened(timeout), may_shorten: true }),
{
    KeepAlive { timeout: duration_from_secs(timeout), may_shorten: true }
}

/// The reply to a request that keeps a sandbox alive.
pub fn sandboxes_sandbox_id_refreshes_post(result: Result<(), OrchestratorError>) -> (reply: Reply<()>)
    ensures
        match result {
            Ok(()) => reply == Reply::<()>::Done,
            Err(error) => reply.refusal() == Some(plain_refusal(error)),
        },
{
    match result {
        Ok(()) => Reply::Done,
        Err(error) => refuse_plain(error),
    }
}

/// The reply to a request to set the timeout of a sandbox.
pub fn sandboxes_sandbox_id_timeout_post(result: Result<(), OrchestratorError>) -> (reply: Reply<()>)
    ensures
        match result {
            Ok(()) => reply == Reply::<()>::Done,
            Err(error) => reply.refusal() == Some(plain_refusal(error)),
        },
{
    match result {
        Ok(()) => Reply::Done,
        Err(error) => refuse_plain(error),
    }
}

/// How long a resumed sandbox lives, in seconds: as long as the request says, or
/// the default.
pub fn resume_timeout(timeout: Option<u32>, default_timeout: u64) -> (secs: u64)
    ensures
        secs == (match timeout {
            Some(timeout) => timeout as u64,
            None => default_timeout,
        }),
{
    match duration_from_secs(timeout) {
        Some(secs) => secs,
        None => default_timeout,
    }
}

/// How a request to resume a sandbox is refused.
pub open spec fn resume_refusal(error: OrchestratorError) -> (Status, ErrorView) {
    match error.kind {
        OrchestratorErrorKind::InvalidTimeout { timeout, .. } => (
            Status::BadRequest,
            ErrorView { code: 400, message: "invalid timeout: "@ + timeout@ },
        ),
        _ => conflict_refusal(error, "sandbox cannot be resumed from "@),
    }
}

/// The reply to a request to resume a sandbox.
pub fn sandboxes_sandbox_id_resume_post(
    result: Result<(SandboxMetadata, SandboxAccess), OrchestratorError>,
) -> (reply: Reply<Sandbox>)
    ensures
        match result {
            Ok((metadata, access)) => reply matches Reply::Created(sandbox) && models::shows_sandbox(
                sandbox,
                metadata,
                access,
            ),
            Err(error) => reply.refusal() == Some(resume_refusal(error)),
        },
{
    match result {
        Ok((metadata, access)) => Reply::Created(sandbox_model(metadata, access)),
        Err(error) => {
            if let OrchestratorErrorKind::InvalidTimeout { timeout, .. } = &error.kind {
                let mut message = "invalid timeout: ".to_owned();
                message.append(timeout.as_str());
                return Reply::Refused(Status::BadRequest, ApiError { code: 400, message });
            }
            refuse_conflict(error, "sandbox cannot be resumed from ")
        },
    }
}

} // verus!
