//! What the sandbox API answers with: replies, errors, and the errors of the
//! orchestrator as callers see them.

use vstd::prelude::*;

use crate::ident::SandboxId;

verus! {

/// The body of an error reply.
#[derive(Debug)]
pub struct ApiError {
    pub code: i32,
    pub message: String,
}

/// What an [`ApiError`] says.
pub struct ErrorView {
    pub code: i32,
    pub message: Seq<char>,
}

impl View for ApiError {
    type V = ErrorView;

    open spec fn view(&self) -> ErrorView {
        ErrorView { code: self.code, message: self.message@ }
    }
}

impl Clone for ApiError {
    fn clone(&self) -> (copy: Self)
        ensures
            copy == *self,
    {
        ApiError { code: self.code, message: self.message.clone() }
    }
}

impl ApiError {
    /// An error with a code and a message.
    pub fn new(code: i32, message: &str) -> (error: ApiError)
        ensures
            error@ == (ErrorView { code, message: message@ }),
    {
        ApiError { code, message: message.to_owned() }
    }
}

/// The status of a refusing reply.
#[derive(Debug, Clone, Copy, PartialEq, Eq, Structural)]
pub enum Status {
    /// 400
    BadRequest,
    /// 401
    AuthenticationError,
    /// 404
    NotFound,
    /// 409
    Conflict,
    /// 500
    ServerError,
}

/// The reply to a request.
#[derive(Debug)]
pub enum Reply<T> {
    /// 200
    Success(T),
    /// 201
    Created(T),
    /// 204
    Done,
    /// An error status, with its body.
    Refused(Status, ApiError),
}

impl<T> Reply<T> {
    /// How the reply refuses the request, if it does.
    pub open spec fn refusal(self) -> Option<(Status, ErrorView)> {
        match self {
            Reply::Refused(status, error) => Some((status, error@)),
            _ => None,
        }
    }
}

/// Refuses a request with a fixed message.
pub fn refuse<T>(status: Status, code: i32, message: &str) -> (reply: Reply<T>)
    ensures
        reply.refusal() == Some((status, ErrorView { code, message: message@ })),
{
    Reply::Refused(status, ApiError::new(code, message))
}

/// What is said of a sandbox that is not there.
pub open spec fn not_found_view(id: Seq<char>) -> ErrorView {
    ErrorView { code: 404, message: "sandbox "@ + id + " not found"@ }
}

/// The error for a sandbox that is not there.
pub fn sandbox_not_found(id: &str) -> (error: ApiError)
    ensures
        error@ == not_found_view(id@),
{
    let mut message = "sandbox ".to_owned();
    message.append(id);
    message.append(" not found");
    ApiError { code: 404, message }
}

/// Refuses a request for a sandbox that is not there.
pub fn refuse_not_found<T>(id: &str) -> (reply: Reply<T>)
    ensures
        reply.refusal() == Some((Status::NotFound, not_found_view(id@))),
{
    Reply::Refused(Status::NotFound, sandbox_not_found(id))
}

/// What the orchestrator failed with.
#[derive(Debug)]
pub enum OrchestratorErrorKind {
    ShuttingDown,
    SandboxNotFound { id: SandboxId },
    /// The state, as it is displayed.
    InvalidSandboxState { state: String },
    /// The timeout, as it is displayed and as it is shown for debugging.
    InvalidTimeout { timeout: String, timeout_debug: String },
    /// The operation as it is shown for debugging, the message that an internal
    /// error reply gives of the cause, and the message of an invalid request to
    /// the device daemon where one is among the causes.
    SandboxOperationFailed {
        sandbox_id: SandboxId,
        operation: String,
        source_message: String,
        invalid_request: Option<String>,
    },
    SandboxOperationConflict,
    Other,
}

/// An error of the orchestrator, with its own message and with what an internal
/// error reply says of it.
#[derive(Debug)]
pub struct OrchestratorError {
    pub kind: OrchestratorErrorKind,
    pub message: String,
    pub internal: ApiError,
}

/// What a reply says of an error of the orchestrator.
pub open spec fn error_model_view(err: OrchestratorError) -> ErrorView {
    match err.kind {
        OrchestratorErrorKind::ShuttingDown => ErrorView {
            code: 503,
            message: "orchestrator is shutting down"@,
        },
        OrchestratorErrorKind::SandboxNotFound { id } => not_found_view(id.text()),
        OrchestratorErrorKind::InvalidSandboxState { .. } => ErrorView {
            code: 400,
            message: err.message@,
        },
        OrchestratorErrorKind::SandboxOperationFailed {
            sandbox_id,
            operation,
            source_message,
            ..
        } => ErrorView {
            code: 500,
            message: "sandbox "@ + sandbox_id.text() + " operation "@ + operation@ + " failed: "@
                + source_message@,
        },
        OrchestratorErrorKind::SandboxOperationConflict => ErrorView {
            code: 409,
            message: err.message@,
        },
        OrchestratorErrorKind::InvalidTimeout { .. } => err.internal@,
        OrchestratorErrorKind::Other => err.internal@,
    }
}

/// The error model of an error of the orchestrator.
pub fn error_model(err: OrchestratorError) -> (error: ApiError)
    ensures
        error@ == error_model_view(err),
{
    match err.kind {
        OrchestratorErrorKind::ShuttingDown => ApiError::new(503, "orchestrator is shutting down"),
        OrchestratorErrorKind::SandboxNotFound { id } => sandbox_not_found(id.to_text().as_str()),
        OrchestratorErrorKind::InvalidSandboxState { .. } => ApiError {
            code: 400,
            message: err.message,
        },
        OrchestratorErrorKind::SandboxOperationFailed {
            sandbox_id,
            operation,
            source_message,
            ..
        } => {
            let mut message = "sandbox ".to_owned();
            message.append(sandbox_id.to_text().as_str());
            message.append(" operation ");
            message.append(operation.as_str());
            message.append(" failed: ");
            message.append(source_message.as_str());
            ApiError { code: 500, message }
        },
        OrchestratorErrorKind::SandboxOperationConflict => ApiError {
            code: 409,
            message: err.message,
        },
        OrchestratorErrorKind::InvalidTimeout { .. } => err.internal,
        OrchestratorErrorKind::Other => err.internal,
    }
}

/// Refuses a request with a message that is made of a text and the state that a
/// sandbox is in.
pub fn refuse_state<T>(status: Status, code: i32, before: &str, state: &str) -> (reply: Reply<T>)
    ensures
        reply.refusal() == Some(
            (status, ErrorView { code, message: before@ + state@ + " state"@ }),
        ),
{
    let mut message = before.to_owned();
    message.append(state);
    message.append(" state");
    Reply::Refused(status, ApiError { code, message })
}

/// The status that an error body calls for: 400, 409, and a server error for
/// every other code.
pub open spec fn owner_status(code: i32) -> Status {
    if code == 400 {
        Status::BadRequest
    } else if code == 409 {
        Status::Conflict
    } else {
        Status::ServerError
    }
}

/// Refuses a request by the code of an error body: 400, 409, and a server error
/// for every other code.
pub fn refuse_owner<T>(error: ApiError) -> (reply: Reply<T>)
    ensures
        reply.refusal() == Some((owner_status(error.code), error@)),
{
    let status = if error.code == 400 {
        Status::BadRequest
    } else if error.code == 409 {
        Status::Conflict
    } else {
        Status::ServerError
    };
    Reply::Refused(status, error)
}

/// The status that an error body calls for: a server error from 500 on, and a
/// client error below.
pub open spec fn client_or_server(code: i32) -> Status {
    if code >= 500 {
        Status::ServerError
    } else {
        Status::BadRequest
    }
}

/// Refuses a request by the code of an error body: a server error from 500 on,
/// and a client error below.
pub fn client_or_server_response<T>(error: ApiError) -> (reply: Reply<T>)
    ensures
        reply.refusal() == Some((client_or_server(error.code), error@)),
{
    let status = if error.code >= 500 {
        Status::ServerError
    } else {
        Status::BadRequest
    };
    Reply::Refused(status, error)
}

} // verus!
