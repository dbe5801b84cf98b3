//! Forking a sandbox into children.

use vstd::prelude::*;

use crate::api;
use crate::api::{
    error_model, refuse, refuse_not_found, refuse_state, ApiError, ErrorView, OrchestratorError,
    OrchestratorErrorKind, Reply, Status,
};
use crate::ident;
use crate::ident::SandboxId;
use crate::models;
use crate::models::{sandbox_model, Sandbox, SandboxAccess, SandboxMetadata};
use crate::text;
use crate::text_map::TextMap;
use crate::volume_runs;
use crate::volume_runs::{ForkRun, SandboxForkChildSpec};
use crate::volumes;
use crate::volumes::{cleanup_fork_volume_children, CallRun};

verus! {

/// The body of a request to fork a sandbox.
#[derive(Debug, Clone, Copy, PartialEq, Eq, Structural)]
pub struct SandboxForkRequest {
    pub count: Option<u32>,
    pub timeout: Option<u32>,
}

/// The timeout of a child: that of its source, or a number of seconds.
#[derive(Debug, Clone, Copy, PartialEq, Eq, Structural)]
pub enum NewTimeout {
    UseExisting,
    Seconds(u64),
}

/// How many children a request asks for.
pub open spec fn asked_count(body: Option<SandboxForkRequest>) -> u32 {
    match body {
        Some(SandboxForkRequest { count: Some(count), .. }) => count,
        _ => 1,
    }
}

/// The timeout that a request asks for.
pub open spec fn asked_timeout(body: Option<SandboxForkRequest>) -> NewTimeout {
    match body {
        Some(SandboxForkRequest { timeout: Some(timeout), .. }) => NewTimeout::Seconds(timeout as u64),
        _ => NewTimeout::UseExisting,
    }
}

/// What came of one child: a sandbox or an error.
#[derive(Debug)]
pub struct SandboxForkResult {
    pub sandbox: Option<Sandbox>,
    pub error: Option<ApiError>,
}

/// The launch of the children of a fork.
#[derive(Debug)]
pub struct ForkCall<D> {
    pub sandbox_id: SandboxId,
    pub specs: Vec<SandboxForkChildSpec<D>>,
    pub new_timeout: NewTimeout,
}

/// A fork that has been asked for, with the volumes that were made for each
/// child.
#[derive(Debug)]
pub struct ForkLaunch {
    children: Vec<(SandboxId, Vec<String>)>,
}

/// A fork of a sandbox with volumes.
#[derive(Debug)]
pub struct ForkVolumes {
    pub sandbox_id: SandboxId,
    pub mounts: TextMap,
    pub count: u32,
    pub new_timeout: NewTimeout,
}

/// What a fork does next.
#[derive(Debug)]
pub enum ForkStart<D> {
    /// The request is answered.
    Answer(Reply<Vec<SandboxForkResult>>),
    /// Launch the children.
    Launch(ForkCall<D>, ForkLaunch),
    /// Snapshot the mounted volumes of the source, and report.
    SnapshotVolumes(ForkVolumes),
}

/// Whether children are new and have nothing of their own.
pub open spec fn plain_children<D>(specs: Seq<SandboxForkChildSpec<D>>) -> bool {
    forall|i: int|
        0 <= i < specs.len() ==> {
            let spec_i = #[trigger] specs[i];
            &&& ident::is_v7(spec_i.sandbox_id.bits)
            &&& spec_i.volume_mounts.list().len() == 0
            &&& spec_i.extra_drives@.len() == 0
            &&& spec_i.replace_drive_ids@.len() == 0
        }
}

fn new_children<D>(count: u32) -> (specs: Vec<SandboxForkChildSpec<D>>)
    ensures
        specs@.len() == count,
        plain_children(specs@),
{
    let mut specs: Vec<SandboxForkChildSpec<D>> = Vec::new();
    let mut i: u32 = 0;
    while i < count
        invariant
            i <= count,
            specs@.len() == i,
            plain_children(specs@),
        decreases count - i,
    {
        specs.push(
            SandboxForkChildSpec {
                sandbox_id: SandboxId::new(),
                volume_mounts: TextMap::new(),
                extra_drives: Vec::new(),
                replace_drive_ids: Vec::new(),
            },
        );
        i = i + 1;
    }
    specs
}

/// Goes on forking once the source was looked up. A fork makes between one and a
/// hundred children.
pub fn sandboxes_sandbox_id_fork_post<D>(
    sandbox_id: SandboxId,
    lookup: Result<Option<SandboxMetadata>, OrchestratorError>,
    body: Option<SandboxForkRequest>,
) -> (step: ForkStart<D>)
    ensures
        match lookup {
            Err(error) => step matches ForkStart::Answer(reply) && reply.refusal() == Some(
                (Status::ServerError, api::error_model_view(error)),
            ),
            Ok(None) => step matches ForkStart::Answer(reply) && reply.refusal() == Some(
                (Status::NotFound, api::not_found_view(sandbox_id.text())),
            ),
            Ok(Some(source)) => if !(1 <= asked_count(body) <= 100) {
                step matches ForkStart::Answer(reply) && reply.refusal() == Some(
                    (
                        Status::BadRequest,
                        ErrorView { code: 400, message: "count must be between 1 and 100"@ },
                    ),
                )
            } else if source.volume_mounts.list().len() == 0 {
                step matches ForkStart::Launch(call, launch) && {
                    &&& call.sandbox_id == sandbox_id
                    &&& call.specs@.len() == asked_count(body)
                    &&& plain_children(call.specs@)
                    &&& call.new_timeout == asked_timeout(body)
                    &&& launch.children().len() == 0
                }
            } else {
                step == ForkStart::<D>::SnapshotVolumes(
                    ForkVolumes {
                        sandbox_id,
                        mounts: source.volume_mounts,
                        count: asked_count(body),
                        new_timeout: asked_timeout(body),
                    },
                )
            },
        },
{
    let source = match lookup {
        Ok(Some(source)) => source,
        Ok(None) => {
            return ForkStart::Answer(refuse_not_found(sandbox_id.to_text().as_str()));
        },
        Err(error) => {
            return ForkStart::Answer(Reply::Refused(Status::ServerError, error_model(error)));
        },
    };
    let count: u32 = match body {
        Some(SandboxForkRequest { count: Some(count), .. }) => count,
        _ => 1,
    };
    let new_timeout = match body {
        Some(SandboxForkRequest { timeout: Some(timeout), .. }) => NewTimeout::Seconds(timeout as u64),
        _ => NewTimeout::UseExisting,
    };
    if count < 1 || count > 100 {
        return ForkStart::Answer(refuse(Status::BadRequest, 400, "count must be between 1 and 100"));
    }
    if source.volume_mounts.is_empty() {
        let children: Vec<(SandboxId, Vec<String>)> = Vec::new();
        assert(volumes::children_view(children@) =~= Seq::<(SandboxId, Seq<Seq<char>>)>::empty());
        return ForkStart::Launch(
            ForkCall { sandbox_id, specs: new_children(count), new_timeout },
            ForkLaunch { children },
        );
    }
    ForkStart::SnapshotVolumes(
        ForkVolumes { sandbox_id, mounts: source.volume_mounts, count, new_timeout },
    )
}

/// The status of a fork whose volumes could not be prepared.
pub open spec fn fork_status(code: i32) -> Status {
    if code == 404 {
        Status::NotFound
    } else if code == 409 {
        Status::Conflict
    } else if code == 500 {
        Status::ServerError
    } else {
        Status::BadRequest
    }
}

impl ForkVolumes {
    /// Goes on once the mounted volumes are snapshotted: their local backings are
    /// to be recovered next, for the source and all its volumes.
    pub fn snapshotted(&self, result: Result<(), OrchestratorError>) -> (step: Result<
        (String, Vec<String>),
        Reply<Vec<SandboxForkResult>>,
    >)
        ensures
            match result {
                Ok(()) => step matches Ok((owner, volume_ids)) && owner@ == self.sandbox_id.text()
                    && text::texts(volume_ids@) == volumes::mounted_volumes(self.mounts.list()),
                Err(error) => step matches Err(reply) && reply.refusal() == Some(
                    (Status::ServerError, api::error_model_view(error)),
                ),
            },
    {
        match result {
            Ok(()) => {
                let volume_ids = self.mounts.values();
                assert(text::texts(volume_ids@) =~= volumes::mounted_volumes(self.mounts.list()));
                Ok((self.sandbox_id.to_text(), volume_ids))
            },
            Err(error) => Err(Reply::Refused(Status::ServerError, error_model(error))),
        }
    }

    /// Goes on once the local backings are recovered: the volumes of the children
    /// are to be prepared next.
    pub fn recovered<D>(&self, result: Result<(), String>) -> (step: Result<
        ForkRun<D>,
        Reply<Vec<SandboxForkResult>>,
    >)
        ensures
            match result {
                Ok(()) => step matches Ok(run) && {
                    &&& run@.wf()
                    &&& run@ == (volume_runs::ForkView {
                        source_owner: self.sandbox_id.text(),
                        mounts: self.mounts.list(),
                        fetched: Seq::<(Seq<char>, volume_runs::VolumeView)>::empty(),
                        left: self.count as nat,
                        specs: Seq::<SandboxForkChildSpec<D>>::empty(),
                        children: Seq::<(SandboxId, Seq<Seq<char>>)>::empty(),
                        draft: None::<volume_runs::DraftView>,
                    })
                },
                Err(error) => step matches Err(reply) && reply.refusal() == Some(
                    (
                        Status::ServerError,
                        ErrorView {
                            code: 500,
                            message: "failed to recover local volume backing before fork: "@
                                + error@,
                        },
                    ),
                ),
            },
    {
        match result {
            Ok(()) => Ok(
                ForkRun::prepare_volume_fork_specs(
                    self.sandbox_id,
                    self.mounts.clone(),
                    self.count,
                ),
            ),
            Err(error) => {
                let mut message = "failed to recover local volume backing before fork: ".to_owned();
                message.append(error.as_str());
                Err(Reply::Refused(Status::ServerError, ApiError { code: 500, message }))
            },
        }
    }

    /// Goes on once the volumes of the children are prepared, or could not be.
    pub fn prepared<D>(
        self,
        result: Result<(Vec<SandboxForkChildSpec<D>>, Vec<(SandboxId, Vec<String>)>), ApiError>,
    ) -> (step: Result<(ForkCall<D>, ForkLaunch), Reply<Vec<SandboxForkResult>>>)
        ensures
            match result {
                Ok((specs, children)) => step matches Ok((call, launch)) && {
                    &&& call.sandbox_id == self.sandbox_id
                    &&& call.specs == specs
                    &&& call.new_timeout == self.new_timeout
                    &&& launch.children() == volumes::children_view(children@)
                },
                Err(error) => step matches Err(reply) && reply.refusal() == Some(
                    (fork_status(error.code), error@),
                ),
            },
    {
        match result {
            Ok((specs, children)) => Ok(
                (
                    ForkCall { sandbox_id: self.sandbox_id, specs, new_timeout: self.new_timeout },
                    ForkLaunch { children },
                ),
            ),
            Err(error) => {
                let status = if error.code == 404 {
                    Status::NotFound
                } else if error.code == 409 {
                    Status::Conflict
                } else if error.code == 500 {
                    Status::ServerError
                } else {
                    Status::BadRequest
                };
                Err(Reply::Refused(status, error))
            },
        }
    }
}

/// What came of each child, as the orchestrator reports it.
pub type ForkOutcomes = Vec<Result<(SandboxMetadata, SandboxAccess), OrchestratorError>>;

/// Whether a sandbox is among the children that came about.
pub open spec fn came_about(
    outcomes: Seq<Result<(SandboxMetadata, SandboxAccess), OrchestratorError>>,
    id: SandboxId,
) -> bool {
    exists|i: int|
        0 <= i < outcomes.len() && (#[trigger] outcomes[i] matches Ok((metadata, _)) && metadata.id
            == id)
}

/// The children that did not come about, in order.
pub open spec fn failed_children(
    children: Seq<(SandboxId, Seq<Seq<char>>)>,
    outcomes: Seq<Result<(SandboxMetadata, SandboxAccess), OrchestratorError>>,
) -> Seq<(SandboxId, Seq<Seq<char>>)>
    decreases children.len(),
{
    if children.len() == 0 {
        Seq::empty()
    } else if came_about(outcomes, children.last().0) {
        failed_children(children.drop_last(), outcomes)
    } else {
        failed_children(children.drop_last(), outcomes).push(children.last())
    }
}

fn is_successful(outcomes: &ForkOutcomes, id: SandboxId) -> (found: bool)
    ensures
        found == came_about(outcomes@, id),
{
    let mut i: usize = 0;
    while i < outcomes.len()
        invariant
            i <= outcomes.len(),
            forall|j: int|
                0 <= j < i ==> !(#[trigger] outcomes@[j] matches Ok((metadata, _)) && metadata.id
                    == id),
        decreases outcomes.len() - i,
    {
        if let Ok((metadata, _)) = &outcomes[i] {
            if metadata.id == id {
                assert(outcomes@[i as int] matches Ok((metadata, _)) && metadata.id == id);
                return true;
            }
        }
        i = i + 1;
    }
    false
}

/// Whether results show the outcomes one by one.
pub open spec fn shows_outcomes(
    results: Seq<SandboxForkResult>,
    outcomes: Seq<Result<(SandboxMetadata, SandboxAccess), OrchestratorError>>,
) -> bool {
    &&& results.len() == outcomes.len()
    &&& forall|i: int| 0 <= i < results.len() ==> shows_outcome(#[trigger] results[i], outcomes[i])
}

/// Whether a result shows an outcome.
pub open spec fn shows_outcome(
    result: SandboxForkResult,
    outcome: Result<(SandboxMetadata, SandboxAccess), OrchestratorError>,
) -> bool {
    match outcome {
        Ok((metadata, access)) => {
            &&& result.sandbox matches Some(sandbox) && models::shows_sandbox(
                sandbox,
                metadata,
                access,
            )
            &&& result.error is None
        },
        Err(error) => {
            &&& result.sandbox is None
            &&& result.error matches Some(shown) && shown@ == api::error_model_view(error)
        },
    }
}

fn fork_results(outcomes: ForkOutcomes) -> (results: Vec<SandboxForkResult>)
    ensures
        shows_outcomes(results@, outcomes@),
{
    let mut rest = outcomes;
    let mut results: Vec<SandboxForkResult> = Vec::new();
    while rest.len() > 0
        invariant
            results@.len() + rest@.len() == outcomes@.len(),
            rest@ == outcomes@.skip(results@.len() as int),
            forall|i: int|
                0 <= i < results@.len() ==> shows_outcome(#[trigger] results@[i], outcomes@[i]),
        decreases rest.len(),
    {
        let ghost done = results@.len() as int;
        let first = rest.remove(0);
        assert(first == outcomes@[done]);
        let result = match first {
            Ok((metadata, access)) => SandboxForkResult {
                sandbox: Some(sandbox_model(metadata, access)),
                error: None,
            },
            Err(error) => SandboxForkResult { sandbox: None, error: Some(error_model(error)) },
        };
        results.push(result);
        assert(rest@ =~= outcomes@.skip(done + 1));
    }
    results
}

/// How a fork is refused that could not be launched at all.
pub open spec fn fork_refusal(error: OrchestratorError) -> (Status, ErrorView) {
    match error.kind {
        OrchestratorErrorKind::SandboxNotFound { id } => (
            Status::NotFound,
            api::not_found_view(id.text()),
        ),
        OrchestratorErrorKind::InvalidSandboxState { state } => (
            Status::Conflict,
            ErrorView {
                code: 409,
                message: "sandbox cannot be forked from "@ + state@ + " state"@,
            },
        ),
        _ => (Status::ServerError, api::error_model_view(error)),
    }
}

impl ForkLaunch {
    /// The volumes that were made for each child.
    pub closed spec fn children(self) -> Seq<(SandboxId, Seq<Seq<char>>)> {
        volumes::children_view(self.children@)
    }

    /// What comes of the fork: the volumes of every child that did not come about
    /// are removed, and then the request is answered.
    pub fn forked(self, result: Result<ForkOutcomes, OrchestratorError>) -> (step: (
        CallRun<()>,
        Reply<Vec<SandboxForkResult>>,
    ))
        ensures
            !step.0.is_strict(),
            step.0.failure() is None,
            match result {
                Ok(outcomes) => {
                    &&& step.0.remaining() == volumes::fork_cleanup_calls(
                        failed_children(self.children(), outcomes@),
                    )
                    &&& step.1 matches Reply::Created(results) && shows_outcomes(
                        results@,
                        outcomes@,
                    )
                },
                Err(error) => {
                    &&& step.0.remaining() == volumes::fork_cleanup_calls(self.children())
                    &&& step.1.refusal() == Some(fork_refusal(error))
                },
            },
    {
        match result {
            Ok(outcomes) => {
                let mut rest = self.children;
                let mut failed: Vec<(SandboxId, Vec<String>)> = Vec::new();
                let ghost all = volumes::children_view(self.children@);
                let ghost mut done: int = 0;
                assert(all.take(0) =~= Seq::<(SandboxId, Seq<Seq<char>>)>::empty());
                assert(volumes::children_view(failed@) =~= Seq::<
                    (SandboxId, Seq<Seq<char>>),
                >::empty());
                while rest.len() > 0
                    invariant
                        0 <= done <= self.children@.len(),
                        all == volumes::children_view(self.children@),
                        rest@ == self.children@.skip(done),
                        volumes::children_view(failed@) == failed_children(
                            all.take(done),
                            outcomes@,
                        ),
                    decreases rest.len(),
                {
                    let first = rest.remove(0);
                    let ghost before = failed@;
                    proof {
                        assert(first == self.children@[done]);
                        assert(all.take(done + 1).drop_last() =~= all.take(done));
                        assert(all.take(done + 1).last() == (first.0, text::texts(first.1@)));
                    }
                    if !is_successful(&outcomes, first.0) {
                        failed.push(first);
                        assert(volumes::children_view(failed@) =~= volumes::children_view(
                            before,
                        ).push((first.0, text::texts(first.1@))));
                    }
                    proof {
                        done = done + 1;
                        assert(rest@ =~= self.children@.skip(done));
                    }
                }
                assert(all.take(done) =~= all);
                let run = cleanup_fork_volume_children(&failed);
                (run, Reply::Created(fork_results(outcomes)))
            },
            Err(error) => {
                let run = cleanup_fork_volume_children(&self.children);
                let reply = match &error.kind {
                    OrchestratorErrorKind::SandboxNotFound { id } => refuse_not_found(
                        id.to_text().as_str(),
                    ),
                    OrchestratorErrorKind::InvalidSandboxState { state } => refuse_state(
                        Status::Conflict,
                        409,
                        "sandbox cannot be forked from ",
                        state.as_str(),
                    ),
                    _ => Reply::Refused(Status::ServerError, error_model(error)),
                };
                (run, reply)
            },
        }
    }
}

/// No volume of a child that came about is removed.
pub proof fn law_successful_children_keep_their_volumes(
    children: Seq<(SandboxId, Seq<Seq<char>>)>,
    outcomes: Seq<Result<(SandboxMetadata, SandboxAccess), OrchestratorError>>,
    i: int,
)
    requires
        0 <= i < failed_children(children, outcomes).len(),
    ensures
        !came_about(outcomes, failed_children(children, outcomes)[i].0),
        children.contains(failed_children(children, outcomes)[i]),
    decreases children.len(),
{
    let rest = children.drop_last();
    if came_about(outcomes, children.last().0) || i < failed_children(rest, outcomes).len() {
        law_successful_children_keep_their_volumes(rest, outcomes, i);
        let found = failed_children(rest, outcomes)[i];
        let place = choose|k: int| 0 <= k < rest.len() && rest[k] == found;
        assert(children[place] == found);
    } else {
        assert(children[children.len() - 1] == children.last());
    }
}

} // verus!
