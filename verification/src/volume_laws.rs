//! What holds of the volumes of sandboxes over forks, restorations, snapshots and
//! cleanups: which are removed, which are kept, and who mounts them.

use vstd::prelude::*;

use crate::api::{ApiError, OrchestratorError, OrchestratorErrorKind, Reply, Status};
use crate::create_laws;
use crate::fork;
use crate::fork::{
    ForkCall, ForkLaunch, ForkOutcomes, ForkStart, ForkVolumes, NewTimeout, SandboxForkRequest,
    SandboxForkResult,
};
use crate::ident;
use crate::ident::SandboxId;
use crate::models::{SandboxAccess, SandboxMetadata};
use crate::reply_laws;
use crate::snapshots;
use crate::snapshots::{Capture, PublishCall, PublishDraft, PublishFailure};
use crate::text;
use crate::text_map;
use crate::text_map::TextMap;
use crate::volume_runs;
use crate::volume_runs::{
    ChildCall, ForkFailure, ForkRun, ForkStep, RestoreFailure, RestorePending, RestoreRun,
    RestoreStep, SandboxForkChildSpec, SnapshotRun, Volume, VolumeSnapshot, VolumeView,
};
use crate::volumes;
use crate::volumes::{
    CallRun, CallView, PrepareStep, PreparedVolumeMounts, SnapshotVolume, VolumeCall,
};

verus! {

/// Whether a call is one of those that remove the volumes of a child.
pub open spec fn is_removal_of(call: CallView, child: (SandboxId, Seq<Seq<char>>)) -> bool {
    ||| call == (CallView::ReleaseOwner { owner: child.0.text(), volume_ids: child.1 })
    ||| call matches CallView::Delete { volume_id } && child.1.contains(volume_id)
}

/// Whether calls remove the volumes of a child from a place on: its owner is taken
/// off all of them, and then each is deleted.
pub open spec fn removed_at(
    calls: Seq<CallView>,
    place: int,
    child: (SandboxId, Seq<Seq<char>>),
) -> bool {
    &&& 0 <= place
    &&& place + child.1.len() < calls.len()
    &&& calls[place] == (CallView::ReleaseOwner { owner: child.0.text(), volume_ids: child.1 })
    &&& forall|j: int|
        0 <= j < child.1.len() ==> calls[place + 1 + j] == (CallView::Delete {
            volume_id: #[trigger] child.1[j],
        })
}

/// Whether calls remove the volumes of a child.
pub open spec fn removes(calls: Seq<CallView>, child: (SandboxId, Seq<Seq<char>>)) -> bool {
    exists|place: int| removed_at(calls, place, child)
}

proof fn lemma_call_is_removal(children: Seq<(SandboxId, Seq<Seq<char>>)>, c: int) -> (k: int)
    requires
        0 <= c < volumes::fork_cleanup_calls(children).len(),
    ensures
        0 <= k < children.len(),
        is_removal_of(volumes::fork_cleanup_calls(children)[c], children[k]),
    decreases children.len(),
{
    let calls = volumes::fork_cleanup_calls(children);
    let rest = children.drop_last();
    let last = children[children.len() - 1];
    let before = volumes::fork_cleanup_calls(rest);
    let added = volumes::unlaunched_calls(last.0.text(), last.1);
    if c < before.len() {
        let k = lemma_call_is_removal(rest, c);
        assert(before[c] == calls[c]);
        assert(children[k] == rest[k]);
        k
    } else {
        let place = c - before.len();
        assert(calls[c] == added[place]);
        if place > 0 {
            assert(added[place] == (CallView::Delete { volume_id: last.1[place - 1] }));
            assert(last.1.contains(last.1[place - 1]));
        }
        children.len() - 1
    }
}

proof fn lemma_child_is_removed(children: Seq<(SandboxId, Seq<Seq<char>>)>, k: int) -> (place: int)
    requires
        0 <= k < children.len(),
    ensures
        removed_at(volumes::fork_cleanup_calls(children), place, children[k]),
        removes(volumes::fork_cleanup_calls(children), children[k]),
    decreases children.len(),
{
    let calls = volumes::fork_cleanup_calls(children);
    let rest = children.drop_last();
    let last = children[children.len() - 1];
    let before = volumes::fork_cleanup_calls(rest);
    let added = volumes::unlaunched_calls(last.0.text(), last.1);
    let child = children[k];
    let place = if k < rest.len() {
        let place = lemma_child_is_removed(rest, k);
        assert(rest[k] == child);
        assert(calls[place] == before[place]);
        assert forall|j: int| 0 <= j < child.1.len() implies calls[place + 1 + j] == (
        CallView::Delete { volume_id: #[trigger] child.1[j] }) by {
            assert(calls[place + 1 + j] == before[place + 1 + j]);
        }
        place
    } else {
        let place = before.len() as int;
        assert(added.len() == 1 + last.1.len());
        assert(calls[place] == added[0]);
        assert forall|j: int| 0 <= j < child.1.len() implies calls[place + 1 + j] == (
        CallView::Delete { volume_id: #[trigger] child.1[j] }) by {
            assert(calls[place + 1 + j] == added[1 + j]);
        }
        place
    };
    assert(removed_at(calls, place, child));
    place
}

proof fn lemma_failed_children(
    children: Seq<(SandboxId, Seq<Seq<char>>)>,
    outcomes: Seq<Result<(SandboxMetadata, SandboxAccess), OrchestratorError>>,
)
    ensures
        ({
            let failed = fork::failed_children(children, outcomes);
            &&& forall|i: int|
                0 <= i < failed.len() ==> !fork::came_about(outcomes, (#[trigger] failed[i]).0)
                    && children.contains(failed[i])
            &&& forall|k: int|
                0 <= k < children.len() && !fork::came_about(outcomes, (#[trigger] children[k]).0)
                    ==> failed.contains(children[k])
        }),
    decreases children.len(),
{
    if children.len() > 0 {
        let rest = children.drop_last();
        let last = children[children.len() - 1];
        let before = fork::failed_children(rest, outcomes);
        let failed = fork::failed_children(children, outcomes);
        lemma_failed_children(rest, outcomes);
        assert forall|i: int| 0 <= i < failed.len() implies !fork::came_about(
            outcomes,
            (#[trigger] failed[i]).0,
        ) && children.contains(failed[i]) by {
            if i < before.len() {
                assert(failed[i] == before[i]);
                let k = choose|k: int| 0 <= k < rest.len() && rest[k] == before[i];
                assert(children[k] == failed[i]);
            } else {
                assert(children[children.len() - 1] == failed[i]);
            }
        }
        assert forall|k: int|
            0 <= k < children.len() && !fork::came_about(outcomes, (#[trigger] children[k]).0) implies failed.contains(
        children[k]) by {
            if k < rest.len() {
                assert(rest[k] == children[k]);
                assert(before.contains(rest[k]));
                let i = choose|i: int| 0 <= i < before.len() && before[i] == rest[k];
                assert(failed[i] == children[k]);
            } else {
                assert(failed[failed.len() - 1] == last);
            }
        }
    }
}

/// Whether an outcome is a child with an identity that runs.
pub open spec fn runs(
    outcome: Result<(SandboxMetadata, SandboxAccess), OrchestratorError>,
    id: SandboxId,
) -> bool {
    outcome matches Ok((metadata, _)) && metadata.id == id
}

/// A child of a fork that runs keeps its volumes, whichever outcome reports it: it
/// stays their owner, and none of them is deleted that was made for it alone. Every
/// call of the cleanup removes volumes of a child that no outcome reports as
/// running.
pub proof fn law_running_children_keep_their_volumes<D>(
    volumes: ForkVolumes,
    specs: Vec<SandboxForkChildSpec<D>>,
    children: Vec<(SandboxId, Vec<String>)>,
    call: ForkCall<D>,
    launch: ForkLaunch,
    outcomes: ForkOutcomes,
    cleanup: CallRun<()>,
    reply: Reply<Vec<SandboxForkResult>>,
    k: int,
    i: int,
    c: int,
    volume: Seq<char>,
)
    requires
        call_ensures(
            ForkVolumes::prepared::<D>,
            (volumes, Ok((specs, children))),
            Ok((call, launch)),
        ),
        call_ensures(ForkLaunch::forked, (launch, Ok(outcomes)), (cleanup, reply)),
        0 <= c < cleanup.remaining().len(),
        0 <= k < children@.len(),
        0 <= i < outcomes@.len(),
        runs(outcomes@[i], children@[k].0),
    ensures
        !(cleanup.remaining()[c] matches CallView::ReleaseOwner { owner, .. } && owner
            == children@[k].0.text()),
        (forall|other: int|
            0 <= other < children@.len() && (#[trigger] children@[other]).0 != children@[k].0
                ==> !text::texts(children@[other].1@).contains(volume)) && text::texts(
            children@[k].1@,
        ).contains(volume) ==> cleanup.remaining()[c] != (CallView::Delete { volume_id: volume }),
        !(cleanup.remaining()[c] is RecoverAndPublish),
        exists|lost: int|
            0 <= lost < children@.len() && is_removal_of(
                cleanup.remaining()[c],
                ((#[trigger] children@[lost]).0, text::texts(children@[lost].1@)),
            ) && forall|o: int|
                0 <= o < outcomes@.len() ==> !runs(#[trigger] outcomes@[o], children@[lost].0),
{
    let all = volumes::children_view(children@);
    let failed = fork::failed_children(all, outcomes@);
    lemma_failed_children(all, outcomes@);
    let calls = cleanup.remaining();
    let f = lemma_call_is_removal(failed, c);
    assert(all.contains(failed[f]));
    let lost = choose|lost: int| 0 <= lost < all.len() && all[lost] == failed[f];
    assert(all[lost] == (children@[lost].0, text::texts(children@[lost].1@)));
    assert forall|o: int| 0 <= o < outcomes@.len() implies !runs(
        #[trigger] outcomes@[o],
        children@[lost].0,
    ) by {
        assert(!fork::came_about(outcomes@, failed[f].0));
    }
    assert(children@[lost].0 != children@[k].0);
    if children@[lost].0.text() == children@[k].0.text() {
        ident::law_text_identifies(children@[lost].0, children@[k].0);
    }
    assert(is_removal_of(calls[c], (children@[lost].0, text::texts(children@[lost].1@))));
}

/// A child of a fork that no outcome reports as running has all its volumes
/// removed: its owner is taken off them, and then each is deleted.
pub proof fn law_failed_children_lose_their_volumes<D>(
    volumes: ForkVolumes,
    specs: Vec<SandboxForkChildSpec<D>>,
    children: Vec<(SandboxId, Vec<String>)>,
    call: ForkCall<D>,
    launch: ForkLaunch,
    outcomes: ForkOutcomes,
    cleanup: CallRun<()>,
    reply: Reply<Vec<SandboxForkResult>>,
    k: int,
)
    requires
        call_ensures(
            ForkVolumes::prepared::<D>,
            (volumes, Ok((specs, children))),
            Ok((call, launch)),
        ),
        call_ensures(ForkLaunch::forked, (launch, Ok(outcomes)), (cleanup, reply)),
        0 <= k < children@.len(),
        forall|i: int|
            0 <= i < outcomes@.len() ==> !runs(#[trigger] outcomes@[i], children@[k].0),
    ensures
        removes(cleanup.remaining(), (children@[k].0, text::texts(children@[k].1@))),
        !cleanup.is_strict(),
        cleanup.failure() is None,
{
    let all = volumes::children_view(children@);
    let failed = fork::failed_children(all, outcomes@);
    lemma_failed_children(all, outcomes@);
    assert(all[k] == (children@[k].0, text::texts(children@[k].1@)));
    assert(!fork::came_about(outcomes@, all[k].0)) by {
        if fork::came_about(outcomes@, all[k].0) {
            let i = choose|i: int|
                0 <= i < outcomes@.len() && (#[trigger] outcomes@[i] matches Ok((metadata, _))
                    && metadata.id == all[k].0);
            assert(runs(outcomes@[i], children@[k].0));
        }
    }
    assert(failed.contains(all[k]));
    let f = choose|f: int| 0 <= f < failed.len() && failed[f] == all[k];
    let place = lemma_child_is_removed(failed, f);
    assert(removed_at(cleanup.remaining(), place, all[k]));
}

/// A fork that could not be launched at all has the volumes of every child
/// removed, and is refused: a source that is not there as such, a state that does
/// not allow it as a conflict, and anything else as a server error.
pub proof fn law_failed_fork_loses_all_its_volumes<D>(
    volumes: ForkVolumes,
    specs: Vec<SandboxForkChildSpec<D>>,
    children: Vec<(SandboxId, Vec<String>)>,
    call: ForkCall<D>,
    launch: ForkLaunch,
    error: OrchestratorError,
    told: ApiError,
    cleanup: CallRun<()>,
    reply: Reply<Vec<SandboxForkResult>>,
    k: int,
)
    requires
        call_ensures(
            ForkVolumes::prepared::<D>,
            (volumes, Ok((specs, children))),
            Ok((call, launch)),
        ),
        call_ensures(crate::api::error_model, (error,), told),
        call_ensures(ForkLaunch::forked, (launch, Err(error)), (cleanup, reply)),
        0 <= k < children@.len(),
    ensures
        removes(cleanup.remaining(), (children@[k].0, text::texts(children@[k].1@))),
        match error.kind {
            OrchestratorErrorKind::SandboxNotFound { id } => reply_laws::says_not_found(
                reply,
                id.text(),
            ),
            OrchestratorErrorKind::InvalidSandboxState { state } => reply_laws::refused(
                reply,
                Status::Conflict,
                409,
                "sandbox cannot be forked from "@ + state@ + " state"@,
            ),
            _ => reply_laws::tells(reply, Status::ServerError, told),
        },
{
    let all = volumes::children_view(children@);
    assert(all[k] == (children@[k].0, text::texts(children@[k].1@)));
    let place = lemma_child_is_removed(all, k);
}

/// The reply to a fork has one result for each outcome, in its place: the sandbox
/// of a child that runs, and the error of one that does not, never both.
pub proof fn law_fork_reports_every_child(
    launch: ForkLaunch,
    outcomes: ForkOutcomes,
    cleanup: CallRun<()>,
    reply: Reply<Vec<SandboxForkResult>>,
    i: int,
    told: ApiError,
)
    requires
        call_ensures(ForkLaunch::forked, (launch, Ok(outcomes)), (cleanup, reply)),
        0 <= i < outcomes@.len(),
        outcomes@[i] matches Err(error) ==> call_ensures(
            crate::api::error_model,
            (error,),
            told,
        ),
    ensures
        reply matches Reply::Created(results) && {
            &&& results@.len() == outcomes@.len()
            &&& outcomes@[i] matches Ok((m, access)) ==> {
                &&& results@[i].error is None
                &&& results@[i].sandbox matches Some(sandbox) && sandbox.sandbox_id@ == m.id.text()
                    && sandbox.template_id == m.snapshot_id && sandbox.envd_access_token
                    == access.envd_access_token
            }
            &&& outcomes@[i] is Err ==> {
                &&& results@[i].sandbox is None
                &&& results@[i].error matches Some(error) && error.code == told.code
                    && error.message@ == told.message@
            }
        },
{
    let results = reply->Created_0;
    assert(fork::shows_outcome(results@[i], outcomes@[i]));
}

/// A fork makes as many children as the request asks for, one by default, with the
/// timeout that it asks for or that of the source. A sandbox without volumes is
/// launched at once, and nothing is ever cleaned up for it; the volumes of any
/// other are snapshotted first. A number below one or above a hundred is refused.
pub proof fn law_fork_makes_the_children_asked_for<D>(
    sandbox_id: SandboxId,
    source: SandboxMetadata,
    body: Option<SandboxForkRequest>,
    step: ForkStart<D>,
    result: Result<ForkOutcomes, OrchestratorError>,
    cleanup: CallRun<()>,
    reply: Reply<Vec<SandboxForkResult>>,
)
    requires
        call_ensures(
            fork::sandboxes_sandbox_id_fork_post::<D>,
            (sandbox_id, Ok(Some(source)), body),
            step,
        ),
        step matches ForkStart::Launch(_, launch) ==> call_ensures(
            ForkLaunch::forked,
            (launch, result),
            (cleanup, reply),
        ),
    ensures
        ({
            let count: u32 = if body is Some && (body->0).count is Some {
                (body->0).count->0
            } else {
                1
            };
            &&& step is Answer <==> count == 0 || count > 100
            &&& step matches ForkStart::Answer(told) ==> reply_laws::refused(
                told,
                Status::BadRequest,
                400,
                "count must be between 1 and 100"@,
            )
            &&& step is Launch <==> 1 <= count <= 100 && source.volume_mounts.list().len() == 0
            &&& step matches ForkStart::Launch(call, launch) ==> {
                &&& call.sandbox_id == sandbox_id
                &&& call.specs@.len() == count
                &&& is_asked_timeout(call.new_timeout, body)
                &&& cleanup.remaining().len() == 0
            }
            &&& step matches ForkStart::SnapshotVolumes(volumes) ==> {
                &&& volumes.sandbox_id == sandbox_id
                &&& volumes.mounts == source.volume_mounts
                &&& volumes.count == count
                &&& is_asked_timeout(volumes.new_timeout, body)
            }
        }),
{
    if let ForkStart::Launch(call, launch) = step {
        assert(launch.children().len() == 0);
        if let Ok(outcomes) = result {
            assert(fork::failed_children(launch.children(), outcomes@).len() == 0);
        }
    }
}

/// Whether a timeout is the one that a request asks for.
pub open spec fn is_asked_timeout(timeout: NewTimeout, body: Option<SandboxForkRequest>) -> bool {
    if body is Some && (body->0).timeout is Some {
        timeout matches NewTimeout::Seconds(secs) && secs == (body->0).timeout->0
    } else {
        timeout is UseExisting
    }
}

/// The children of a sandbox without volumes have nothing of their own but a new
/// identity.
pub proof fn law_plain_children_own_nothing<D>(
    sandbox_id: SandboxId,
    source: SandboxMetadata,
    body: Option<SandboxForkRequest>,
    call: ForkCall<D>,
    launch: ForkLaunch,
    k: int,
)
    requires
        call_ensures(
            fork::sandboxes_sandbox_id_fork_post::<D>,
            (sandbox_id, Ok(Some(source)), body),
            ForkStart::Launch(call, launch),
        ),
        0 <= k < call.specs@.len(),
    ensures
        ident::is_v7(call.specs@[k].sandbox_id.bits),
        call.specs@[k].volume_mounts.list().len() == 0,
        call.specs@[k].extra_drives@.len() == 0,
        call.specs@[k].replace_drive_ids@.len() == 0,
{
}

/// A fork of a sandbox that is not there, or that could not be looked up, launches
/// nothing.
pub proof fn law_fork_needs_its_source<D>(
    sandbox_id: SandboxId,
    error: OrchestratorError,
    told: ApiError,
    body: Option<SandboxForkRequest>,
    missing: ForkStart<D>,
    failed: ForkStart<D>,
)
    requires
        call_ensures(crate::api::error_model, (error,), told),
        call_ensures(
            fork::sandboxes_sandbox_id_fork_post::<D>,
            (sandbox_id, Ok(None), body),
            missing,
        ),
        call_ensures(
            fork::sandboxes_sandbox_id_fork_post::<D>,
            (sandbox_id, Err(error), body),
            failed,
        ),
    ensures
        missing matches ForkStart::Answer(reply) && reply_laws::says_not_found(
            reply,
            sandbox_id.text(),
        ),
        failed matches ForkStart::Answer(reply) && reply_laws::tells(
            reply,
            Status::ServerError,
            told,
        ),
{
}

/// The backings of all volumes of the source are recovered for the source, and its
/// volumes are looked up from the first mount on; a failure of either launches
/// nothing.
pub proof fn law_fork_recovers_the_volumes_of_its_source<D>(
    volumes: ForkVolumes,
    owner: String,
    volume_ids: Vec<String>,
    i: int,
    run: ForkRun<D>,
    step: ForkStep<D>,
)
    requires
        call_ensures(ForkVolumes::snapshotted, (&volumes, Ok(())), Ok((owner, volume_ids))),
        call_ensures(ForkVolumes::recovered::<D>, (&volumes, Ok(())), Ok(run)),
        call_ensures(ForkRun::<D>::next, (run,), step),
        0 <= i < volumes.mounts.list().len(),
    ensures
        owner@ == volumes.sandbox_id.text(),
        volume_ids@.len() == volumes.mounts.list().len(),
        volume_ids@[i]@ == volumes.mounts.list()[i].1,
        step matches ForkStep::Fetch(reference, _) && reference@ == volumes.mounts.list()[0].1,
{
    let ids = text::texts(volume_ids@);
    assert(ids.len() == volume_ids@.len());
    assert(ids[i] == volumes::mounted_volumes(volumes.mounts.list())[i]);
}

/// A fork whose volumes could not be snapshotted or recovered is a server error.
pub proof fn law_unrecovered_fork_is_a_server_error<D>(
    volumes: ForkVolumes,
    error: OrchestratorError,
    told: ApiError,
    message: String,
    snapshotted: Result<(String, Vec<String>), Reply<Vec<SandboxForkResult>>>,
    recovered: Result<ForkRun<D>, Reply<Vec<SandboxForkResult>>>,
)
    requires
        call_ensures(crate::api::error_model, (error,), told),
        call_ensures(ForkVolumes::snapshotted, (&volumes, Err(error)), snapshotted),
        call_ensures(ForkVolumes::recovered::<D>, (&volumes, Err(message)), recovered),
    ensures
        snapshotted matches Err(reply) && reply_laws::tells(reply, Status::ServerError, told),
        recovered matches Err(reply) && reply_laws::refused(
            reply,
            Status::ServerError,
            500,
            "failed to recover local volume backing before fork: "@ + message@,
        ),
{
}

/// The children that were prepared are launched, from the source and with the
/// timeout of the fork. Where they could not be prepared the fork is refused by
/// the code of the error: 404, 409 and 500 as such, any other as the client's
/// fault.
pub proof fn law_prepared_children_are_launched<D>(
    volumes: ForkVolumes,
    specs: Vec<SandboxForkChildSpec<D>>,
    children: Vec<(SandboxId, Vec<String>)>,
    call: ForkCall<D>,
    launch: ForkLaunch,
    error: ApiError,
    failed: Result<(ForkCall<D>, ForkLaunch), Reply<Vec<SandboxForkResult>>>,
)
    requires
        call_ensures(
            ForkVolumes::prepared::<D>,
            (volumes, Ok((specs, children))),
            Ok((call, launch)),
        ),
        call_ensures(ForkVolumes::prepared::<D>, (volumes, Err(error)), failed),
    ensures
        call.sandbox_id == volumes.sandbox_id,
        call.specs == specs,
        call.new_timeout == volumes.new_timeout,
        failed matches Err(reply) && reply_laws::tells(
            reply,
            if error.code == 404 {
                Status::NotFound
            } else if error.code == 409 {
                Status::Conflict
            } else if error.code == 500 {
                Status::ServerError
            } else {
                Status::BadRequest
            },
            error,
        ),
{
}

proof fn lemma_volume_of(fetched: Seq<(Seq<char>, VolumeView)>, reference: Seq<char>, i: int)
    requires
        0 <= i < fetched.len(),
        fetched[i].0 == reference,
        forall|j: int| i < j < fetched.len() ==> (#[trigger] fetched[j]).0 != reference,
    ensures
        volume_runs::volume_of(fetched, reference) == fetched[i].1,
    decreases fetched.len(),
{
    if i < fetched.len() - 1 {
        assert(fetched[fetched.len() - 1].0 != reference);
        let rest = fetched.drop_last();
        assert forall|j: int| i < j < rest.len() implies (#[trigger] rest[j]).0 != reference by {
            assert(rest[j] == fetched[j]);
        }
        lemma_volume_of(rest, reference, i);
        assert(rest[i] == fetched[i]);
    }
}

/// A prepared fork has the children that were asked for, and every child mounts a
/// volume wherever the source does: one that was made for this child where the
/// source's volume can be written, and the source's own volume where it can only
/// be read. What was made for a child is recorded under its identity.
pub proof fn law_children_write_their_own_volumes_only<D>(
    run: ForkRun<D>,
    specs: Vec<SandboxForkChildSpec<D>>,
    children: Vec<(SandboxId, Vec<String>)>,
    k: int,
    j: int,
    found: int,
)
    requires
        run@.wf(),
        call_ensures(ForkRun::<D>::next, (run,), ForkStep::Done(specs, children)),
        0 <= k < specs@.len(),
        0 <= j < run@.mounts.len(),
        0 <= found < run@.fetched.len(),
        run@.fetched[found].0 == run@.mounts[j].1,
        forall|later: int|
            found < later < run@.fetched.len() ==> (#[trigger] run@.fetched[later]).0
                != run@.mounts[j].1,
    ensures
        ({
            let volume = run@.fetched[found].1;
            let path = run@.mounts[j].0;
            let mounted = specs@[k].volume_mounts@;
            let own = text::texts(children@[k].1@);
            &&& children@.len() == specs@.len()
            &&& children@[k].0 == specs@[k].sandbox_id
            &&& mounted.contains_key(path)
            &&& volume.mode is Exclusive ==> own.contains(mounted[path])
            &&& volume.mode is ReadOnly ==> mounted[path] == volume.id
        }),
{
    lemma_volume_of(run@.fetched, run@.mounts[j].1, found);
    volume_runs::law_forked_children_share_no_exclusive_volume(run@, k, j);
    let all = volumes::children_view(children@);
    assert(all.len() == children@.len());
    assert(all[k] == (children@[k].0, text::texts(children@[k].1@)));
}

/// A volume is copied for a child only if it can be written, and then from the
/// source's volume at the mount that the child has come to, in its size, for the
/// child to own.
pub proof fn law_only_exclusive_volumes_are_copied<D>(
    run: ForkRun<D>,
    call: ChildCall,
    rest: ForkRun<D>,
    found: int,
)
    requires
        run@.wf(),
        call_ensures(ForkRun::<D>::next, (run,), ForkStep::CreateChild(call, rest)),
        run@.draft matches Some(draft) ==> {
            &&& 0 <= found < run@.fetched.len()
            &&& run@.fetched[found].0 == run@.mounts[draft.next_mount].1
            &&& forall|later: int|
                found < later < run@.fetched.len() ==> (#[trigger] run@.fetched[later]).0
                    != run@.mounts[draft.next_mount].1
        },
    ensures
        run@.draft matches Some(draft) && {
            let volume = run@.fetched[found].1;
            &&& volume.mode is Exclusive
            &&& call.volume_id@ == volume.id
            &&& call.size_mb == volume.size_mb
            &&& call.owner@ == draft.sandbox_id.text()
            &&& call.source_owner@ == run@.source_owner
            &&& is_named_after(call.name@, "volume-fork-"@)
            &&& rest@ == run@
        },
{
    lemma_volume_of(run@.fetched, run@.mounts[run@.draft->0.next_mount].1, found);
    lemma_fresh_name(call.name@, "volume-fork-"@);
}

/// The copy of a volume takes the place of the source's volume for the child: it
/// is mounted there, it replaces the source's drive, and it is recorded as made for
/// the child.
pub proof fn law_copies_replace_their_volumes<D>(
    run: ForkRun<D>,
    child: String,
    next: Result<ForkRun<D>, ForkFailure>,
    found: int,
)
    requires
        run@.wf(),
        run.copies(),
        call_ensures(ForkRun::<D>::created_child, (run, Ok(child)), next),
        0 <= found < run@.fetched.len(),
        run@.fetched[found].0 == run@.mounts[run@.draft->0.next_mount].1,
        forall|later: int|
            found < later < run@.fetched.len() ==> (#[trigger] run@.fetched[later]).0
                != run@.mounts[run@.draft->0.next_mount].1,
    ensures
        next matches Ok(after) && after@.draft matches Some(draft) && {
            let before = run@.draft->0;
            let path = run@.mounts[before.next_mount].0;
            &&& draft.sandbox_id == before.sandbox_id
            &&& draft.next_mount == before.next_mount + 1
            &&& draft.volume_mounts.contains_key(path) && draft.volume_mounts[path] == child@
            &&& draft.volume_ids == before.volume_ids.push(child@)
            &&& draft.replace_drive_ids == before.replace_drive_ids.push(
                (run@.fetched[found].1.id, child@),
            )
            &&& after@.children == run@.children
            &&& after@.left == run@.left
        },
{
    lemma_volume_of(run@.fetched, run@.mounts[run@.draft->0.next_mount].1, found);
}

/// A fork that fails while it is prepared has the volumes of every child removed
/// that it made, those of the child that it was preparing too, and replies the
/// error that it failed with.
pub proof fn law_unprepared_fork_loses_all_its_volumes<D>(
    copying: ForkRun<D>,
    resolving: ForkRun<D>,
    error: ApiError,
    uncopied: Result<ForkRun<D>, ForkFailure>,
    unresolved: Result<ForkRun<D>, ForkFailure>,
    k: int,
)
    requires
        copying@ == resolving@,
        copying@.draft is Some,
        0 <= k < copying@.children.len(),
        call_ensures(ForkRun::<D>::created_child, (copying, Err(error)), uncopied),
        call_ensures(ForkRun::<D>::resolved, (resolving, Err(error)), unresolved),
    ensures
        uncopied matches Err(failure) && {
            &&& failure.error == error
            &&& !failure.cleanup.is_strict()
            &&& removes(failure.cleanup.remaining(), copying@.children[k])
            &&& removes(
                failure.cleanup.remaining(),
                (copying@.draft->0.sandbox_id, copying@.draft->0.volume_ids),
            )
        },
        unresolved matches Err(failure) && {
            &&& failure.error == error
            &&& !failure.cleanup.is_strict()
            &&& removes(failure.cleanup.remaining(), copying@.children[k])
            &&& removes(
                failure.cleanup.remaining(),
                (copying@.draft->0.sandbox_id, copying@.draft->0.volume_ids),
            )
        },
{
    let all = copying@.all_children();
    assert(all[k] == copying@.children[k]);
    assert(all[all.len() - 1] == (copying@.draft->0.sandbox_id, copying@.draft->0.volume_ids));
    let place = lemma_child_is_removed(all, k);
    let last = lemma_child_is_removed(all, all.len() - 1);
}

/// A child is prepared with the mounts that were resolved for it, and a volume of
/// the source is kept under the reference that it was looked up by.
pub proof fn law_fork_notes_what_it_is_told<D>(
    resolving: ForkRun<D>,
    drives: Vec<D>,
    prepared: Result<ForkRun<D>, ForkFailure>,
    fetching: ForkRun<D>,
    volume: Volume,
    fetched: Result<ForkRun<D>, ApiError>,
    error: ApiError,
    unfetched: Result<ForkRun<D>, ApiError>,
)
    requires
        resolving@.draft is Some,
        call_ensures(ForkRun::<D>::resolved, (resolving, Ok(drives)), prepared),
        call_ensures(ForkRun::<D>::fetched_volume, (fetching, Ok(volume)), fetched),
        call_ensures(ForkRun::<D>::fetched_volume, (fetching, Err(error)), unfetched),
    ensures
        prepared matches Ok(run) && {
            let n = resolving@.specs.len() as int;
            let draft = resolving@.draft->0;
            &&& run@.specs.len() == n + 1
            &&& run@.specs.take(n) =~= resolving@.specs
            &&& run@.specs[n].sandbox_id == draft.sandbox_id
            &&& run@.specs[n].volume_mounts@ == draft.volume_mounts
            &&& run@.specs[n].extra_drives == drives
            &&& run@.children == resolving@.children.push((draft.sandbox_id, draft.volume_ids))
            &&& run@.draft is None
            &&& run@.left == resolving@.left
        },
        fetched matches Ok(run) && {
            let n = fetching@.fetched.len() as int;
            &&& run@.fetched.len() == n + 1
            &&& run@.fetched[n].0 == fetching@.mounts[n].1
            &&& run@.fetched[n].1.id == volume.id@
            &&& run@.fetched[n].1.mode == volume.mode
            &&& run@.fetched[n].1.size_mb == volume.size_mb
        },
        unfetched == Err::<ForkRun<D>, ApiError>(error),
{
}

/// A layout of mounts is accepted exactly if every path could be normalised and no
/// two overlap, and then with these paths; otherwise it is the client's fault.
pub proof fn law_layouts_do_not_overlap(
    normalized: Vec<Result<String, String>>,
    result: Result<Vec<String>, ApiError>,
    i: int,
)
    requires
        call_ensures(volumes::checked_layout, (normalized,), result),
        0 <= i < normalized@.len(),
    ensures
        result is Ok <==> create_laws::layout_in_order(normalized@),
        result matches Ok(paths) ==> paths@.len() == normalized@.len() && (
        normalized@[i] matches Ok(path) && paths@[i]@ == path@),
        result matches Err(error) ==> error.code == 400,
        (forall|k: int| 0 <= k < normalized@.len() ==> #[trigger] normalized@[k] is Ok) ==> (
        result matches Err(error) ==> error.message@ == "snapshot volume mount paths overlap"@),
        create_laws::layout_in_order(normalized@.take(i)) ==> (normalized@[i] matches Err(fault) ==> (
        result matches Err(error) && error.message@ == fault@)),
{
    create_laws::lemma_layout_in_order(normalized@);
    lemma_layout_code(normalized@);
    create_laws::lemma_layout_in_order(normalized@.take(i));
    if volumes::layout_fault(normalized@.take(i)) is None && normalized@[i] is Err {
        assert(normalized@.take(i + 1).drop_last() =~= normalized@.take(i));
        lemma_layout_stays(normalized@, i + 1);
    }
    if let Ok(paths) = result {
        let all = text::texts(paths@);
        assert(all.len() == paths@.len());
        assert(all[i] == volumes::layout_paths(normalized@)[i]);
    }
}

/// A layout that is refused is the client's fault, and where every path could be
/// normalised it is refused for an overlap.
pub proof fn lemma_layout_code(normalized: Seq<Result<String, String>>)
    ensures
        volumes::layout_fault(normalized) matches Some(fault) ==> fault.code == 400 && ((forall|
            k: int,
        | 0 <= k < normalized.len() ==> #[trigger] normalized[k] is Ok) ==> fault.message
            == "snapshot volume mount paths overlap"@),
    decreases normalized.len(),
{
    if normalized.len() > 0 {
        let rest = normalized.drop_last();
        lemma_layout_code(rest);
        if forall|k: int| 0 <= k < normalized.len() ==> #[trigger] normalized[k] is Ok {
            assert forall|k: int| 0 <= k < rest.len() implies #[trigger] rest[k] is Ok by {
                assert(normalized[k] is Ok);
            }
            assert(normalized[normalized.len() - 1] is Ok);
        }
    }
}

proof fn lemma_layout_stays(normalized: Seq<Result<String, String>>, n: int)
    requires
        0 <= n <= normalized.len(),
        volumes::layout_fault(normalized.take(n)) is Some,
    ensures
        volumes::layout_fault(normalized) == volumes::layout_fault(normalized.take(n)),
    decreases normalized.len() - n,
{
    if n < normalized.len() {
        assert(normalized.take(n + 1).drop_last() =~= normalized.take(n));
        lemma_layout_stays(normalized, n + 1);
    } else {
        assert(normalized.take(n) =~= normalized);
    }
}

/// The volumes of a snapshot are restored one by one: the next one is created with
/// the mode, the size and the layers that the snapshot keeps, for the new sandbox
/// to own, and is mounted where the snapshot's volume was.
pub proof fn law_volumes_are_restored_as_they_were_kept<L>(
    snapshots: Vec<SnapshotVolume<L>>,
    normalized: Vec<Result<String, String>>,
    max_mounts: usize,
    sandbox_id: SandboxId,
    run: RestoreRun<L>,
    step: RestoreStep<L>,
    pending: RestorePending<L>,
    volume_id: String,
    next: Result<RestoreRun<L>, RestoreFailure>,
)
    requires
        normalized@.len() == snapshots@.len(),
        call_ensures(
            RestoreRun::<L>::restore_snapshot_volume_mounts,
            (snapshots, normalized, max_mounts, sandbox_id),
            Ok(run),
        ),
        call_ensures(RestoreRun::<L>::next, (run,), step),
        step matches RestoreStep::Create(_, waiting) ==> waiting == pending,
        call_ensures(RestorePending::<L>::created_volume, (pending, Ok(volume_id)), next),
    ensures
        snapshots@.len() <= max_mounts,
        create_laws::layout_in_order(normalized@),
        snapshots@.len() == 0 ==> (step matches RestoreStep::Done(mounts, volume_ids)
            && volume_ids@.len() == 0 && mounts@ == Map::<Seq<char>, Seq<char>>::empty()),
        snapshots@.len() > 0 ==> {
            &&& step matches RestoreStep::Create(call, _) && call.mode == snapshots@[0].mode
                && call.size_mb == snapshots@[0].size_mb && call.layers == snapshots@[0].layers
                && call.owner == sandbox_id
            &&& next matches Ok(after) && {
                let path = (normalized@[0]->Ok_0)@;
                &&& after.owner() == sandbox_id
                &&& after.created() =~= seq![volume_id@]
                &&& after.mounts().contains_key(path) && after.mounts()[path] == volume_id@
                &&& after.todo() == snapshots@.skip(1)
            }
        },
{
    create_laws::lemma_layout_in_order(normalized@);
    if let RestoreStep::Done(_, volume_ids) = step {
        assert(text::texts(volume_ids@).len() == volume_ids@.len());
    }
}

/// At any point of a restoration, the volume that is created is the next one that
/// the snapshot keeps, and what was created so far stays mounted where it is.
pub proof fn law_restoration_goes_on_in_order<L>(
    run: RestoreRun<L>,
    step: RestoreStep<L>,
    pending: RestorePending<L>,
    volume_id: String,
    next: Result<RestoreRun<L>, RestoreFailure>,
)
    requires
        run.wf(),
        call_ensures(RestoreRun::<L>::next, (run,), step),
        step matches RestoreStep::Create(_, waiting) ==> waiting == pending,
        call_ensures(RestorePending::<L>::created_volume, (pending, Ok(volume_id)), next),
    ensures
        step is Done <==> run.todo().len() == 0,
        step matches RestoreStep::Done(mounts, volume_ids) ==> mounts@ == run.mounts()
            && text::texts(volume_ids@) == run.created(),
        step matches RestoreStep::Create(call, _) ==> {
            &&& call.mode == run.todo()[0].mode
            &&& call.size_mb == run.todo()[0].size_mb
            &&& call.layers == run.todo()[0].layers
            &&& call.owner == run.owner()
            &&& is_named_after(call.name@, "volume-restore-"@)
            &&& next matches Ok(after) && {
                &&& after.owner() == run.owner()
                &&& after.todo() == run.todo().skip(1)
                &&& after.paths() == run.paths().skip(1)
                &&& after.mounts() == run.mounts().insert(run.paths()[0], volume_id@)
                &&& after.created() == run.created().push(volume_id@)
            }
        },
{
    if let RestoreStep::Create(call, _) = step {
        lemma_fresh_name(call.name@, "volume-restore-"@);
    }
}

/// Whether a name is a prefix and 32 lower-case hexadecimal digits.
pub open spec fn is_named_after(name: Seq<char>, prefix: Seq<char>) -> bool {
    &&& name.len() == prefix.len() + 32
    &&& name.take(prefix.len() as int) =~= prefix
    &&& forall|i: int|
        prefix.len() <= i < name.len() ==> ('0' <= #[trigger] name[i] <= '9' || 'a' <= name[i]
            <= 'f')
}

proof fn lemma_fresh_name(name: Seq<char>, prefix: Seq<char>)
    requires
        volume_runs::is_fresh_name(name, prefix),
    ensures
        is_named_after(name, prefix),
{
    let id = choose|id: u128|
        ident::is_v7(id) && name == prefix + #[trigger] ident::uuid_simple(id);
    let digits = ident::uuid_simple(id);
    assert forall|i: int| prefix.len() <= i < name.len() implies ('0' <= #[trigger] name[i] <= '9'
        || 'a' <= name[i] <= 'f') by {
        let place = i - prefix.len();
        assert(name[i] == digits[place]);
        assert(digits[place] == crate::digest::hex_char(ident::uuid_digit(id, place)));
        assert(0 <= ident::uuid_digit(id, place) < 16);
    }
}

/// A restoration that fails has every volume removed that it created, and no
/// other: the sandbox is taken off them, and each is deleted. It replies the error
/// of that cleanup, or else the one that it failed with.
pub proof fn law_failed_restoration_removes_what_it_created<L>(
    pending: RestorePending<L>,
    error: ApiError,
    next: Result<RestoreRun<L>, RestoreFailure>,
    failure: RestoreFailure,
    told: ApiError,
)
    requires
        call_ensures(RestorePending::<L>::created_volume, (pending, Err(error)), next),
        call_ensures(RestoreFailure::finish, (failure,), told),
    ensures
        next matches Err(failed) && {
            &&& failed.error == error
            &&& failed.cleanup.is_strict()
            &&& failed.cleanup.failure() is None
            &&& removed_at(
                failed.cleanup.remaining(),
                0,
                (pending.owner(), pending.created()),
            )
            &&& failed.cleanup.remaining().len() == 1 + pending.created().len()
        },
        failure.cleanup.failure() matches Some(cleanup_error) ==> told == cleanup_error,
        failure.cleanup.failure() is None ==> told == failure.error,
{
}

/// The volumes of a snapshot are not restored at all if they are too many, or if
/// their mounts overlap or could not be normalised.
pub proof fn law_refused_layouts_restore_nothing<L>(
    snapshots: Vec<SnapshotVolume<L>>,
    normalized: Vec<Result<String, String>>,
    max_mounts: usize,
    sandbox_id: SandboxId,
    result: Result<RestoreRun<L>, ApiError>,
)
    requires
        call_ensures(
            RestoreRun::<L>::restore_snapshot_volume_mounts,
            (snapshots, normalized, max_mounts, sandbox_id),
            result,
        ),
    ensures
        result is Err <==> snapshots@.len() > max_mounts || !create_laws::layout_in_order(
            normalized@,
        ),
        snapshots@.len() > max_mounts ==> (result matches Err(error) && error.code == 400
            && error.message@ == "snapshot contains too many volume mounts"@),
        result matches Err(error) ==> error.code == 400,
{
    create_laws::lemma_layout_in_order(normalized@);
    lemma_layout_code(normalized@);
}

/// Every mounted volume of a sandbox is snapshotted, in the order of the mounts,
/// and kept with the path that it is mounted at and with what the snapshot holds.
pub proof fn law_mounted_volumes_are_snapshotted<L>(
    mounts: TextMap,
    started: SnapshotRun<L>,
    run: SnapshotRun<L>,
    reference: Option<String>,
    snapshot: VolumeSnapshot<L>,
    next: Result<SnapshotRun<L>, ApiError>,
    error: ApiError,
    failed: Result<SnapshotRun<L>, ApiError>,
    all: Vec<SnapshotVolume<L>>,
)
    requires
        call_ensures(SnapshotRun::<L>::snapshot_sandbox_volumes, (mounts,), started),
        run.wf(),
        call_ensures(SnapshotRun::<L>::next, (&run,), reference),
        call_ensures(SnapshotRun::<L>::snapshotted, (run, Ok(snapshot)), next),
        call_ensures(SnapshotRun::<L>::snapshotted, (run, Err(error)), failed),
        call_ensures(SnapshotRun::<L>::into_snapshots, (run,), all),
    ensures
        started.wf() && started.mounts() == mounts.list() && started.snapshots().len() == 0,
        reference is None <==> run.snapshots().len() == run.mounts().len(),
        reference matches Some(volume) ==> volume@ == run.mounts()[run.snapshots().len() as int].1,
        next matches Ok(after) && {
            let n = run.snapshots().len() as int;
            &&& after.mounts() == run.mounts()
            &&& after.snapshots().len() == n + 1
            &&& after.snapshots().drop_last() == run.snapshots()
            &&& after.snapshots()[n].mount_path@ == run.mounts()[n].0
            &&& after.snapshots()[n].mode == snapshot.mode
            &&& after.snapshots()[n].size_mb == snapshot.size_mb
            &&& after.snapshots()[n].layers == snapshot.backing_layers
        },
        failed == Err::<SnapshotRun<L>, ApiError>(error),
        all@ == run.snapshots(),
{
}

/// A snapshot is published with everything that was captured of its sandbox, each
/// in the place of that name, under the alias of the request and with the volumes
/// that were snapshotted.
pub proof fn law_capture_is_published_whole<A, C, U, R, V, M, L, I>(
    alias: Option<A>,
    capture: Capture<C, U, R, V, M>,
    draft: PublishDraft<A, C, U, R, V, M>,
    run: SnapshotRun<L>,
    volume_snapshots: Vec<SnapshotVolume<L>>,
    step: Result<PublishCall<A, C, U, R, V, M, L>, Reply<I>>,
)
    requires
        call_ensures(
            snapshots::sandboxes_sandbox_id_snapshots_post::<A, C, U, R, V, M, L, I>,
            (alias, Ok(capture)),
            Ok((draft, run)),
        ),
        call_ensures(
            PublishDraft::<A, C, U, R, V, M>::snapshotted::<L, I>,
            (draft, Ok(volume_snapshots)),
            step,
        ),
    ensures
        run.mounts() == capture.metadata.volume_mounts.list(),
        run.snapshots().len() == 0,
        step matches Ok(call) && {
            &&& call.captured_snapshot == capture.captured_snapshot
            &&& call.metadata.alias == alias
            &&& call.metadata.source_sandbox_id@ == capture.metadata.id.text()
            &&& call.metadata.context == capture.metadata.context
            &&& call.metadata.startup == capture.metadata.startup
            &&& call.metadata.resources == capture.metadata.resources
            &&& call.metadata.runtime_versions == capture.metadata.runtime_versions
            &&& call.metadata.virtualization_mode == capture.metadata.virtualization_mode
            &&& call.metadata.image_configs == capture.metadata.image_configs
            &&& call.metadata.custom_extension_params == capture.metadata.custom_extension_params
            &&& call.metadata.volume_snapshots == volume_snapshots
        },
{
}

/// A capture that failed publishes nothing: a sandbox that is not there is told so,
/// a state that does not allow it is the client's fault, and anything else is an
/// internal error. Neither does one whose volumes could not be snapshotted.
pub proof fn law_failed_capture_publishes_nothing<A, C, U, R, V, M, L, I>(
    alias: Option<A>,
    error: OrchestratorError,
    result: Result<(PublishDraft<A, C, U, R, V, M>, SnapshotRun<L>), Reply<I>>,
    draft: PublishDraft<A, C, U, R, V, M>,
    volume_error: ApiError,
    step: Result<PublishCall<A, C, U, R, V, M, L>, Reply<I>>,
)
    requires
        call_ensures(
            snapshots::sandboxes_sandbox_id_snapshots_post::<A, C, U, R, V, M, L, I>,
            (alias, Err(error)),
            result,
        ),
        call_ensures(
            PublishDraft::<A, C, U, R, V, M>::snapshotted::<L, I>,
            (draft, Err(volume_error)),
            step,
        ),
    ensures
        result matches Err(reply) && match error.kind {
            OrchestratorErrorKind::SandboxNotFound { id } => reply_laws::says_not_found(
                reply,
                id.text(),
            ),
            OrchestratorErrorKind::InvalidSandboxState { state } => reply_laws::refused(
                reply,
                Status::BadRequest,
                400,
                "sandbox cannot be snapshotted from "@ + state@ + " state"@,
            ),
            _ => reply_laws::tells(reply, Status::ServerError, error.internal),
        },
        step matches Err(reply) && reply_laws::tells(
            reply,
            if volume_error.code == 500 {
                Status::ServerError
            } else {
                Status::BadRequest
            },
            volume_error,
        ),
{
}

/// A published snapshot is shown as the repository knows it. A publication that
/// failed is told as the repository tells a bad request, or by the error's own
/// message as a server error.
pub proof fn law_publication_is_answered<I>(result: Result<I, PublishFailure>, reply: Reply<I>)
    requires
        call_ensures(snapshots::snapshot_published::<I>, (result,), reply),
    ensures
        result matches Ok(info) ==> reply == Reply::Created(info),
        result matches Err(failure) ==> match failure.bad_request {
            Some(error) => reply_laws::tells(
                reply,
                if error.code >= 500 {
                    Status::ServerError
                } else {
                    Status::BadRequest
                },
                error,
            ),
            None => reply_laws::refused(reply, Status::ServerError, 500, failure.message@),
        },
{
}

/// An alias is taken as it was read, none is none, and one that could not be read
/// is the client's fault.
pub proof fn law_alias_is_taken_as_read<A, I>(
    name: Option<Result<A, String>>,
    result: Result<Option<A>, Reply<I>>,
)
    requires
        call_ensures(snapshots::snapshot_alias::<A, I>, (name,), result),
    ensures
        match name {
            None => result == Ok::<Option<A>, Reply<I>>(None),
            Some(Ok(alias)) => result == Ok::<Option<A>, Reply<I>>(Some(alias)),
            Some(Err(error)) => result matches Err(reply) && reply_laws::refused(
                reply,
                Status::BadRequest,
                400,
                "invalid snapshot alias: "@ + error@,
            ),
        },
{
}

/// Mounts are reserved under the identity of their sandbox exactly if there are
/// any, and what is reserved are the volumes that they mount.
pub proof fn law_mounts_are_reserved_for_their_sandbox<D>(
    mounts: Option<TextMap>,
    sandbox_id: SandboxId,
    step: PrepareStep<D>,
    owner: String,
    drives: Vec<D>,
    resolved: TextMap,
    prepared: PreparedVolumeMounts<D>,
    i: int,
)
    requires
        call_ensures(volumes::prepare_volume_mounts::<D>, (mounts, sandbox_id), step),
        call_ensures(volumes::prepared_mounts::<D>, (owner, drives, resolved), prepared),
        0 <= i < resolved.list().len(),
    ensures
        step is Resolve <==> create_laws::has_keys(mounts),
        step matches PrepareStep::Resolve { mounts: handed, owner: reserver } ==> Some(handed)
            == mounts && reserver@ == sandbox_id.text(),
        step matches PrepareStep::Ready(nothing) ==> nothing.owner is None
            && nothing.drives@.len() == 0 && nothing.mounts.list().len() == 0
            && nothing.volume_ids@.len() == 0,
        prepared.owner == Some(owner),
        prepared.drives == drives,
        prepared.mounts == resolved,
        prepared.volume_ids@.len() == resolved.list().len(),
        prepared.volume_ids@[i]@ == resolved.list()[i].1,
{
    let ids = text::texts(prepared.volume_ids@);
    assert(ids.len() == prepared.volume_ids@.len());
    assert(ids[i] == volumes::mounted_volumes(resolved.list())[i]);
}

/// A failed create gives up its volumes as far as its stop is known.
pub proof fn law_failed_create_keeps_what_may_be_in_use<E>(
    owner: Option<String>,
    stopped: bool,
    volume_ids: Vec<String>,
    restored: Vec<String>,
    run: CallRun<E>,
)
    requires
        call_ensures(
            volumes::release_failed_create_volumes::<E>,
            (owner, stopped, &volume_ids, &restored),
            run,
        ),
    ensures
        run.is_strict(),
        run.failure() is None,
        create_laws::gives_up(
            run.remaining(),
            match owner {
                Some(owner) => Some(owner@),
                None => None,
            },
            stopped,
            text::texts(volume_ids@),
            text::texts(restored@),
        ),
{
}

/// What was made for a launch that never happened is taken off its sandbox and
/// deleted, and nothing else is.
pub proof fn law_unlaunched_volumes_are_removed<E>(
    sandbox_id: SandboxId,
    volume_ids: Vec<String>,
    run: CallRun<E>,
    children: Vec<(SandboxId, Vec<String>)>,
    fork_run: CallRun<E>,
    k: int,
)
    requires
        call_ensures(
            volumes::cleanup_unlaunched_volumes::<E>,
            (sandbox_id, &volume_ids),
            run,
        ),
        call_ensures(volumes::cleanup_fork_volume_children::<E>, (&children,), fork_run),
        0 <= k < children@.len(),
    ensures
        run.is_strict() && run.failure() is None,
        run.remaining().len() == 1 + volume_ids@.len(),
        removed_at(run.remaining(), 0, (sandbox_id, text::texts(volume_ids@))),
        !fork_run.is_strict() && fork_run.failure() is None,
        removes(fork_run.remaining(), (children@[k].0, text::texts(children@[k].1@))),
{
    let all = volumes::children_view(children@);
    assert(all[k] == (children@[k].0, text::texts(children@[k].1@)));
    let place = lemma_child_is_removed(all, k);
    assert(text::texts(volume_ids@).len() == volume_ids@.len());
}

/// Calls are made one after the other, each once.
pub proof fn law_calls_are_made_in_order<E>(run: &mut CallRun<E>, call: Option<VolumeCall>)
    requires
        call_ensures(CallRun::<E>::next, (run,), call),
    ensures
        call is None <==> old(run).remaining().len() == 0,
        call matches Some(made) ==> {
            &&& call_says(made, old(run).remaining()[0])
            &&& final(run).remaining() == old(run).remaining().skip(1)
        },
        final(run).failure() == old(run).failure(),
        final(run).is_strict() == old(run).is_strict(),
{
}

/// Whether a call says this.
pub open spec fn call_says(call: VolumeCall, said: CallView) -> bool {
    match call {
        VolumeCall::RecoverAndPublish { owner, volume_ids } => said == (
        CallView::RecoverAndPublish { owner: owner@, volume_ids: text::texts(volume_ids@) }),
        VolumeCall::ReleaseOwner { owner, volume_ids } => said == (CallView::ReleaseOwner {
            owner: owner@,
            volume_ids: text::texts(volume_ids@),
        }),
        VolumeCall::Delete { volume_id } => said == (CallView::Delete { volume_id: volume_id@ }),
    }
}

/// A strict run makes no call after one that failed, and keeps its failure; any
/// other goes on as if nothing had happened.
pub proof fn law_strict_runs_stop_at_a_failure<E>(run: &mut CallRun<E>, error: E)
    requires
        call_ensures(CallRun::<E>::report, (run, Err(error)), ()),
    ensures
        old(run).is_strict() ==> final(run).remaining().len() == 0 && final(run).failure() == Some(
            error,
        ),
        !old(run).is_strict() ==> final(run).remaining() == old(run).remaining()
            && final(run).failure() == old(run).failure(),
        final(run).is_strict() == old(run).is_strict(),
{
}

/// A call that succeeded changes nothing of what is left to do.
pub proof fn law_runs_go_on_after_a_success<E>(run: &mut CallRun<E>)
    requires
        call_ensures(CallRun::<E>::report, (run, Ok(())), ()),
    ensures
        final(run).remaining() == old(run).remaining(),
        final(run).failure() == old(run).failure(),
        final(run).is_strict() == old(run).is_strict(),
{
}

/// A run succeeded exactly if no failure stopped it.
pub proof fn law_runs_end_with_their_failure<E>(run: CallRun<E>, result: Result<(), E>)
    requires
        call_ensures(CallRun::<E>::result, (run,), result),
    ensures
        result is Ok <==> run.failure() is None,
        result matches Err(error) ==> run.failure() == Some(error),
{
}

/// A prepared child mounts nothing where its source does not, and exactly the
/// drives of volumes that can be written are replaced for it, each by the volume
/// that it mounts in that place.
pub proof fn law_children_mount_nothing_else<D>(
    run: ForkRun<D>,
    specs: Vec<SandboxForkChildSpec<D>>,
    children: Vec<(SandboxId, Vec<String>)>,
    k: int,
    path: Seq<char>,
    pair: (Seq<char>, Seq<char>),
)
    requires
        run@.wf(),
        call_ensures(ForkRun::<D>::next, (run,), ForkStep::Done(specs, children)),
        0 <= k < specs@.len(),
        run@.mounts.len() > 0,
    ensures
        specs@[k].volume_mounts@.contains_key(path) ==> exists|j: int|
            0 <= j < run@.mounts.len() && (#[trigger] run@.mounts[j]).0 == path,
        text_map::pairs_view(specs@[k].replace_drive_ids@).contains(pair) ==> exists|j: int|
            0 <= j < run@.mounts.len() && pair.1
                == specs@[k].volume_mounts@[(#[trigger] run@.mounts[j]).0],
{
    assert(run@.child_wf(k));
    volume_runs::law_forked_children_share_no_exclusive_volume(run@, k, 0);
}

/// A fork starts with nothing made, for the source and the mounts that it was
/// started with, and for as many children as were asked for.
pub proof fn law_forks_start_with_nothing_made<D>(
    source: SandboxId,
    mounts: TextMap,
    count: u32,
    run: ForkRun<D>,
)
    requires
        call_ensures(ForkRun::<D>::prepare_volume_fork_specs, (source, mounts, count), run),
    ensures
        run@.wf(),
        run@.source_owner == source.text(),
        run@.mounts == mounts.list(),
        run@.left == count,
        run@.fetched.len() == 0 && run@.specs.len() == 0 && run@.children.len() == 0,
        run@.draft is None,
{
}

/// While volumes of the source are left to be looked up, a fork looks them up in
/// the order of the mounts. Then it prepares one child after the other, each mount
/// by mount, and each child counts against those that are left.
pub proof fn law_forks_prepare_child_after_child<D>(run: ForkRun<D>, step: ForkStep<D>)
    requires
        run@.wf(),
        call_ensures(ForkRun::<D>::next, (run,), step),
    ensures
        step is Fetch <==> run@.fetched.len() < run@.mounts.len(),
        step matches ForkStep::Fetch(reference, rest) ==> reference@
            == run@.mounts[run@.fetched.len() as int].1 && rest@ == run@,
        step is Done <==> run@.fetched.len() == run@.mounts.len() && run@.draft is None
            && run@.left == 0,
        step is Resolve <==> run@.fetched.len() == run@.mounts.len() && (run@.draft matches Some(
            draft,
        ) && draft.next_mount == run@.mounts.len()),
        step matches ForkStep::Resolve(mounts, owner, rest) ==> mounts@
            == run@.draft->0.volume_mounts && owner@ == run@.draft->0.sandbox_id.text() && rest@
            == run@,
        step matches ForkStep::Continue(rest) ==> (rest@.draft matches Some(draft) && {
            &&& run@.draft is None ==> {
                &&& rest@.left == run@.left - 1
                &&& ident::is_v7(draft.sandbox_id.bits)
                &&& draft.next_mount == 0
                &&& draft.volume_ids.len() == 0 && draft.replace_drive_ids.len() == 0
                &&& draft.volume_mounts =~= Map::<Seq<char>, Seq<char>>::empty()
            }
            &&& run@.draft matches Some(before) ==> {
                &&& rest@.left == run@.left
                &&& draft.sandbox_id == before.sandbox_id
                &&& draft.next_mount == before.next_mount + 1
                &&& draft.volume_ids == before.volume_ids
                &&& draft.replace_drive_ids == before.replace_drive_ids
            }
            &&& rest@.specs == run@.specs && rest@.children == run@.children
        }),
{
}

/// One more child means its own removal behind the others, and nothing twice: its
/// owner is taken off its volumes, and each is deleted once.
pub proof fn law_each_child_is_removed_once<E>(
    children: Vec<(SandboxId, Vec<String>)>,
    child: (SandboxId, Vec<String>),
    more: Vec<(SandboxId, Vec<String>)>,
    run: CallRun<E>,
    longer: CallRun<E>,
    i: int,
)
    requires
        more@ == children@.push(child),
        call_ensures(volumes::cleanup_fork_volume_children::<E>, (&children,), run),
        call_ensures(volumes::cleanup_fork_volume_children::<E>, (&more,), longer),
        0 <= i < child.1@.len(),
    ensures
        children@.len() == 0 ==> run.remaining().len() == 0,
        ({
            let n = run.remaining().len() as int;
            &&& longer.remaining().len() == n + 1 + child.1@.len()
            &&& longer.remaining().take(n) =~= run.remaining()
            &&& longer.remaining()[n] == (CallView::ReleaseOwner {
                owner: child.0.text(),
                volume_ids: text::texts(child.1@),
            })
            &&& longer.remaining()[n + 1 + i] == (CallView::Delete { volume_id: child.1@[i]@ })
        }),
{
    let all = volumes::children_view(more@);
    assert(all.drop_last() =~= volumes::children_view(children@));
    assert(all.last() == (child.0, text::texts(child.1@)));
    assert(volumes::children_view(children@).len() == children@.len());
    let added = volumes::unlaunched_calls(child.0.text(), text::texts(child.1@));
    assert(added[1 + i] == (CallView::Delete { volume_id: child.1@[i]@ }));
    let n = run.remaining().len() as int;
    assert(longer.remaining()[n] == added[0]);
    assert(longer.remaining()[n + 1 + i] == added[1 + i]);
}

proof fn lemma_failed_is_filter(
    children: Seq<(SandboxId, Seq<Seq<char>>)>,
    outcomes: Seq<Result<(SandboxMetadata, SandboxAccess), OrchestratorError>>,
)
    ensures
        fork::failed_children(children, outcomes) == children.filter(
            |child: (SandboxId, Seq<Seq<char>>)| none_runs(outcomes, child.0),
        ),
    decreases children.len(),
{
    reveal(Seq::filter);
    if children.len() > 0 {
        lemma_failed_is_filter(children.drop_last(), outcomes);
        let id = children.last().0;
        if fork::came_about(outcomes, id) {
            let i = choose|i: int|
                0 <= i < outcomes.len() && (#[trigger] outcomes[i] matches Ok((metadata, _))
                    && metadata.id == id);
            assert(runs(outcomes[i], id));
        } else {
            assert forall|i: int| 0 <= i < outcomes.len() implies !runs(#[trigger] outcomes[i], id) by {}
        }
    }
}

/// Whether no outcome is a child with an identity that runs.
pub open spec fn none_runs(
    outcomes: Seq<Result<(SandboxMetadata, SandboxAccess), OrchestratorError>>,
    id: SandboxId,
) -> bool {
    forall|i: int| 0 <= i < outcomes.len() ==> !runs(#[trigger] outcomes[i], id)
}

/// The cleanup of a fork is exactly the removal of the children that do not run,
/// in their order: nothing more, nothing less and nothing twice.
pub proof fn law_fork_cleanup_is_that_of_its_failed_children<D>(
    volumes: ForkVolumes,
    specs: Vec<SandboxForkChildSpec<D>>,
    children: Vec<(SandboxId, Vec<String>)>,
    call: ForkCall<D>,
    launch: ForkLaunch,
    outcomes: ForkOutcomes,
    cleanup: CallRun<()>,
    reply: Reply<Vec<SandboxForkResult>>,
    lost: Vec<(SandboxId, Vec<String>)>,
    removal: CallRun<()>,
)
    requires
        call_ensures(
            ForkVolumes::prepared::<D>,
            (volumes, Ok((specs, children))),
            Ok((call, launch)),
        ),
        call_ensures(ForkLaunch::forked, (launch, Ok(outcomes)), (cleanup, reply)),
        volumes::children_view(lost@) == volumes::children_view(children@).filter(
            |child: (SandboxId, Seq<Seq<char>>)| none_runs(outcomes@, child.0),
        ),
        call_ensures(volumes::cleanup_fork_volume_children::<()>, (&lost,), removal),
    ensures
        cleanup.remaining() == removal.remaining(),
{
    lemma_failed_is_filter(volumes::children_view(children@), outcomes@);
}

} // verus!
