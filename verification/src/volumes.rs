//! The volumes of a sandbox: who may release them when, and how they are
//! restored, snapshotted and forked.
//!
//! The volume manager is called by whoever drives a run. A run names one call at
//! a time and is told how it ended.

use vstd::prelude::*;

use crate::api::{ApiError, ErrorView};
use crate::ident::SandboxId;
use crate::paths;
use crate::paths::paths_overlap;
use crate::text;
use crate::text::copy_texts;
use crate::text_map;
use crate::text_map::TextMap;

verus! {

/// A call of the volume manager that only succeeds or fails.
#[derive(Debug)]
pub enum VolumeCall {
    /// Recover the local backings of an owner's volumes and publish them.
    RecoverAndPublish { owner: String, volume_ids: Vec<String> },
    /// Take the owner off some volumes.
    ReleaseOwner { owner: String, volume_ids: Vec<String> },
    /// Delete a volume.
    Delete { volume_id: String },
}

/// What a [`VolumeCall`] says.
pub enum CallView {
    RecoverAndPublish { owner: Seq<char>, volume_ids: Seq<Seq<char>> },
    ReleaseOwner { owner: Seq<char>, volume_ids: Seq<Seq<char>> },
    Delete { volume_id: Seq<char> },
}

impl View for VolumeCall {
    type V = CallView;

    open spec fn view(&self) -> CallView {
        match self {
            VolumeCall::RecoverAndPublish { owner, volume_ids } => CallView::RecoverAndPublish {
                owner: owner@,
                volume_ids: text::texts(volume_ids@),
            },
            VolumeCall::ReleaseOwner { owner, volume_ids } => CallView::ReleaseOwner {
                owner: owner@,
                volume_ids: text::texts(volume_ids@),
            },
            VolumeCall::Delete { volume_id } => CallView::Delete { volume_id: volume_id@ },
        }
    }
}

/// What some calls say.
pub open spec fn calls_view(calls: Seq<VolumeCall>) -> Seq<CallView> {
    calls.map_values(|call: VolumeCall| call@)
}

/// The deletions of some volumes, in order.
pub open spec fn deletions(volume_ids: Seq<Seq<char>>) -> Seq<CallView> {
    volume_ids.map_values(|id: Seq<char>| CallView::Delete { volume_id: id })
}

/// Calls that are made one after the other. A strict run stops at the first
/// failure and keeps it; any other goes on.
#[derive(Debug)]
pub struct CallRun<E> {
    calls: Vec<VolumeCall>,
    strict: bool,
    failure: Option<E>,
}

impl<E> CallRun<E> {
    /// The calls that are still to be made.
    pub closed spec fn remaining(self) -> Seq<CallView> {
        calls_view(self.calls@)
    }

    /// Whether the run stops at the first failure.
    pub closed spec fn is_strict(self) -> bool {
        self.strict
    }

    /// The failure that stopped the run.
    pub closed spec fn failure(self) -> Option<E> {
        self.failure
    }

    fn new(calls: Vec<VolumeCall>, strict: bool) -> (run: Self)
        ensures
            run.remaining() == calls_view(calls@),
            run.is_strict() == strict,
            run.failure() is None,
    {
        CallRun { calls, strict, failure: None }
    }

    /// The next call, if one is left.
    pub fn next(&mut self) -> (call: Option<VolumeCall>)
        ensures
            final(self).is_strict() == old(self).is_strict(),
            final(self).failure() == old(self).failure(),
            if old(self).remaining().len() == 0 {
                call is None && final(self).remaining() == old(self).remaining()
            } else {
                &&& call matches Some(first) && first@ == old(self).remaining()[0]
                &&& final(self).remaining() == old(self).remaining().skip(1)
            },
    {
        if self.calls.len() == 0 {
            None
        } else {
            let first = self.calls.remove(0);
            assert(calls_view(self.calls@) =~= calls_view(old(self).calls@).skip(1));
            Some(first)
        }
    }

    /// Takes note of how a call ended. A strict run makes no more calls after a
    /// failure.
    pub fn report(&mut self, result: Result<(), E>)
        ensures
            final(self).is_strict() == old(self).is_strict(),
            match result {
                Err(error) => if old(self).is_strict() {
                    &&& final(self).remaining().len() == 0
                    &&& final(self).failure() == Some(error)
                } else {
                    &&& final(self).remaining() == old(self).remaining()
                    &&& final(self).failure() == old(self).failure()
                },
                Ok(()) => {
                    &&& final(self).remaining() == old(self).remaining()
                    &&& final(self).failure() == old(self).failure()
                },
            },
    {
        if let Err(error) = result {
            if self.strict {
                self.calls = Vec::new();
                self.failure = Some(error);
            }
        }
    }

    /// The result of the run: the failure that stopped it, or success.
    pub fn result(self) -> (result: Result<(), E>)
        ensures
            match self.failure() {
                Some(error) => result == Err::<(), E>(error),
                None => result is Ok,
            },
    {
        match self.failure {
            Some(error) => Err(error),
            None => Ok(()),
        }
    }
}

/// Appends the deletions of some volumes to a list of calls.
fn push_deletions(calls: &mut Vec<VolumeCall>, volume_ids: &Vec<String>)
    ensures
        calls_view(final(calls)@) == calls_view(old(calls)@) + deletions(
            text::texts(volume_ids@),
        ),
{
    let mut i: usize = 0;
    let ghost wanted = deletions(text::texts(volume_ids@));
    assert(calls_view(old(calls)@) + wanted.take(0) =~= calls_view(old(calls)@));
    while i < volume_ids.len()
        invariant
            i <= volume_ids.len(),
            wanted == deletions(text::texts(volume_ids@)),
            calls_view(calls@) == calls_view(old(calls)@) + wanted.take(i as int),
        decreases volume_ids.len() - i,
    {
        let ghost before = calls@;
        let call = VolumeCall::Delete { volume_id: volume_ids[i].clone() };
        calls.push(call);
        proof {
            assert(call@ == wanted[i as int]);
            assert(calls_view(calls@) =~= calls_view(before).push(call@));
            assert(wanted.take(i + 1) =~= wanted.take(i as int).push(wanted[i as int]));
            assert(calls_view(calls@) =~= calls_view(old(calls)@) + wanted.take(i + 1));
        }
        i = i + 1;
    }
    assert(wanted.take(i as int) =~= wanted);
}

/// What is done with the volumes of a failed create. While its runtime may still
/// run, nothing: the sandbox stays the durable owner of its volumes. Otherwise
/// their backings are published before the sandbox is taken off them, and what
/// was restored for it is deleted last.
pub open spec fn failed_create_calls(
    owner: Option<Seq<char>>,
    runtime_stopped: bool,
    volume_ids: Seq<Seq<char>>,
    restored_volume_ids: Seq<Seq<char>>,
) -> Seq<CallView> {
    if !runtime_stopped {
        Seq::empty()
    } else {
        match owner {
            Some(owner) => seq![
                CallView::RecoverAndPublish { owner, volume_ids },
                CallView::ReleaseOwner { owner, volume_ids },
            ] + deletions(restored_volume_ids),
            None => deletions(restored_volume_ids),
        }
    }
}

/// What an optional text says.
pub open spec fn optional_text(text: Option<String>) -> Option<Seq<char>> {
    match text {
        Some(text) => Some(text@),
        None => None,
    }
}

/// The calls that release the volumes of a failed create. The first failure
/// leaves the rest as cleanup that is still owed.
pub fn release_failed_create_volumes<E>(
    owner: Option<String>,
    runtime_stopped: bool,
    volume_ids: &Vec<String>,
    restored_volume_ids: &Vec<String>,
) -> (run: CallRun<E>)
    ensures
        run.is_strict(),
        run.failure() is None,
        run.remaining() == failed_create_calls(
            optional_text(owner),
            runtime_stopped,
            text::texts(volume_ids@),
            text::texts(restored_volume_ids@),
        ),
{
    let mut calls: Vec<VolumeCall> = Vec::new();
    assert(calls_view(calls@) =~= Seq::<CallView>::empty());
    if runtime_stopped {
        if let Some(owner) = owner {
            calls.push(
                VolumeCall::RecoverAndPublish {
                    owner: owner.clone(),
                    volume_ids: copy_texts(volume_ids),
                },
            );
            calls.push(VolumeCall::ReleaseOwner { owner, volume_ids: copy_texts(volume_ids) });
            assert(calls_view(calls@) =~= seq![
                CallView::RecoverAndPublish {
                    owner: owner@,
                    volume_ids: text::texts(volume_ids@),
                },
                CallView::ReleaseOwner { owner: owner@, volume_ids: text::texts(volume_ids@) },
            ]);
        }
        push_deletions(&mut calls, restored_volume_ids);
        assert(calls_view(calls@) =~= failed_create_calls(
            optional_text(owner),
            runtime_stopped,
            text::texts(volume_ids@),
            text::texts(restored_volume_ids@),
        ));
    }
    CallRun::new(calls, true)
}

/// A create whose runtime was not confirmed stopped keeps every volume.
pub proof fn law_unconfirmed_stop_keeps_volumes(
    owner: Option<Seq<char>>,
    volume_ids: Seq<Seq<char>>,
    restored_volume_ids: Seq<Seq<char>>,
)
    ensures
        failed_create_calls(owner, false, volume_ids, restored_volume_ids).len() == 0,
{
}

/// The backings of a failed create are published before its reservations are
/// released, and only volumes that were restored for it are deleted, after that.
pub proof fn law_publication_precedes_release(
    owner: Seq<char>,
    volume_ids: Seq<Seq<char>>,
    restored_volume_ids: Seq<Seq<char>>,
)
    ensures
        ({
            let calls = failed_create_calls(Some(owner), true, volume_ids, restored_volume_ids);
            &&& calls[0] == (CallView::RecoverAndPublish { owner, volume_ids })
            &&& calls[1] == (CallView::ReleaseOwner { owner, volume_ids })
            &&& calls.len() == 2 + restored_volume_ids.len()
            &&& forall|i: int|
                2 <= i < calls.len() ==> #[trigger] calls[i] == (CallView::Delete {
                    volume_id: restored_volume_ids[i - 2],
                })
        }),
{
}

/// What is done with volumes that were made for a launch that never happened:
/// their owner is taken off and they are deleted.
pub open spec fn unlaunched_calls(owner: Seq<char>, volume_ids: Seq<Seq<char>>) -> Seq<CallView> {
    seq![CallView::ReleaseOwner { owner, volume_ids }] + deletions(volume_ids)
}

/// The calls that remove volumes made for a launch that never happened. Only this
/// attempt's owner is taken off; deletion refuses any other live owner.
pub fn cleanup_unlaunched_volumes<E>(sandbox_id: SandboxId, volume_ids: &Vec<String>) -> (run:
    CallRun<E>)
    ensures
        run.is_strict(),
        run.failure() is None,
        run.remaining() == unlaunched_calls(sandbox_id.text(), text::texts(volume_ids@)),
{
    let mut calls: Vec<VolumeCall> = Vec::new();
    calls.push(
        VolumeCall::ReleaseOwner { owner: sandbox_id.to_text(), volume_ids: copy_texts(volume_ids) },
    );
    assert(calls_view(calls@) =~= seq![
        CallView::ReleaseOwner {
            owner: sandbox_id.text(),
            volume_ids: text::texts(volume_ids@),
        },
    ]);
    push_deletions(&mut calls, volume_ids);
    CallRun::new(calls, true)
}

/// The volumes that were made for each child of a fork.
pub open spec fn children_view(children: Seq<(SandboxId, Vec<String>)>) -> Seq<
    (SandboxId, Seq<Seq<char>>),
> {
    children.map_values(|child: (SandboxId, Vec<String>)| (child.0, text::texts(child.1@)))
}

/// What is done with the volumes of children of a fork that did not come about.
pub open spec fn fork_cleanup_calls(children: Seq<(SandboxId, Seq<Seq<char>>)>) -> Seq<CallView>
    decreases children.len(),
{
    if children.len() == 0 {
        Seq::empty()
    } else {
        fork_cleanup_calls(children.drop_last()) + unlaunched_calls(
            children.last().0.text(),
            children.last().1,
        )
    }
}

/// The calls that remove the volumes of children of a fork that did not come
/// about. A failure keeps no other volume from being removed.
pub fn cleanup_fork_volume_children<E>(children: &Vec<(SandboxId, Vec<String>)>) -> (run: CallRun<
    E,
>)
    ensures
        !run.is_strict(),
        run.failure() is None,
        run.remaining() == fork_cleanup_calls(children_view(children@)),
{
    let mut calls: Vec<VolumeCall> = Vec::new();
    let ghost all = children_view(children@);
    let mut i: usize = 0;
    assert(calls_view(calls@) =~= Seq::<CallView>::empty());
    assert(all.take(0) =~= Seq::<(SandboxId, Seq<Seq<char>>)>::empty());
    while i < children.len()
        invariant
            i <= children.len(),
            all == children_view(children@),
            calls_view(calls@) == fork_cleanup_calls(all.take(i as int)),
        decreases children.len() - i,
    {
        let ghost before = calls@;
        let owner = children[i].0.to_text();
        let volume_ids = &children[i].1;
        calls.push(VolumeCall::ReleaseOwner { owner, volume_ids: copy_texts(volume_ids) });
        let ghost middle = calls@;
        push_deletions(&mut calls, volume_ids);
        proof {
            let call = CallView::ReleaseOwner {
                owner: children@[i as int].0.text(),
                volume_ids: text::texts(children@[i as int].1@),
            };
            assert(calls_view(middle) =~= calls_view(before).push(call));
            assert(all.take(i + 1).drop_last() =~= all.take(i as int));
            assert(all.take(i + 1).last() == all[i as int]);
            assert(calls_view(calls@) =~= calls_view(before) + unlaunched_calls(
                all[i as int].0.text(),
                all[i as int].1,
            ));
        }
        i = i + 1;
    }
    assert(all.take(i as int) =~= all);
    CallRun::new(calls, false)
}

/// The mounts of a sandbox, with everything that was reserved for it.
#[derive(Debug)]
pub struct PreparedVolumeMounts<D> {
    pub owner: Option<String>,
    pub drives: Vec<D>,
    pub mounts: TextMap,
    pub volume_ids: Vec<String>,
}

/// What preparing mounts comes to.
#[derive(Debug)]
pub enum PrepareStep<D> {
    /// There are none.
    Ready(PreparedVolumeMounts<D>),
    /// These have to be resolved and reserved for the owner.
    Resolve { mounts: TextMap, owner: String },
}

/// Starts preparing the mounts of a sandbox. They are reserved under the final
/// identity of the sandbox.
pub fn prepare_volume_mounts<D>(mounts: Option<TextMap>, sandbox_id: SandboxId) -> (step: PrepareStep<
    D,
>)
    ensures
        match mounts {
            Some(wanted) if wanted.list().len() > 0 => {
                &&& step matches PrepareStep::Resolve { mounts: handed, owner } && handed == wanted
                    && owner@ == sandbox_id.text()
            },
            _ => step matches PrepareStep::Ready(prepared) && nothing_prepared(prepared),
        },
{
    match mounts {
        Some(mounts) => {
            if !mounts.is_empty() {
                return PrepareStep::Resolve { mounts, owner: sandbox_id.to_text() };
            }
        },
        None => {},
    }
    PrepareStep::Ready(
        PreparedVolumeMounts {
            owner: None,
            drives: Vec::new(),
            mounts: TextMap::new(),
            volume_ids: Vec::new(),
        },
    )
}

/// Whether nothing was reserved.
pub open spec fn nothing_prepared<D>(prepared: PreparedVolumeMounts<D>) -> bool {
    &&& prepared.owner is None
    &&& prepared.drives@.len() == 0
    &&& prepared.mounts.list().len() == 0
    &&& prepared.volume_ids@.len() == 0
}

/// What was prepared once the mounts are resolved: the volumes are those that
/// are mounted.
pub fn prepared_mounts<D>(owner: String, drives: Vec<D>, mounts: TextMap) -> (prepared:
    PreparedVolumeMounts<D>)
    ensures
        prepared.owner == Some(owner),
        prepared.drives == drives,
        prepared.mounts == mounts,
        text::texts(prepared.volume_ids@) == mounted_volumes(mounts.list()),
{
    let volume_ids = mounts.values();
    assert(text::texts(volume_ids@) =~= mounted_volumes(mounts.list()));
    PreparedVolumeMounts { owner: Some(owner), drives, volume_ids, mounts }
}

/// The volumes of some mounts, in order.
pub open spec fn mounted_volumes(mounts: Seq<(Seq<char>, Seq<char>)>) -> Seq<Seq<char>> {
    mounts.map_values(|mount: (Seq<char>, Seq<char>)| mount.1)
}

/// Whether a volume can be written by one sandbox or only read.
#[derive(Debug, Clone, Copy, PartialEq, Eq, Structural)]
pub enum VolumeMode {
    Exclusive,
    ReadOnly,
}

/// A volume as a snapshot keeps it.
#[derive(Debug)]
pub struct SnapshotVolume<L> {
    pub mount_path: String,
    pub mode: VolumeMode,
    pub size_mb: u64,
    pub layers: L,
}

/// What is wrong with the layout of mounts, given what each path was normalised
/// to: the first path that could not be, or that overlaps an earlier one.
pub open spec fn layout_fault(paths: Seq<Result<String, String>>) -> Option<ErrorView>
    decreases paths.len(),
{
    if paths.len() == 0 {
        None
    } else {
        match layout_fault(paths.drop_last()) {
            Some(fault) => Some(fault),
            None => match paths.last() {
                Err(error) => Some(ErrorView { code: 400, message: error@ }),
                Ok(path) => if overlaps_any(paths.drop_last(), path@) {
                    Some(
                        ErrorView { code: 400, message: "snapshot volume mount paths overlap"@ },
                    )
                } else {
                    None
                },
            },
        }
    }
}

/// Whether a path overlaps one of some normalised paths.
pub open spec fn overlaps_any(paths: Seq<Result<String, String>>, path: Seq<char>) -> bool {
    exists|i: int|
        0 <= i < paths.len() && (#[trigger] paths[i] matches Ok(existing) && paths::overlap(
            existing@,
            path,
        ))
}

/// The normalised paths of a layout without fault.
pub open spec fn layout_paths(paths: Seq<Result<String, String>>) -> Seq<Seq<char>> {
    paths.map_values(|path: Result<String, String>| (path->Ok_0)@)
}

/// No two paths of a layout without fault overlap, so no mount is lost.
pub proof fn law_layout_is_disjoint(paths: Seq<Result<String, String>>, i: int, j: int)
    requires
        layout_fault(paths) is None,
        0 <= i < j < paths.len(),
    ensures
        paths[i] is Ok,
        paths[j] is Ok,
        !paths::overlap(layout_paths(paths)[i], layout_paths(paths)[j]),
    decreases paths.len(),
{
    let rest = paths.drop_last();
    if j < paths.len() - 1 {
        law_layout_is_disjoint(rest, i, j);
        assert(rest[i] == paths[i]);
        assert(rest[j] == paths[j]);
    } else {
        lemma_layout_readable(rest, i);
        assert(rest[i] == paths[i]);
    }
}

proof fn lemma_layout_readable(paths: Seq<Result<String, String>>, i: int)
    requires
        layout_fault(paths) is None,
        0 <= i < paths.len(),
    ensures
        paths[i] is Ok,
    decreases paths.len(),
{
    if i < paths.len() - 1 {
        lemma_layout_readable(paths.drop_last(), i);
        assert(paths.drop_last()[i] == paths[i]);
    }
}

/// Mounts as pairs of a path and a volume.
pub open spec fn paired(paths: Seq<Seq<char>>, volume_ids: Seq<Seq<char>>) -> Seq<
    (Seq<char>, Seq<char>),
> {
    Seq::new(paths.len(), |i: int| (paths[i], volume_ids[i]))
}

/// When one volume is mounted at each path of a layout without fault, every
/// volume is found under its own path.
pub proof fn law_every_mount_survives(
    paths: Seq<Result<String, String>>,
    volume_ids: Seq<Seq<char>>,
    i: int,
)
    requires
        layout_fault(paths) is None,
        volume_ids.len() == paths.len(),
        0 <= i < paths.len(),
    ensures
        ({
            let mounts = text_map::pairs_map(paired(layout_paths(paths), volume_ids));
            &&& mounts.contains_key(layout_paths(paths)[i])
            &&& mounts[layout_paths(paths)[i]] == volume_ids[i]
        }),
{
    let pairs = paired(layout_paths(paths), volume_ids);
    assert forall|a: int, b: int| 0 <= a < b < pairs.len() implies (#[trigger] pairs[a]).0 != (
    #[trigger] pairs[b]).0 by {
        law_layout_is_disjoint(paths, a, b);
        let parts = paths::components(pairs[a].0);
        assert(parts.subrange(0, parts.len() as int) =~= parts);
    }
    text_map::lemma_pairs_map_lookup(pairs, i);
}

proof fn lemma_layout_fault_stays(paths: Seq<Result<String, String>>, n: int)
    requires
        0 <= n <= paths.len(),
        layout_fault(paths.take(n)) is Some,
    ensures
        layout_fault(paths) == layout_fault(paths.take(n)),
    decreases paths.len() - n,
{
    if n < paths.len() {
        assert(paths.take(n + 1).drop_last() =~= paths.take(n));
        lemma_layout_fault_stays(paths, n + 1);
    } else {
        assert(paths.take(n) =~= paths);
    }
}

/// Checks a layout of mounts, given what each path was normalised to.
pub fn checked_layout(normalized: Vec<Result<String, String>>) -> (result: Result<Vec<String>, ApiError>)
    ensures
        match layout_fault(normalized@) {
            Some(fault) => result matches Err(error) && error@ == fault,
            None => result matches Ok(paths) && text::texts(paths@) == layout_paths(normalized@),
        },
{
    let mut rest = normalized;
    let mut accepted: Vec<String> = Vec::new();
    let ghost mut done: int = 0;
    assert(normalized@.take(0) =~= Seq::<Result<String, String>>::empty());
    while rest.len() > 0
        invariant
            0 <= done <= normalized@.len(),
            rest@ == normalized@.skip(done),
            accepted@.len() == done,
            layout_fault(normalized@.take(done)) is None,
            forall|i: int|
                0 <= i < done ==> (#[trigger] normalized@[i] matches Ok(path) && accepted@[i]@
                    == path@),
        decreases rest.len(),
    {
        let first = rest.remove(0);
        proof {
            assert(first == normalized@[done]);
            assert(normalized@.take(done + 1).drop_last() =~= normalized@.take(done));
            assert(normalized@.take(done + 1).last() == first);
        }
        match first {
            Err(message) => {
                proof {
                    lemma_layout_fault_stays(normalized@, done + 1);
                }
                return Err(ApiError { code: 400, message });
            },
            Ok(path) => {
                let mut i: usize = 0;
                while i < accepted.len()
                    invariant
                        i <= accepted.len(),
                        accepted@.len() == done,
                        0 <= done < normalized@.len(),
                        normalized@[done] == Ok::<String, String>(path),
                        normalized@.take(done + 1).drop_last() == normalized@.take(done),
                        normalized@.take(done + 1).last() == normalized@[done],
                        layout_fault(normalized@.take(done)) is None,
                        forall|k: int|
                            0 <= k < done ==> (#[trigger] normalized@[k] matches Ok(other)
                                && accepted@[k]@ == other@),
                        forall|k: int|
                            0 <= k < i ==> !paths::overlap((#[trigger] accepted@[k])@, path@),
                    decreases accepted.len() - i,
                {
                    if paths_overlap(accepted[i].as_str(), path.as_str()) {
                        proof {
                            let before = normalized@.take(done);
                            assert(before[i as int] == normalized@[i as int]);
                            assert(before[i as int] matches Ok(existing) && paths::overlap(
                                existing@,
                                path@,
                            ));
                            assert(overlaps_any(before, path@));
                            lemma_layout_fault_stays(normalized@, done + 1);
                        }
                        return Err(ApiError::new(400, "snapshot volume mount paths overlap"));
                    }
                    i = i + 1;
                }
                proof {
                    let before = normalized@.take(done);
                    assert(!overlaps_any(before, path@)) by {
                        if overlaps_any(before, path@) {
                            let k = choose|k: int|
                                0 <= k < before.len() && (#[trigger] before[k] matches Ok(existing)
                                    && paths::overlap(existing@, path@));
                            assert(before[k] == normalized@[k]);
                            assert(!paths::overlap(accepted@[k]@, path@));
                        }
                    }
                }
                accepted.push(path);
            },
        }
        proof {
            done = done + 1;
            assert(rest@ =~= normalized@.skip(done));
        }
    }
    assert(normalized@.take(done) =~= normalized@);
    assert(text::texts(accepted@) =~= layout_paths(normalized@));
    Ok(accepted)
}

} // verus!
