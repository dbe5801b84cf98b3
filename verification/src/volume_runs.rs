//! Runs over the volumes of a sandbox: restoring those of a snapshot,
//! snapshotting those of a sandbox, and forking them for children.

use vstd::prelude::*;

use crate::api::{ApiError, ErrorView};
use crate::ident;
use crate::ident::{fresh_uuid, uuid_to_simple_string, SandboxId};
use crate::text;
use crate::text_map;
use crate::text_map::TextMap;
use crate::volumes;
use crate::volumes::{
    checked_layout, cleanup_fork_volume_children, cleanup_unlaunched_volumes, CallRun,
    SnapshotVolume, VolumeMode,
};

verus! {

/// Whether a text is a prefix followed by the digits of a new UUID.
pub open spec fn is_fresh_name(name: Seq<char>, prefix: Seq<char>) -> bool {
    exists|id: u128| ident::is_v7(id) && name == prefix + #[trigger] ident::uuid_simple(id)
}

fn fresh_name(prefix: &str) -> (name: String)
    ensures
        is_fresh_name(name@, prefix@),
{
    let id = fresh_uuid();
    let mut name = prefix.to_owned();
    name.append(uuid_to_simple_string(id).as_str());
    assert(ident::is_v7(id) && name@ == prefix@ + ident::uuid_simple(id));
    name
}

/// The restoration of the volumes of a snapshot for a new sandbox. The whole
/// layout has been checked before any volume is created.
pub struct RestoreRun<L> {
    sandbox_id: SandboxId,
    todo: Vec<SnapshotVolume<L>>,
    paths: Vec<String>,
    mounts: TextMap,
    volume_ids: Vec<String>,
    placed: Ghost<Seq<Seq<char>>>,
}

/// The creation of a volume from a snapshot. The sandbox owns it from the start.
#[derive(Debug)]
pub struct RestoreCall<L> {
    pub name: String,
    pub mode: VolumeMode,
    pub size_mb: u64,
    pub layers: L,
    pub owner: SandboxId,
}

/// A restoration that waits for the creation of a volume.
pub struct RestorePending<L> {
    run: RestoreRun<L>,
    path: String,
}

/// What a restoration does next.
pub enum RestoreStep<L> {
    /// Create a volume, and report.
    Create(RestoreCall<L>, RestorePending<L>),
    /// Everything is restored: the mounts and the volumes.
    Done(TextMap, Vec<String>),
}

/// A restoration that failed: what was created is removed, and then the error is
/// replied.
#[derive(Debug)]
pub struct RestoreFailure {
    pub cleanup: CallRun<ApiError>,
    pub error: ApiError,
}

/// What is wrong with the volumes of a snapshot, or nothing.
pub open spec fn restore_fault(
    count: nat,
    max_mounts: nat,
    normalized: Seq<Result<String, String>>,
) -> Option<ErrorView> {
    if count > max_mounts {
        Some(ErrorView { code: 400, message: "snapshot contains too many volume mounts"@ })
    } else {
        volumes::layout_fault(normalized)
    }
}

/// Whether mounts are those of some volumes, each at its path.
pub open spec fn mounts_placed(
    mounts: Map<Seq<char>, Seq<char>>,
    paths: Seq<Seq<char>>,
    volume_ids: Seq<Seq<char>>,
) -> bool {
    &&& paths.len() == volume_ids.len()
    &&& mounts == text_map::pairs_map(volumes::paired(paths, volume_ids))
}

impl<L> RestoreRun<L> {
    /// The sandbox that the volumes are restored for.
    pub closed spec fn owner(self) -> SandboxId {
        self.sandbox_id
    }

    /// The volumes that are left to restore.
    pub closed spec fn todo(self) -> Seq<SnapshotVolume<L>> {
        self.todo@
    }

    /// Where the volumes are mounted that are left to restore.
    pub closed spec fn paths(self) -> Seq<Seq<char>> {
        text::texts(self.paths@)
    }

    /// The mounts so far.
    pub closed spec fn mounts(self) -> Map<Seq<char>, Seq<char>> {
        self.mounts@
    }

    /// The volumes created so far.
    pub closed spec fn created(self) -> Seq<Seq<char>> {
        text::texts(self.volume_ids@)
    }

    /// Where the volumes are mounted that were created so far.
    pub closed spec fn placed(self) -> Seq<Seq<char>> {
        self.placed@
    }

    /// Whether every volume that is left has its path, and the mounts are those
    /// of the volumes created so far, each at its own.
    pub open spec fn wf(self) -> bool {
        &&& self.todo().len() == self.paths().len()
        &&& mounts_placed(self.mounts(), self.placed(), self.created())
    }

    /// Starts the restoration of a snapshot's volumes, given what each mount path
    /// was normalised to. Nothing is created for a layout that is refused.
    pub fn restore_snapshot_volume_mounts(
        snapshots: Vec<SnapshotVolume<L>>,
        normalized: Vec<Result<String, String>>,
        max_mounts: usize,
        sandbox_id: SandboxId,
    ) -> (result: Result<RestoreRun<L>, ApiError>)
        requires
            normalized@.len() == snapshots@.len(),
        ensures
            match restore_fault(snapshots@.len(), max_mounts as nat, normalized@) {
                Some(fault) => result matches Err(error) && error@ == fault,
                None => result matches Ok(run) && {
                    &&& run.wf()
                    &&& run.owner() == sandbox_id
                    &&& run.todo() == snapshots@
                    &&& run.paths() == volumes::layout_paths(normalized@)
                    &&& run.mounts() == Map::<Seq<char>, Seq<char>>::empty()
                    &&& run.created() == Seq::<Seq<char>>::empty()
                    &&& run.placed() == Seq::<Seq<char>>::empty()
                },
            },
    {
        if snapshots.len() > max_mounts {
            return Err(ApiError::new(400, "snapshot contains too many volume mounts"));
        }
        match checked_layout(normalized) {
            Err(error) => Err(error),
            Ok(paths) => {
                let volume_ids: Vec<String> = Vec::new();
                assert(text::texts(volume_ids@) =~= Seq::<Seq<char>>::empty());
                assert(text::texts(paths@).len() == paths@.len());
                Ok(
                    RestoreRun {
                        sandbox_id,
                        todo: snapshots,
                        paths,
                        mounts: TextMap::new(),
                        volume_ids,
                        placed: Ghost(Seq::empty()),
                    },
                )
            },
        }
    }

    /// What is to be done next.
    pub fn next(self) -> (step: RestoreStep<L>)
        requires
            self.wf(),
        ensures
            if self.todo().len() == 0 {
                step matches RestoreStep::Done(mounts, volume_ids) && mounts@ == self.mounts()
                    && text::texts(volume_ids@) == self.created()
            } else {
                step matches RestoreStep::Create(call, pending) && {
                    let first = self.todo()[0];
                    &&& is_fresh_name(call.name@, "volume-restore-"@)
                    &&& call.mode == first.mode
                    &&& call.size_mb == first.size_mb
                    &&& call.layers == first.layers
                    &&& call.owner == self.owner()
                    &&& pending.path() == self.paths()[0]
                    &&& pending.wf()
                    &&& pending.owner() == self.owner()
                    &&& pending.todo() == self.todo().skip(1)
                    &&& pending.paths() == self.paths().skip(1)
                    &&& pending.mounts() == self.mounts()
                    &&& pending.created() == self.created()
                    &&& pending.placed() == self.placed()
                }
            },
    {
        let mut run = self;
        if run.todo.len() == 0 {
            return RestoreStep::Done(run.mounts, run.volume_ids);
        }
        assert(text::texts(self.paths@).len() == self.paths@.len());
        let first = run.todo.remove(0);
        let path = run.paths.remove(0);
        proof {
            assert(run.todo@ =~= self.todo@.skip(1));
            assert(text::texts(run.paths@) =~= text::texts(self.paths@).skip(1));
            assert(path@ == text::texts(self.paths@)[0]);
        }
        let call = RestoreCall {
            name: fresh_name("volume-restore-"),
            mode: first.mode,
            size_mb: first.size_mb,
            layers: first.layers,
            owner: run.sandbox_id,
        };
        RestoreStep::Create(call, RestorePending { run, path })
    }
}

impl<L> RestorePending<L> {
    /// Where the volume is mounted that is being created.
    pub closed spec fn path(self) -> Seq<char> {
        self.path@
    }

    /// The sandbox that the volumes are restored for.
    pub closed spec fn owner(self) -> SandboxId {
        self.run.owner()
    }

    /// The volumes that are left to restore.
    pub closed spec fn todo(self) -> Seq<SnapshotVolume<L>> {
        self.run.todo()
    }

    /// Where the volumes are mounted that are left to restore.
    pub closed spec fn paths(self) -> Seq<Seq<char>> {
        self.run.paths()
    }

    /// The mounts so far.
    pub closed spec fn mounts(self) -> Map<Seq<char>, Seq<char>> {
        self.run.mounts()
    }

    /// The volumes created so far.
    pub closed spec fn created(self) -> Seq<Seq<char>> {
        self.run.created()
    }

    /// Where the volumes are mounted that were created so far.
    pub closed spec fn placed(self) -> Seq<Seq<char>> {
        self.run.placed()
    }

    /// Whether every volume that is left has its path, and the mounts are those
    /// of the volumes created so far, each at its own.
    pub open spec fn wf(self) -> bool {
        &&& self.todo().len() == self.paths().len()
        &&& mounts_placed(self.mounts(), self.placed(), self.created())
    }

    /// Takes note of the creation. A failure removes every volume that was created
    /// before it.
    pub fn created_volume(self, result: Result<String, ApiError>) -> (next: Result<
        RestoreRun<L>,
        RestoreFailure,
    >)
        requires
            self.wf(),
        ensures
            match result {
                Ok(volume_id) => next matches Ok(run) && {
                    &&& run.wf()
                    &&& run.owner() == self.owner()
                    &&& run.todo() == self.todo()
                    &&& run.paths() == self.paths()
                    &&& run.mounts() == self.mounts().insert(self.path(), volume_id@)
                    &&& run.created() == self.created().push(volume_id@)
                    &&& run.placed() == self.placed().push(self.path())
                },
                Err(error) => next matches Err(failure) && {
                    &&& failure.error == error
                    &&& failure.cleanup.is_strict()
                    &&& failure.cleanup.failure() is None
                    &&& failure.cleanup.remaining() == volumes::unlaunched_calls(
                        self.owner().text(),
                        self.created(),
                    )
                },
            },
    {
        match result {
            Ok(volume_id) => {
                let mut run = self.run;
                let ghost before = run.volume_ids@;
                run.mounts = run.mounts.with(self.path, volume_id.clone());
                run.volume_ids.push(volume_id);
                run.placed = Ghost(run.placed@.push(self.path@));
                proof {
                    assert(text::texts(run.volume_ids@) =~= text::texts(before).push(volume_id@));
                    let pairs = volumes::paired(run.placed(), run.created());
                    assert(pairs.drop_last() =~= volumes::paired(self.placed(), self.created()));
                    assert(pairs.last() == (self.path@, volume_id@));
                }
                Ok(run)
            },
            Err(error) => Err(
                RestoreFailure {
                    cleanup: cleanup_unlaunched_volumes(self.run.sandbox_id, &self.run.volume_ids),
                    error,
                },
            ),
        }
    }
}

impl RestoreFailure {
    /// The error to reply once the cleanup is over: that of the cleanup where it
    /// failed, and that of the creation otherwise.
    pub fn finish(self) -> (error: ApiError)
        ensures
            error == (match self.cleanup.failure() {
                Some(cleanup_error) => cleanup_error,
                None => self.error,
            }),
    {
        match self.cleanup.result() {
            Err(cleanup_error) => cleanup_error,
            Ok(()) => self.error,
        }
    }
}

/// A restoration that is over has mounted every volume that it created, each at
/// the path that the snapshot's volume was normalised to: none is lost.
pub proof fn law_restoration_mounts_every_volume(
    mounts: Map<Seq<char>, Seq<char>>,
    normalized: Seq<Result<String, String>>,
    volume_ids: Seq<Seq<char>>,
    i: int,
)
    requires
        volumes::layout_fault(normalized) is None,
        mounts_placed(mounts, volumes::layout_paths(normalized), volume_ids),
        0 <= i < normalized.len(),
    ensures
        mounts.contains_key(volumes::layout_paths(normalized)[i]),
        mounts[volumes::layout_paths(normalized)[i]] == volume_ids[i],
{
    volumes::law_every_mount_survives(normalized, volume_ids, i);
}

/// What a snapshot of one volume holds.
#[derive(Debug)]
pub struct VolumeSnapshot<L> {
    pub mode: VolumeMode,
    pub size_mb: u64,
    pub backing_layers: L,
}

/// The snapshotting of the volumes of a sandbox, mount by mount.
#[derive(Debug)]
pub struct SnapshotRun<L> {
    mounts: TextMap,
    snapshots: Vec<SnapshotVolume<L>>,
}

/// Whether snapshots are those of the first mounts, in order.
pub open spec fn snapshots_of<L>(
    snapshots: Seq<SnapshotVolume<L>>,
    mounts: Seq<(Seq<char>, Seq<char>)>,
) -> bool {
    &&& snapshots.len() <= mounts.len()
    &&& forall|i: int|
        0 <= i < snapshots.len() ==> (#[trigger] snapshots[i]).mount_path@ == mounts[i].0
}

impl<L> SnapshotRun<L> {
    /// The mounts of the sandbox.
    pub closed spec fn mounts(self) -> Seq<(Seq<char>, Seq<char>)> {
        self.mounts.list()
    }

    /// The snapshots so far.
    pub closed spec fn snapshots(self) -> Seq<SnapshotVolume<L>> {
        self.snapshots@
    }

    /// Whether the snapshots are those of the first mounts.
    pub open spec fn wf(self) -> bool {
        snapshots_of(self.snapshots(), self.mounts())
    }

    /// Starts snapshotting the volumes of a sandbox.
    pub fn snapshot_sandbox_volumes(mounts: TextMap) -> (run: SnapshotRun<L>)
        ensures
            run.wf(),
            run.mounts() == mounts.list(),
            run.snapshots() == Seq::<SnapshotVolume<L>>::empty(),
    {
        SnapshotRun { mounts, snapshots: Vec::new() }
    }

    /// The volume to snapshot next, if one is left.
    pub fn next(&self) -> (reference: Option<String>)
        requires
            self.wf(),
        ensures
            if self.snapshots().len() < self.mounts().len() {
                reference matches Some(volume) && volume@ == self.mounts()[self.snapshots().len() as int].1
            } else {
                reference is None
            },
    {
        if self.snapshots.len() < self.mounts.len() {
            Some(self.mounts.value_at(self.snapshots.len()).clone())
        } else {
            None
        }
    }

    /// Takes note of a snapshot. A failure ends the run.
    pub fn snapshotted(self, result: Result<VolumeSnapshot<L>, ApiError>) -> (next: Result<
        SnapshotRun<L>,
        ApiError,
    >)
        requires
            self.wf(),
            self.snapshots().len() < self.mounts().len(),
        ensures
            match result {
                Err(error) => next == Err::<SnapshotRun<L>, ApiError>(error),
                Ok(snapshot) => next matches Ok(run) && {
                    &&& run.wf()
                    &&& run.mounts() == self.mounts()
                    &&& run.snapshots().drop_last() == self.snapshots()
                    &&& run.snapshots().len() == self.snapshots().len() + 1
                    &&& run.snapshots().last().mode == snapshot.mode
                    &&& run.snapshots().last().size_mb == snapshot.size_mb
                    &&& run.snapshots().last().layers == snapshot.backing_layers
                },
            },
    {
        match result {
            Err(error) => Err(error),
            Ok(snapshot) => {
                let mut run = self;
                let mount_path = run.mounts.key_at(run.snapshots.len()).clone();
                run.snapshots.push(
                    SnapshotVolume {
                        mount_path,
                        mode: snapshot.mode,
                        size_mb: snapshot.size_mb,
                        layers: snapshot.backing_layers,
                    },
                );
                assert(run.snapshots@.drop_last() =~= self.snapshots@);
                Ok(run)
            },
        }
    }

    /// The snapshots.
    pub fn into_snapshots(self) -> (snapshots: Vec<SnapshotVolume<L>>)
        ensures
            snapshots@ == self.snapshots(),
    {
        self.snapshots
    }
}

/// A volume as the manager knows it.
#[derive(Debug)]
pub struct Volume {
    pub id: String,
    pub mode: VolumeMode,
    pub size_mb: u64,
}

/// What a [`Volume`] says.
pub struct VolumeView {
    pub id: Seq<char>,
    pub mode: VolumeMode,
    pub size_mb: u64,
}

impl View for Volume {
    type V = VolumeView;

    open spec fn view(&self) -> VolumeView {
        VolumeView { id: self.id@, mode: self.mode, size_mb: self.size_mb }
    }
}

/// What is launched for one child of a fork.
#[derive(Debug)]
pub struct SandboxForkChildSpec<D> {
    pub sandbox_id: SandboxId,
    pub volume_mounts: TextMap,
    pub extra_drives: Vec<D>,
    pub replace_drive_ids: Vec<(String, String)>,
}

/// The child that a fork is preparing.
#[derive(Debug)]
struct ForkDraft {
    sandbox_id: SandboxId,
    volume_mounts: TextMap,
    replace_drive_ids: Vec<(String, String)>,
    volume_ids: Vec<String>,
    next_mount: usize,
}

/// What is known of the child that a fork is preparing.
pub struct DraftView {
    pub sandbox_id: SandboxId,
    pub volume_mounts: Map<Seq<char>, Seq<char>>,
    pub replace_drive_ids: Seq<(Seq<char>, Seq<char>)>,
    pub volume_ids: Seq<Seq<char>>,
    pub next_mount: int,
}

impl View for ForkDraft {
    type V = DraftView;

    closed spec fn view(&self) -> DraftView {
        DraftView {
            sandbox_id: self.sandbox_id,
            volume_mounts: self.volume_mounts@,
            replace_drive_ids: text_map::pairs_view(self.replace_drive_ids@),
            volume_ids: text::texts(self.volume_ids@),
            next_mount: self.next_mount as int,
        }
    }
}

/// The preparation of the volumes of a fork: the volumes of the source are looked
/// up, then every child gets its own copy of each exclusive volume and shares the
/// others.
#[derive(Debug)]
pub struct ForkRun<D> {
    source_owner: String,
    mounts: TextMap,
    fetched: Vec<(String, Volume)>,
    left: u32,
    specs: Vec<SandboxForkChildSpec<D>>,
    children: Vec<(SandboxId, Vec<String>)>,
    draft: Option<ForkDraft>,
}

/// What a [`ForkRun`] is.
pub struct ForkView<D> {
    /// The text of the source's identity.
    pub source_owner: Seq<char>,
    /// The mounts of the source.
    pub mounts: Seq<(Seq<char>, Seq<char>)>,
    /// The volumes looked up so far, by the references of the first mounts.
    pub fetched: Seq<(Seq<char>, VolumeView)>,
    /// How many children are still to be started.
    pub left: nat,
    /// The children that are prepared.
    pub specs: Seq<SandboxForkChildSpec<D>>,
    /// The volumes made for each of them.
    pub children: Seq<(SandboxId, Seq<Seq<char>>)>,
    /// The child that is being prepared.
    pub draft: Option<DraftView>,
}

/// The volumes looked up, by their references.
pub open spec fn fetched_view(fetched: Seq<(String, Volume)>) -> Seq<(Seq<char>, VolumeView)> {
    fetched.map_values(|entry: (String, Volume)| (entry.0@, entry.1@))
}

/// The volume that was looked up last under a reference.
pub open spec fn volume_of(fetched: Seq<(Seq<char>, VolumeView)>, reference: Seq<char>) -> VolumeView
    decreases fetched.len(),
{
    if fetched.len() <= 1 || fetched.last().0 == reference {
        fetched.last().1
    } else {
        volume_of(fetched.drop_last(), reference)
    }
}

impl<D> View for ForkRun<D> {
    type V = ForkView<D>;

    closed spec fn view(&self) -> ForkView<D> {
        ForkView {
            source_owner: self.source_owner@,
            mounts: self.mounts.list(),
            fetched: fetched_view(self.fetched@),
            left: self.left as nat,
            specs: self.specs@,
            children: volumes::children_view(self.children@),
            draft: match self.draft {
                Some(draft) => Some(draft@),
                None => None,
            },
        }
    }
}

/// Whether a child mounts what it should for a mount of the source: one of its
/// own volumes for an exclusive one, and the source's volume for any other.
pub open spec fn mount_forked(
    mount: (Seq<char>, Seq<char>),
    fetched: Seq<(Seq<char>, VolumeView)>,
    volume_mounts: Map<Seq<char>, Seq<char>>,
    own: Seq<Seq<char>>,
) -> bool {
    let volume = volume_of(fetched, mount.1);
    &&& volume_mounts.contains_key(mount.0)
    &&& if volume.mode == VolumeMode::Exclusive {
        own.contains(volume_mounts[mount.0])
    } else {
        volume_mounts[mount.0] == volume.id
    }
}

/// Whether a child mounts what it should for the first mounts of the source, and
/// nothing else.
pub open spec fn mounts_forked(
    mounts: Seq<(Seq<char>, Seq<char>)>,
    fetched: Seq<(Seq<char>, VolumeView)>,
    count: int,
    volume_mounts: Map<Seq<char>, Seq<char>>,
    own: Seq<Seq<char>>,
) -> bool {
    &&& forall|j: int|
        0 <= j < count ==> mount_forked(#[trigger] mounts[j], fetched, volume_mounts, own)
    &&& forall|path: Seq<char>| #[trigger]
        volume_mounts.contains_key(path) ==> exists|j: int|
            0 <= j < count && (#[trigger] mounts[j]).0 == path
}

/// Which drives of the source are replaced for a child, by the first mounts of the
/// source: for each exclusive one its volume by the child's volume at that path.
pub open spec fn replaced_drives(
    mounts: Seq<(Seq<char>, Seq<char>)>,
    fetched: Seq<(Seq<char>, VolumeView)>,
    count: int,
    volume_mounts: Map<Seq<char>, Seq<char>>,
) -> Seq<(Seq<char>, Seq<char>)>
    decreases count,
{
    if count <= 0 {
        Seq::empty()
    } else {
        let before = replaced_drives(mounts, fetched, count - 1, volume_mounts);
        let mount = mounts[count - 1];
        let volume = volume_of(fetched, mount.1);
        if volume.mode == VolumeMode::Exclusive {
            before.push((volume.id, volume_mounts[mount.0]))
        } else {
            before
        }
    }
}

proof fn lemma_replaced_drives_kept(
    mounts: Seq<(Seq<char>, Seq<char>)>,
    fetched: Seq<(Seq<char>, VolumeView)>,
    count: int,
    volume_mounts: Map<Seq<char>, Seq<char>>,
    place: int,
    value: Seq<char>,
)
    requires
        text_map::distinct_keys(mounts),
        0 <= count <= place < mounts.len(),
    ensures
        replaced_drives(mounts, fetched, count, volume_mounts.insert(mounts[place].0, value))
            == replaced_drives(mounts, fetched, count, volume_mounts),
    decreases count,
{
    if count > 0 {
        lemma_replaced_drives_kept(mounts, fetched, count - 1, volume_mounts, place, value);
        assert(mounts[count - 1].0 != mounts[place].0);
    }
}

proof fn lemma_replaced_drives(
    mounts: Seq<(Seq<char>, Seq<char>)>,
    fetched: Seq<(Seq<char>, VolumeView)>,
    count: int,
    volume_mounts: Map<Seq<char>, Seq<char>>,
)
    requires
        0 <= count <= mounts.len(),
    ensures
        forall|j: int|
            0 <= j < count && volume_of(fetched, (#[trigger] mounts[j]).1).mode
                == VolumeMode::Exclusive ==> replaced_drives(
                mounts,
                fetched,
                count,
                volume_mounts,
            ).contains((volume_of(fetched, mounts[j].1).id, volume_mounts[mounts[j].0])),
        forall|pair: (Seq<char>, Seq<char>)| #[trigger]
            replaced_drives(mounts, fetched, count, volume_mounts).contains(pair) ==> exists|j: int|
                0 <= j < count && volume_of(fetched, (#[trigger] mounts[j]).1).mode
                    == VolumeMode::Exclusive && pair == (
                    volume_of(fetched, mounts[j].1).id,
                    volume_mounts[mounts[j].0],
                ),
    decreases count,
{
    if count > 0 {
        let before = replaced_drives(mounts, fetched, count - 1, volume_mounts);
        let all = replaced_drives(mounts, fetched, count, volume_mounts);
        lemma_replaced_drives(mounts, fetched, count - 1, volume_mounts);
        let last = mounts[count - 1];
        let volume = volume_of(fetched, last.1);
        assert forall|j: int|
            0 <= j < count && volume_of(fetched, (#[trigger] mounts[j]).1).mode
                == VolumeMode::Exclusive implies all.contains(
            (volume_of(fetched, mounts[j].1).id, volume_mounts[mounts[j].0]),
        ) by {
            let pair = (volume_of(fetched, mounts[j].1).id, volume_mounts[mounts[j].0]);
            if j < count - 1 {
                assert(before.contains(pair));
                let k = choose|k: int| 0 <= k < before.len() && before[k] == pair;
                assert(all[k] == pair);
            } else {
                assert(all[all.len() - 1] == pair);
            }
        }
        assert forall|pair: (Seq<char>, Seq<char>)| #[trigger] all.contains(pair) implies exists|
            j: int,
        |
            0 <= j < count && volume_of(fetched, (#[trigger] mounts[j]).1).mode
                == VolumeMode::Exclusive && pair == (
                volume_of(fetched, mounts[j].1).id,
                volume_mounts[mounts[j].0],
            ) by {
            let k = choose|k: int| 0 <= k < all.len() && all[k] == pair;
            if k < before.len() {
                assert(before[k] == pair);
                assert(before.contains(pair));
                let j = choose|j: int|
                    0 <= j < count - 1 && volume_of(fetched, (#[trigger] mounts[j]).1).mode
                        == VolumeMode::Exclusive && pair == (
                        volume_of(fetched, mounts[j].1).id,
                        volume_mounts[mounts[j].0],
                    );
            } else {
                assert(mounts[count - 1] == last);
            }
        }
    }
}

proof fn lemma_mount_forked(
    mounts: Seq<(Seq<char>, Seq<char>)>,
    fetched: Seq<(Seq<char>, VolumeView)>,
    count: int,
    volume_mounts: Map<Seq<char>, Seq<char>>,
    own: Seq<Seq<char>>,
    value: Seq<char>,
    own_after: Seq<Seq<char>>,
)
    requires
        text_map::distinct_keys(mounts),
        0 <= count < mounts.len(),
        mounts_forked(mounts, fetched, count, volume_mounts, own),
        if volume_of(fetched, mounts[count].1).mode == VolumeMode::Exclusive {
            own_after == own.push(value)
        } else {
            own_after == own && value == volume_of(fetched, mounts[count].1).id
        },
    ensures
        mounts_forked(
            mounts,
            fetched,
            count + 1,
            volume_mounts.insert(mounts[count].0, value),
            own_after,
        ),
        replaced_drives(
            mounts,
            fetched,
            count + 1,
            volume_mounts.insert(mounts[count].0, value),
        ) == (if volume_of(fetched, mounts[count].1).mode == VolumeMode::Exclusive {
            replaced_drives(mounts, fetched, count, volume_mounts).push(
                (volume_of(fetched, mounts[count].1).id, value),
            )
        } else {
            replaced_drives(mounts, fetched, count, volume_mounts)
        }),
{
    lemma_replaced_drives_kept(mounts, fetched, count, volume_mounts, count, value);
    let after = volume_mounts.insert(mounts[count].0, value);
    assert forall|j: int| 0 <= j < count + 1 implies mount_forked(
        #[trigger] mounts[j],
        fetched,
        after,
        own_after,
    ) by {
        if j < count {
            assert(mounts[j].0 != mounts[count].0);
            let kept = volume_mounts[mounts[j].0];
            if own.contains(kept) {
                let k = choose|k: int| 0 <= k < own.len() && own[k] == kept;
                assert(own_after[k] == kept);
            }
        } else if own_after.len() > own.len() {
            assert(own_after[own.len() as int] == value);
        }
    }
    assert forall|path: Seq<char>| #[trigger] after.contains_key(path) implies exists|j: int|
        0 <= j < count + 1 && (#[trigger] mounts[j]).0 == path by {
        if path == mounts[count].0 {
            assert(mounts[count].0 == path);
        } else {
            assert(volume_mounts.contains_key(path));
            let j = choose|j: int| 0 <= j < count && (#[trigger] mounts[j]).0 == path;
            assert(mounts[j].0 == path);
        }
    }
}

impl<D> ForkView<D> {
    /// How many children the fork is for.
    pub open spec fn count(self) -> nat {
        self.left + self.specs.len() + (if self.draft is Some {
            1nat
        } else {
            0nat
        })
    }

    /// Whether the volumes made for a prepared child are recorded under its
    /// identity, it mounts what it should, and its drives are replaced by that.
    pub open spec fn child_wf(self, k: int) -> bool {
        &&& self.children[k].0 == self.specs[k].sandbox_id
        &&& mounts_forked(
            self.mounts,
            self.fetched,
            self.mounts.len() as int,
            self.specs[k].volume_mounts@,
            self.children[k].1,
        )
        &&& text_map::pairs_view(self.specs[k].replace_drive_ids@) == replaced_drives(
            self.mounts,
            self.fetched,
            self.mounts.len() as int,
            self.specs[k].volume_mounts@,
        )
    }

    /// The volumes are looked up in the order of the mounts and all of them before
    /// the first child; a child is prepared mount by mount.
    pub open spec fn wf(self) -> bool {
        &&& text_map::distinct_keys(self.mounts)
        &&& self.fetched.len() <= self.mounts.len()
        &&& forall|i: int|
            0 <= i < self.fetched.len() ==> (#[trigger] self.fetched[i]).0 == self.mounts[i].1
        &&& self.draft matches Some(draft) ==> {
            &&& self.fetched.len() == self.mounts.len()
            &&& 0 <= draft.next_mount <= self.mounts.len()
            &&& mounts_forked(
                self.mounts,
                self.fetched,
                draft.next_mount,
                draft.volume_mounts,
                draft.volume_ids,
            )
            &&& draft.replace_drive_ids == replaced_drives(
                self.mounts,
                self.fetched,
                draft.next_mount,
                draft.volume_mounts,
            )
        }
        &&& self.specs.len() > 0 ==> self.fetched.len() == self.mounts.len()
        &&& self.children.len() == self.specs.len()
        &&& forall|k: int| 0 <= k < self.specs.len() ==> #[trigger] self.child_wf(k)
    }

    /// The volumes made so far, those of the child that is being prepared last.
    pub open spec fn all_children(self) -> Seq<(SandboxId, Seq<Seq<char>>)> {
        match self.draft {
            Some(draft) => self.children.push((draft.sandbox_id, draft.volume_ids)),
            None => self.children,
        }
    }
}

proof fn lemma_children_kept<D>(before: ForkView<D>, after: ForkView<D>)
    requires
        before.wf(),
        after.mounts == before.mounts,
        after.fetched == before.fetched,
        after.specs == before.specs,
        after.children == before.children,
    ensures
        forall|k: int| 0 <= k < after.specs.len() ==> #[trigger] after.child_wf(k),
{
    assert forall|k: int| 0 <= k < after.specs.len() implies #[trigger] after.child_wf(k) by {
        assert(before.child_wf(k));
    }
}

/// Every prepared child of a fork mounts a volume wherever the source does: one of
/// its own where the source's is exclusive, and the source's otherwise. What was
/// made for it is recorded under its identity. Its drives are replaced exactly for
/// the exclusive volumes, each by the child's own at that path.
pub proof fn law_forked_children_share_no_exclusive_volume<D>(fork: ForkView<D>, k: int, j: int)
    requires
        fork.wf(),
        0 <= k < fork.specs.len(),
        0 <= j < fork.mounts.len(),
    ensures
        ({
            let volume = volume_of(fork.fetched, fork.mounts[j].1);
            let mounted = fork.specs[k].volume_mounts@;
            &&& fork.children[k].0 == fork.specs[k].sandbox_id
            &&& mounted.contains_key(fork.mounts[j].0)
            &&& if volume.mode == VolumeMode::Exclusive {
                fork.children[k].1.contains(mounted[fork.mounts[j].0])
            } else {
                mounted[fork.mounts[j].0] == volume.id
            }
            &&& volume.mode == VolumeMode::Exclusive ==> text_map::pairs_view(
                fork.specs[k].replace_drive_ids@,
            ).contains((volume.id, mounted[fork.mounts[j].0]))
        }),
        forall|pair: (Seq<char>, Seq<char>)| #[trigger]
            text_map::pairs_view(fork.specs[k].replace_drive_ids@).contains(pair) ==> exists|i: int|
                0 <= i < fork.mounts.len() && volume_of(
                    fork.fetched,
                    (#[trigger] fork.mounts[i]).1,
                ).mode == VolumeMode::Exclusive && pair == (
                    volume_of(fork.fetched, fork.mounts[i].1).id,
                    fork.specs[k].volume_mounts@[fork.mounts[i].0],
                ),
{
    assert(fork.child_wf(k));
    lemma_replaced_drives(
        fork.mounts,
        fork.fetched,
        fork.mounts.len() as int,
        fork.specs[k].volume_mounts@,
    );
    assert(mount_forked(
        fork.mounts[j],
        fork.fetched,
        fork.specs[k].volume_mounts@,
        fork.children[k].1,
    ));
}

/// The creation of a child's own copy of a volume.
#[derive(Debug)]
pub struct ChildCall {
    pub volume_id: String,
    pub name: String,
    pub size_mb: u64,
    pub source_owner: String,
    pub owner: String,
}

/// What the preparation of a fork does next.
#[derive(Debug)]
pub enum ForkStep<D> {
    /// Look a volume up, and report.
    Fetch(String, ForkRun<D>),
    /// Nothing outside: go on.
    Continue(ForkRun<D>),
    /// Create a child's own exclusive copy of a volume, and report.
    CreateChild(ChildCall, ForkRun<D>),
    /// Resolve and reserve the mounts of a child, and report.
    Resolve(TextMap, String, ForkRun<D>),
    /// Every child is prepared.
    Done(Vec<SandboxForkChildSpec<D>>, Vec<(SandboxId, Vec<String>)>),
}

/// A fork whose preparation failed: what was made for its children is removed,
/// and then the error is replied.
#[derive(Debug)]
pub struct ForkFailure {
    pub cleanup: CallRun<ApiError>,
    pub error: ApiError,
}

/// The place of the volume that was looked up last under a reference.
fn place_of(fetched: &Vec<(String, Volume)>, reference: &String) -> (place: usize)
    requires
        fetched@.len() > 0,
    ensures
        place < fetched@.len(),
        fetched@[place as int].1@ == volume_of(fetched_view(fetched@), reference@),
{
    let mut i: usize = fetched.len() - 1;
    assert(fetched_view(fetched@).take(i + 1) =~= fetched_view(fetched@));
    while i > 0
        invariant
            i < fetched@.len(),
            volume_of(fetched_view(fetched@), reference@) == volume_of(
                fetched_view(fetched@).take(i + 1),
                reference@,
            ),
        decreases i,
    {
        let ghost head = fetched_view(fetched@).take(i + 1);
        assert(head.last() == (fetched@[i as int].0@, fetched@[i as int].1@));
        if fetched[i].0 == *reference {
            return i;
        }
        assert(head.drop_last() =~= fetched_view(fetched@).take(i as int));
        i = i - 1;
    }
    assert(fetched_view(fetched@).take(1).last() == (fetched@[0].0@, fetched@[0].1@));
    0
}

impl<D> ForkRun<D> {
    /// Whether a volume of the source is to be looked up next.
    pub open spec fn fetches(self) -> bool {
        self@.fetched.len() < self@.mounts.len()
    }

    /// Whether the child that is being prepared gets its own copy of a volume
    /// next.
    pub open spec fn copies(self) -> bool {
        !self.fetches() && self@.draft is Some && self@.draft->0.next_mount < self@.mounts.len()
            && self.mount_volume().mode == VolumeMode::Exclusive
    }

    /// Whether the mounts of the child that is being prepared are to be resolved
    /// next.
    pub open spec fn resolves(self) -> bool {
        !self.fetches() && self@.draft is Some && self@.draft->0.next_mount == self@.mounts.len()
    }

    /// The mount that the child that is being prepared has come to.
    pub open spec fn mount(self) -> (Seq<char>, Seq<char>) {
        self@.mounts[self@.draft->0.next_mount]
    }

    /// The volume of that mount.
    pub open spec fn mount_volume(self) -> VolumeView {
        volume_of(self@.fetched, self.mount().1)
    }

    /// Starts preparing the volumes of a fork into a number of children.
    pub fn prepare_volume_fork_specs(source: SandboxId, mounts: TextMap, count: u32) -> (run: ForkRun<
        D,
    >)
        ensures
            run@.wf(),
            run@ == (ForkView {
                source_owner: source.text(),
                mounts: mounts.list(),
                fetched: Seq::<(Seq<char>, VolumeView)>::empty(),
                left: count as nat,
                specs: Seq::<SandboxForkChildSpec<D>>::empty(),
                children: Seq::<(SandboxId, Seq<Seq<char>>)>::empty(),
                draft: None::<DraftView>,
            }),
    {
        let fetched: Vec<(String, Volume)> = Vec::new();
        let children: Vec<(SandboxId, Vec<String>)> = Vec::new();
        assert(fetched_view(fetched@) =~= Seq::<(Seq<char>, VolumeView)>::empty());
        assert(volumes::children_view(children@) =~= Seq::<(SandboxId, Seq<Seq<char>>)>::empty());
        proof {
            use_type_invariant(&mounts);
        }
        ForkRun {
            source_owner: source.to_text(),
            mounts,
            fetched,
            left: count,
            specs: Vec::new(),
            children,
            draft: None,
        }
    }

    /// What is to be done next.
    pub fn next(self) -> (step: ForkStep<D>)
        requires
            self@.wf(),
        ensures
            if self.fetches() {
                step matches ForkStep::Fetch(reference, run) && {
                    &&& reference@ == self@.mounts[self@.fetched.len() as int].1
                    &&& run@ == self@
                }
            } else {
                match self@.draft {
                    None => if self@.left == 0 {
                        step matches ForkStep::Done(specs, children) && {
                            &&& specs@ == self@.specs
                            &&& specs@.len() == self@.count()
                            &&& volumes::children_view(children@) == self@.children
                        }
                    } else {
                        step matches ForkStep::Continue(run) && run@.draft matches Some(draft) && {
                            &&& run@.wf()
                            &&& run@.count() == self@.count()
                            &&& ident::is_v7(draft.sandbox_id.bits)
                            &&& draft == (DraftView {
                                sandbox_id: draft.sandbox_id,
                                volume_mounts: Map::<Seq<char>, Seq<char>>::empty(),
                                replace_drive_ids: Seq::<(Seq<char>, Seq<char>)>::empty(),
                                volume_ids: Seq::<Seq<char>>::empty(),
                                next_mount: 0,
                            })
                            &&& run@ == (ForkView {
                                left: (self@.left - 1) as nat,
                                draft: Some(draft),
                                ..self@
                            })
                        }
                    },
                    Some(draft) => if self.resolves() {
                        step matches ForkStep::Resolve(mounts, owner, run) && {
                            &&& mounts@ == draft.volume_mounts
                            &&& owner@ == draft.sandbox_id.text()
                            &&& run@ == self@
                        }
                    } else if self.copies() {
                        step matches ForkStep::CreateChild(call, run) && {
                            &&& call.volume_id@ == self.mount_volume().id
                            &&& is_fresh_name(call.name@, "volume-fork-"@)
                            &&& call.size_mb == self.mount_volume().size_mb
                            &&& call.source_owner@ == self@.source_owner
                            &&& call.owner@ == draft.sandbox_id.text()
                            &&& run@ == self@
                        }
                    } else {
                        step matches ForkStep::Continue(run) && {
                            &&& run@.wf()
                            &&& run@ == (ForkView {
                                draft: Some(
                                    DraftView {
                                        volume_mounts: draft.volume_mounts.insert(
                                            self.mount().0,
                                            self.mount_volume().id,
                                        ),
                                        next_mount: draft.next_mount + 1,
                                        ..draft
                                    },
                                ),
                                ..self@
                            })
                        }
                    },
                }
            },
    {
        let mut run = self;
        if run.fetched.len() < run.mounts.len() {
            let reference = run.mounts.value_at(run.fetched.len()).clone();
            return ForkStep::Fetch(reference, run);
        }
        match run.draft {
            None => {
                if run.left == 0 {
                    return ForkStep::Done(run.specs, run.children);
                }
                let draft = ForkDraft {
                    sandbox_id: SandboxId::new(),
                    volume_mounts: TextMap::new(),
                    replace_drive_ids: Vec::new(),
                    volume_ids: Vec::new(),
                    next_mount: 0,
                };
                assert(text_map::pairs_view(draft.replace_drive_ids@) =~= Seq::<
                    (Seq<char>, Seq<char>),
                >::empty());
                assert(text::texts(draft.volume_ids@) =~= Seq::<Seq<char>>::empty());
                run.left = run.left - 1;
                run.draft = Some(draft);
                proof {
                    lemma_children_kept(self@, run@);
                }
                ForkStep::Continue(run)
            },
            Some(draft) => {
                if draft.next_mount == run.mounts.len() {
                    let mounts = draft.volume_mounts.clone();
                    let owner = draft.sandbox_id.to_text();
                    run.draft = Some(draft);
                    return ForkStep::Resolve(mounts, owner, run);
                }
                let place = place_of(&run.fetched, run.mounts.value_at(draft.next_mount));
                let volume = &run.fetched[place].1;
                if volume.mode == VolumeMode::Exclusive {
                    let call = ChildCall {
                        volume_id: volume.id.clone(),
                        name: fresh_name("volume-fork-"),
                        size_mb: volume.size_mb,
                        source_owner: run.source_owner.clone(),
                        owner: draft.sandbox_id.to_text(),
                    };
                    run.draft = Some(draft);
                    return ForkStep::CreateChild(call, run);
                }
                let path = run.mounts.key_at(draft.next_mount).clone();
                let shared = ForkDraft {
                    sandbox_id: draft.sandbox_id,
                    volume_mounts: draft.volume_mounts.with(path, volume.id.clone()),
                    replace_drive_ids: draft.replace_drive_ids,
                    volume_ids: draft.volume_ids,
                    next_mount: draft.next_mount + 1,
                };
                proof {
                    lemma_mount_forked(
                        self@.mounts,
                        self@.fetched,
                        draft@.next_mount,
                        draft@.volume_mounts,
                        draft@.volume_ids,
                        volume@.id,
                        draft@.volume_ids,
                    );
                }
                run.draft = Some(shared);
                proof {
                    lemma_children_kept(self@, run@);
                }
                ForkStep::Continue(run)
            },
        }
    }

    /// Takes note of a volume of the source. A failure ends the run before
    /// anything is made.
    pub fn fetched_volume(self, result: Result<Volume, ApiError>) -> (next: Result<
        ForkRun<D>,
        ApiError,
    >)
        requires
            self@.wf(),
            self.fetches(),
        ensures
            match result {
                Err(error) => next == Err::<ForkRun<D>, ApiError>(error),
                Ok(volume) => next matches Ok(run) && {
                    &&& run@.wf()
                    &&& run@ == (ForkView {
                        fetched: self@.fetched.push(
                            (self@.mounts[self@.fetched.len() as int].1, volume@),
                        ),
                        ..self@
                    })
                },
            },
    {
        match result {
            Err(error) => Err(error),
            Ok(volume) => {
                let mut run = self;
                let reference = run.mounts.value_at(run.fetched.len()).clone();
                run.fetched.push((reference, volume));
                assert(fetched_view(run.fetched@) =~= fetched_view(self.fetched@).push(
                    (reference@, volume@),
                ));
                Ok(run)
            },
        }
    }

    /// The failure of the run: everything that was made for a child is removed.
    fn failed(self, error: ApiError) -> (failure: ForkFailure)
        ensures
            failure.error == error,
            !failure.cleanup.is_strict(),
            failure.cleanup.failure() is None,
            failure.cleanup.remaining() == volumes::fork_cleanup_calls(self@.all_children()),
    {
        let mut children = self.children;
        if let Some(draft) = self.draft {
            let ghost before = children@;
            children.push((draft.sandbox_id, draft.volume_ids));
            assert(volumes::children_view(children@) =~= volumes::children_view(before).push(
                (draft.sandbox_id, text::texts(draft.volume_ids@)),
            ));
        }
        ForkFailure { cleanup: cleanup_fork_volume_children(&children), error }
    }

    /// Takes note of a child's own copy of a volume, which takes the place of the
    /// source's volume for it.
    pub fn created_child(self, result: Result<String, ApiError>) -> (next: Result<
        ForkRun<D>,
        ForkFailure,
    >)
        requires
            self@.wf(),
            self.copies(),
        ensures
            match result {
                Err(error) => next matches Err(failure) && {
                    &&& failure.error == error
                    &&& !failure.cleanup.is_strict()
                    &&& failure.cleanup.failure() is None
                    &&& failure.cleanup.remaining() == volumes::fork_cleanup_calls(
                        self@.all_children(),
                    )
                },
                Ok(child) => next matches Ok(run) && {
                    let draft = self@.draft->0;
                    &&& run@.wf()
                    &&& run@ == (ForkView {
                        draft: Some(
                            DraftView {
                                volume_mounts: draft.volume_mounts.insert(
                                    self.mount().0,
                                    child@,
                                ),
                                replace_drive_ids: draft.replace_drive_ids.push(
                                    (self.mount_volume().id, child@),
                                ),
                                volume_ids: draft.volume_ids.push(child@),
                                next_mount: draft.next_mount + 1,
                                ..draft
                            },
                        ),
                        ..self@
                    })
                },
            },
    {
        match result {
            Err(error) => Err(self.failed(error)),
            Ok(child) => {
                let mut run = self;
                let count: usize = run.mounts.len();
                if let Some(draft) = run.draft {
                    assert(draft.next_mount < count);
                    let place = place_of(&run.fetched, run.mounts.value_at(draft.next_mount));
                    let path = run.mounts.key_at(draft.next_mount).clone();
                    let original = run.fetched[place].1.id.clone();
                    let mut replace_drive_ids = draft.replace_drive_ids;
                    let mut volume_ids = draft.volume_ids;
                    let ghost pairs = replace_drive_ids@;
                    let ghost ids = volume_ids@;
                    replace_drive_ids.push((original, child.clone()));
                    volume_ids.push(child.clone());
                    assert(text_map::pairs_view(replace_drive_ids@) =~= text_map::pairs_view(
                        pairs,
                    ).push((original@, child@)));
                    assert(text::texts(volume_ids@) =~= text::texts(ids).push(child@));
                    proof {
                        lemma_mount_forked(
                            self@.mounts,
                            self@.fetched,
                            draft@.next_mount,
                            draft@.volume_mounts,
                            draft@.volume_ids,
                            child@,
                            draft@.volume_ids.push(child@),
                        );
                    }
                    run.draft = Some(
                        ForkDraft {
                            sandbox_id: draft.sandbox_id,
                            volume_mounts: draft.volume_mounts.with(path, child),
                            replace_drive_ids,
                            volume_ids,
                            next_mount: draft.next_mount + 1,
                        },
                    );
                    proof {
                        lemma_children_kept(self@, run@);
                    }
                }
                Ok(run)
            },
        }
    }

    /// Takes note of the resolved mounts of a child, which is then prepared.
    pub fn resolved(self, result: Result<Vec<D>, ApiError>) -> (next: Result<
        ForkRun<D>,
        ForkFailure,
    >)
        requires
            self@.wf(),
            self.resolves(),
        ensures
            match result {
                Err(error) => next matches Err(failure) && {
                    &&& failure.error == error
                    &&& !failure.cleanup.is_strict()
                    &&& failure.cleanup.failure() is None
                    &&& failure.cleanup.remaining() == volumes::fork_cleanup_calls(
                        self@.all_children(),
                    )
                },
                Ok(drives) => next matches Ok(run) && {
                    let draft = self@.draft->0;
                    &&& run@.wf()
                    &&& run@.count() == self@.count()
                    &&& run@.specs.len() == self@.specs.len() + 1
                    &&& run@.specs.last().sandbox_id == draft.sandbox_id
                    &&& run@.specs.last().volume_mounts@ == draft.volume_mounts
                    &&& run@.specs.last().extra_drives == drives
                    &&& text_map::pairs_view(run@.specs.last().replace_drive_ids@)
                        == draft.replace_drive_ids
                    &&& run@ == (ForkView {
                        specs: self@.specs.push(run@.specs.last()),
                        children: self@.all_children(),
                        draft: None::<DraftView>,
                        ..self@
                    })
                },
            },
    {
        match result {
            Err(error) => Err(self.failed(error)),
            Ok(drives) => {
                let mut run = self;
                if let Some(draft) = run.draft {
                    let ghost before = run.children@;
                    run.specs.push(
                        SandboxForkChildSpec {
                            sandbox_id: draft.sandbox_id,
                            volume_mounts: draft.volume_mounts,
                            extra_drives: drives,
                            replace_drive_ids: draft.replace_drive_ids,
                        },
                    );
                    run.children.push((draft.sandbox_id, draft.volume_ids));
                    assert(volumes::children_view(run.children@) =~= volumes::children_view(
                        before,
                    ).push((draft.sandbox_id, text::texts(draft.volume_ids@))));
                    run.draft = None;
                    proof {
                        assert forall|k: int| 0 <= k < run@.specs.len() implies #[trigger] run@.child_wf(
                            k,
                        ) by {
                            if k < self@.specs.len() {
                                assert(self@.child_wf(k));
                            }
                        }
                    }
                }
                Ok(run)
            },
        }
    }
}

} // verus!
