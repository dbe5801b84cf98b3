//! The ownership of pre-spawned Firecracker processes.
//!
//! Each warm entry owns a network slot, a running Firecracker process and the
//! working directory that the process runs in. Snapshot resume can consume an
//! entry to skip process spawn and socket polling on the critical path. Every
//! entry that is ready, being created or not yet cleaned up counts against one
//! limit, and no failure or cancellation loses one.
//!
//! Slots, processes and directories are handed through as they are (`S`, `I`
//! and `D`). Whoever drives the pool performs what a command names and reports
//! how it ended.

use vstd::prelude::*;

use crate::text;
use crate::text::decimal_string;
use crate::warm_pool::{PoolConfig, WarmPool};

verus! {

/// How long a Firecracker process is given to stop, in milliseconds.
pub const POOL_FIRECRACKER_STOP_TIMEOUT: u64 = 2_000;

/// How often priming looks at the number of ready entries, in milliseconds.
pub const POOL_PRIME_POLL_INTERVAL: u64 = 20;

/// What a warm entry owns. The slot is gone once its network is cleaned up.
#[derive(Debug)]
pub struct WarmResources<S, I, D> {
    pub slot: Option<S>,
    pub fc_instance: I,
    pub work_dir: D,
}

/// One warm entry, an indivisible unit of ownership that counts against the
/// limit of its pool. It holds no resources while they are being allocated.
#[derive(Debug)]
pub struct WarmFirecracker<S, I, D> {
    resources: Option<WarmResources<S, I, D>>,
}

impl<S, I, D> WarmFirecracker<S, I, D> {
    /// What the entry owns.
    pub closed spec fn contents(self) -> Option<WarmResources<S, I, D>> {
        self.resources
    }

    /// What the entry owns.
    pub fn resources(&self) -> (resources: Option<&WarmResources<S, I, D>>)
        ensures
            match resources {
                Some(resources) => self.contents() == Some(*resources),
                None => self.contents() is None,
            },
    {
        match &self.resources {
            Some(resources) => Some(resources),
            None => None,
        }
    }

    /// Takes up an entry again whose cleanup is owed.
    pub(crate) fn from_pending(resources: WarmResources<S, I, D>) -> (warm: Self)
        ensures
            warm.contents() == Some(resources),
    {
        WarmFirecracker { resources: Some(resources) }
    }

    /// What the entry owns, for a run that holds the entry in its place.
    pub(crate) fn into_resources(self) -> (resources: WarmResources<S, I, D>)
        requires
            self.contents() is Some,
        ensures
            self.contents() == Some(resources),
    {
        self.resources.unwrap()
    }
}

/// Why no warm entry can be reserved.
#[derive(Debug, Clone, Copy, PartialEq, Eq, Structural)]
pub enum ReserveError {
    ShuttingDown,
    CapacityOccupied { outstanding: usize, limit: usize },
}

impl ReserveError {
    /// The message of the error.
    pub open spec fn text(self) -> Seq<char> {
        match self {
            ReserveError::ShuttingDown => "warm Firecracker pool is shutting down"@,
            ReserveError::CapacityOccupied { outstanding, limit } => {
                "warm Firecracker capacity is occupied by "@ + text::decimal(outstanding as nat)
                    + " ready, creating or unresolved owners (limit "@ + text::decimal(limit as nat)
                    + ")"@
            },
        }
    }

    /// Renders the error.
    pub fn message(self) -> (text: String)
        ensures
            text@ == self.text(),
    {
        match self {
            ReserveError::ShuttingDown => "warm Firecracker pool is shutting down".to_owned(),
            ReserveError::CapacityOccupied { outstanding, limit } => {
                let mut text = "warm Firecracker capacity is occupied by ".to_owned();
                text.append(decimal_string(outstanding).as_str());
                text.append(" ready, creating or unresolved owners (limit ");
                text.append(decimal_string(limit).as_str());
                text.append(")");
                text
            },
        }
    }
}

/// The entries whose cleanup is still owed, and how many entries there are in
/// all.
#[derive(Debug)]
struct WarmCleanupState<S, I, D> {
    pending: Vec<WarmResources<S, I, D>>,
    outstanding: usize,
}

/// The pool of warm entries.
pub struct FirecrackerPool<S, I, D> {
    pool: WarmPool<WarmResources<S, I, D>>,
    cleanup: WarmCleanupState<S, I, D>,
    fill_concurrency: usize,
    held: Ghost<nat>,
}

/// What a pool is.
pub struct PoolView<S, I, D> {
    /// The entries that can be acquired, the first to leave first.
    pub ready: Seq<WarmResources<S, I, D>>,
    /// The entries whose cleanup is still owed.
    pub pending: Seq<WarmResources<S, I, D>>,
    /// How many entries count against the limit.
    pub outstanding: nat,
    /// How many of them someone holds outside the pool.
    pub held: nat,
    pub limits: PoolConfig,
    pub fill_concurrency: nat,
    pub closed: bool,
    pub maintenance_requested: bool,
}

impl<S, I, D> PoolView<S, I, D> {
    /// Every entry that counts is ready, pending or held, and every ready entry
    /// has its slot.
    pub open spec fn wf(self) -> bool {
        &&& self.outstanding == self.ready.len() + self.pending.len() + self.held
        &&& forall|i: int| 0 <= i < self.ready.len() ==> (#[trigger] self.ready[i]).slot is Some
    }

    /// The pool when a held entry is given up: what it owns is still to be
    /// cleaned up, and an entry without resources only frees its capacity.
    pub open spec fn abandoned(self, entry: Option<WarmResources<S, I, D>>) -> Self {
        match entry {
            Some(resources) => PoolView {
                pending: self.pending.push(resources),
                held: (self.held - 1) as nat,
                ..self
            },
            None => self.released(),
        }
    }

    /// The pool when a held entry has left for good.
    pub open spec fn released(self) -> Self {
        PoolView {
            outstanding: (self.outstanding - 1) as nat,
            held: (self.held - 1) as nat,
            ..self
        }
    }
}

impl<S, I, D> View for FirecrackerPool<S, I, D> {
    type V = PoolView<S, I, D>;

    closed spec fn view(&self) -> PoolView<S, I, D> {
        PoolView {
            ready: self.pool@,
            pending: self.cleanup.pending@,
            outstanding: self.cleanup.outstanding as nat,
            held: self.held@,
            limits: self.pool.limits(),
            fill_concurrency: self.fill_concurrency as nat,
            closed: self.pool.is_closed(),
            maintenance_requested: self.pool.maintenance_is_requested(),
        }
    }
}

/// The contents of entries that all own something.
pub open spec fn owned<S, I, D>(entries: Seq<WarmFirecracker<S, I, D>>) -> Seq<
    WarmResources<S, I, D>,
> {
    entries.map_values(|entry: WarmFirecracker<S, I, D>| entry.contents()->0)
}

/// Whether every entry owns something.
pub open spec fn all_owned<S, I, D>(entries: Seq<WarmFirecracker<S, I, D>>) -> bool {
    forall|i: int| 0 <= i < entries.len() ==> (#[trigger] entries[i]).contents() is Some
}

/// Takes every entry of a list of resources, in order.
fn into_entries<S, I, D>(resources: Vec<WarmResources<S, I, D>>) -> (entries: Vec<
    WarmFirecracker<S, I, D>,
>)
    ensures
        all_owned(entries@),
        owned(entries@) == resources@,
{
    let mut rest = resources;
    let mut entries: Vec<WarmFirecracker<S, I, D>> = Vec::new();
    while rest.len() > 0
        invariant
            all_owned(entries@),
            owned(entries@) + rest@ == resources@,
        decreases rest.len(),
    {
        let first = rest.remove(0);
        let entry = WarmFirecracker { resources: Some(first) };
        entries.push(entry);
        assert(owned(entries@) + rest@ =~= resources@);
    }
    assert(owned(entries@) =~= resources@);
    entries
}

impl<S, I, D> FirecrackerPool<S, I, D> {
    /// An empty pool.
    pub fn new(config: PoolConfig, fill_concurrency: usize) -> (pool: Self)
        ensures
            pool@.wf(),
            pool@ == (PoolView {
                ready: Seq::<WarmResources<S, I, D>>::empty(),
                pending: Seq::<WarmResources<S, I, D>>::empty(),
                outstanding: 0,
                held: 0,
                limits: config,
                fill_concurrency: fill_concurrency as nat,
                closed: false,
                maintenance_requested: false,
            }),
    {
        FirecrackerPool {
            pool: WarmPool::new(config),
            cleanup: WarmCleanupState { pending: Vec::new(), outstanding: 0 },
            fill_concurrency,
            held: Ghost(0),
        }
    }

    /// The number of ready entries.
    pub fn warm_len(&self) -> (len: usize)
        ensures
            len == self@.ready.len(),
    {
        self.pool.len()
    }

    /// The limits of the pool.
    pub fn config(&self) -> (config: PoolConfig)
        ensures
            config == self@.limits,
    {
        self.pool.config()
    }

    /// How many entries are created at once.
    pub fn fill_concurrency(&self) -> (count: usize)
        ensures
            count == self@.fill_concurrency,
    {
        self.fill_concurrency
    }

    /// Whether the pool has been closed.
    pub fn is_shutting_down(&self) -> (closed: bool)
        ensures
            closed == self@.closed,
    {
        self.pool.is_shutting_down()
    }

    /// The number of entries whose cleanup is still owed.
    pub fn pending_len(&self) -> (len: usize)
        ensures
            len == self@.pending.len(),
    {
        self.cleanup.pending.len()
    }

    /// What an entry owns whose cleanup is still owed.
    pub fn pending_entry(&self, index: usize) -> (entry: &WarmResources<S, I, D>)
        requires
            index < self@.pending.len(),
        ensures
            *entry == self@.pending[index as int],
    {
        &self.cleanup.pending[index]
    }

    /// The number of entries that count against the limit.
    pub fn outstanding(&self) -> (outstanding: usize)
        ensures
            outstanding == self@.outstanding,
    {
        self.cleanup.outstanding
    }

    /// Reserves an entry below a limit, before anything is allocated for it.
    /// Entries whose cleanup is owed take up the same room.
    pub fn reserve(&mut self, limit: usize) -> (result: Result<
        WarmFirecracker<S, I, D>,
        ReserveError,
    >)
        requires
            old(self)@.wf(),
        ensures
            final(self)@.wf(),
            if old(self)@.outstanding < limit {
                &&& result matches Ok(entry) && entry.contents() is None
                &&& final(self)@ == (PoolView {
                    outstanding: old(self)@.outstanding + 1,
                    held: old(self)@.held + 1,
                    ..old(self)@
                })
            } else {
                &&& result == Err::<WarmFirecracker<S, I, D>, ReserveError>(
                    ReserveError::CapacityOccupied {
                        outstanding: old(self)@.outstanding as usize,
                        limit,
                    },
                )
                &&& final(self)@ == old(self)@
            },
    {
        if self.cleanup.outstanding >= limit {
            return Err(
                ReserveError::CapacityOccupied { outstanding: self.cleanup.outstanding, limit },
            );
        }
        self.cleanup.outstanding = self.cleanup.outstanding + 1;
        self.held = Ghost((self.held@ + 1) as nat);
        Ok(WarmFirecracker { resources: None })
    }

    /// Reserves an entry for creation, unless the pool is closed or its limit is
    /// reached.
    pub fn reserve_warm_capacity(&mut self) -> (result: Result<
        WarmFirecracker<S, I, D>,
        ReserveError,
    >)
        requires
            old(self)@.wf(),
        ensures
            final(self)@.wf(),
            if old(self)@.closed {
                &&& result == Err::<WarmFirecracker<S, I, D>, ReserveError>(
                    ReserveError::ShuttingDown,
                )
                &&& final(self)@ == old(self)@
            } else if old(self)@.outstanding < old(self)@.limits.high_watermark {
                &&& result matches Ok(entry) && entry.contents() is None
                &&& final(self)@ == (PoolView {
                    outstanding: old(self)@.outstanding + 1,
                    held: old(self)@.held + 1,
                    ..old(self)@
                })
            } else {
                &&& result == Err::<WarmFirecracker<S, I, D>, ReserveError>(
                    ReserveError::CapacityOccupied {
                        outstanding: old(self)@.outstanding as usize,
                        limit: old(self)@.limits.high_watermark,
                    },
                )
                &&& final(self)@ == old(self)@
            },
    {
        if self.pool.is_shutting_down() {
            return Err(ReserveError::ShuttingDown);
        }
        let limit = self.pool.config().high_watermark;
        self.reserve(limit)
    }

    /// Gives up a held entry. What it owns is queued for cleanup; an entry that
    /// owns nothing only frees its capacity.
    pub fn abandon(&mut self, warm: WarmFirecracker<S, I, D>)
        requires
            old(self)@.wf(),
            old(self)@.held >= 1,
        ensures
            final(self)@.wf(),
            final(self)@ == old(self)@.abandoned(warm.contents()),
    {
        match warm.resources {
            Some(resources) => {
                self.cleanup.pending.push(resources);
            },
            None => {
                self.cleanup.outstanding = self.cleanup.outstanding - 1;
            },
        }
        self.held = Ghost((self.held@ - 1) as nat);
    }

    /// Gives up several held entries that all own something.
    pub fn abandon_all(&mut self, entries: Vec<WarmFirecracker<S, I, D>>)
        requires
            old(self)@.wf(),
            old(self)@.held >= entries@.len(),
            all_owned(entries@),
        ensures
            final(self)@.wf(),
            final(self)@ == (PoolView {
                pending: old(self)@.pending + owned(entries@),
                held: (old(self)@.held - entries@.len()) as nat,
                ..old(self)@
            }),
    {
        let mut rest = entries;
        let ghost mut done: int = 0;
        assert(owned(entries@).take(0) =~= Seq::<WarmResources<S, I, D>>::empty());
        while rest.len() > 0
            invariant
                self@.wf(),
                all_owned(entries@),
                0 <= done <= entries@.len(),
                rest@ == entries@.skip(done),
                old(self)@.held >= entries@.len(),
                self@ == (PoolView {
                    pending: old(self)@.pending + owned(entries@).take(done),
                    held: (old(self)@.held - done) as nat,
                    ..old(self)@
                }),
            decreases rest.len(),
        {
            let first = rest.remove(0);
            self.abandon(first);
            proof {
                assert(first == entries@[done]);
                assert(owned(entries@).take(done + 1) =~= owned(entries@).take(done).push(
                    first.contents()->0,
                ));
                assert(self@.pending =~= old(self)@.pending + owned(entries@).take(done + 1));
                done = done + 1;
                assert(rest@ =~= entries@.skip(done));
            }
        }
        assert(owned(entries@).take(done) =~= owned(entries@));
    }

    /// Takes what a held entry owns and frees its capacity.
    pub fn release_ownership(&mut self, warm: WarmFirecracker<S, I, D>) -> (resources: WarmResources<
        S,
        I,
        D,
    >)
        requires
            old(self)@.wf(),
            old(self)@.held >= 1,
            warm.contents() is Some,
        ensures
            final(self)@.wf(),
            warm.contents() == Some(resources),
            final(self)@ == old(self)@.released(),
    {
        self.cleanup.outstanding = self.cleanup.outstanding - 1;
        self.held = Ghost((self.held@ - 1) as nat);
        warm.resources.unwrap()
    }

    /// Hands everything that a ready entry owns to a sandbox.
    pub fn into_parts(&mut self, warm: WarmFirecracker<S, I, D>) -> (parts: (S, I, D))
        requires
            old(self)@.wf(),
            old(self)@.held >= 1,
            warm.contents() is Some,
            (warm.contents()->0).slot is Some,
        ensures
            final(self)@.wf(),
            warm.contents() == Some(
                WarmResources { slot: Some(parts.0), fc_instance: parts.1, work_dir: parts.2 },
            ),
            final(self)@ == old(self)@.released(),
    {
        let resources = self.release_ownership(warm);
        (resources.slot.unwrap(), resources.fc_instance, resources.work_dir)
    }

    /// Acquires the entry that has been ready longest, and asks for maintenance
    /// when fewer than the low watermark are left.
    pub fn try_acquire(&mut self) -> (entry: Option<WarmFirecracker<S, I, D>>)
        requires
            old(self)@.wf(),
        ensures
            final(self)@.wf(),
            if old(self)@.ready.len() == 0 {
                entry is None && final(self)@ == old(self)@
            } else {
                &&& entry matches Some(warm) && warm.contents() == Some(old(self)@.ready[0])
                &&& final(self)@ == (PoolView {
                    ready: old(self)@.ready.skip(1),
                    held: old(self)@.held + 1,
                    maintenance_requested: old(self)@.maintenance_requested || old(
                        self,
                    )@.ready.len() - 1 < old(self)@.limits.low_watermark,
                    ..old(self)@
                })
            },
    {
        match self.pool.try_acquire() {
            None => None,
            Some(resources) => {
                self.held = Ghost((self.held@ + 1) as nat);
                if self.pool.len() < self.pool.config().low_watermark {
                    self.pool.request_maintenance();
                }
                Some(WarmFirecracker { resources: Some(resources) })
            },
        }
    }

    /// Takes up the request for maintenance, if there was one.
    pub fn take_maintenance_request(&mut self) -> (requested: bool)
        requires
            old(self)@.wf(),
        ensures
            final(self)@.wf(),
            requested == old(self)@.maintenance_requested,
            final(self)@ == (PoolView { maintenance_requested: false, ..old(self)@ }),
    {
        self.pool.take_maintenance_request()
    }

    /// Takes a ready entry to be torn down.
    pub fn try_drain_one(&mut self) -> (entry: Option<WarmFirecracker<S, I, D>>)
        requires
            old(self)@.wf(),
        ensures
            final(self)@.wf(),
            if old(self)@.ready.len() == 0 {
                entry is None && final(self)@ == old(self)@
            } else {
                &&& entry matches Some(warm) && warm.contents() == Some(old(self)@.ready[0])
                &&& final(self)@ == (PoolView {
                    ready: old(self)@.ready.skip(1),
                    held: old(self)@.held + 1,
                    ..old(self)@
                })
            },
    {
        match self.pool.try_drain_one() {
            None => None,
            Some(resources) => {
                self.held = Ghost((self.held@ + 1) as nat);
                Some(WarmFirecracker { resources: Some(resources) })
            },
        }
    }

    /// Publishes a held entry that is intact, or hands it back when the pool is
    /// full.
    pub fn try_publish(&mut self, warm: WarmFirecracker<S, I, D>) -> (result: Result<
        (),
        WarmFirecracker<S, I, D>,
    >)
        requires
            old(self)@.wf(),
            old(self)@.held >= 1,
            warm.contents() is Some,
            (warm.contents()->0).slot is Some,
        ensures
            final(self)@.wf(),
            if old(self)@.ready.len() < old(self)@.limits.high_watermark {
                &&& result is Ok
                &&& final(self)@ == (PoolView {
                    ready: old(self)@.ready.push(warm.contents()->0),
                    held: (old(self)@.held - 1) as nat,
                    ..old(self)@
                })
            } else {
                &&& result matches Err(back) && back.contents() == warm.contents()
                &&& final(self)@ == old(self)@
            },
    {
        match self.pool.try_push_bounded(warm.resources.unwrap()) {
            Ok(()) => {
                self.held = Ghost((self.held@ - 1) as nat);
                Ok(())
            },
            Err(resources) => Err(WarmFirecracker { resources: Some(resources) }),
        }
    }

    /// Takes every entry whose cleanup is owed, all at once: a pass that is
    /// broken off gives up even those that it has not visited, and two passes
    /// never hold the same entry.
    pub fn take_pending_cleanup(&mut self) -> (entries: Vec<WarmFirecracker<S, I, D>>)
        requires
            old(self)@.wf(),
        ensures
            final(self)@.wf(),
            all_owned(entries@),
            owned(entries@) == old(self)@.pending,
            final(self)@ == (PoolView {
                pending: Seq::<WarmResources<S, I, D>>::empty(),
                held: old(self)@.held + old(self)@.pending.len(),
                ..old(self)@
            }),
    {
        let mut pending: Vec<WarmResources<S, I, D>> = Vec::new();
        pending.append(&mut self.cleanup.pending);
        self.held = Ghost((self.held@ + pending@.len()) as nat);
        into_entries(pending)
    }

    /// Closes the pool. Whoever is about to shut it down waits for its
    /// maintenance to end before taking the entries.
    pub fn close(&mut self)
        requires
            old(self)@.wf(),
        ensures
            final(self)@.wf(),
            final(self)@ == (PoolView { closed: true, ..old(self)@ }),
    {
        self.pool.close();
    }

    /// Closes the pool and takes every entry, the ready ones first.
    pub fn take_all(&mut self) -> (entries: Vec<WarmFirecracker<S, I, D>>)
        requires
            old(self)@.wf(),
        ensures
            final(self)@.wf(),
            all_owned(entries@),
            owned(entries@) == old(self)@.ready + old(self)@.pending,
            final(self)@ == (PoolView {
                ready: Seq::<WarmResources<S, I, D>>::empty(),
                pending: Seq::<WarmResources<S, I, D>>::empty(),
                held: old(self)@.held + old(self)@.ready.len() + old(self)@.pending.len(),
                closed: true,
                ..old(self)@
            }),
    {
        let drained = self.pool.drain_all();
        self.held = Ghost((self.held@ + drained@.len()) as nat);
        let mut entries = into_entries(drained);
        let ghost first = entries@;
        let mut pending = self.take_pending_cleanup();
        let ghost second = pending@;
        entries.append(&mut pending);
        assert(owned(entries@) =~= owned(first) + owned(second));
        entries
    }
}

/// One operation on the pool, by whoever holds an entry or none.
pub enum PoolStep<S, I, D> {
    /// Reserve an entry for creation.
    Reserve,
    /// Publish an entry that owns this.
    Publish(WarmResources<S, I, D>),
    /// Acquire a ready entry.
    Acquire,
    /// Take a ready entry to be torn down.
    Drain,
    /// Take every entry whose cleanup is owed.
    TakePending,
    /// Close the pool.
    Close,
    /// Close the pool and take every entry.
    TakeAll,
    /// Give up an entry that owns this, or nothing: a failure or a cancellation.
    Abandon(Option<WarmResources<S, I, D>>),
    /// Let an entry go for good: handed to a sandbox, or cleaned up.
    Release,
}

impl<S, I, D> PoolView<S, I, D> {
    /// Whether a step can be taken: whoever publishes, gives up or lets go of an
    /// entry holds one, and only an intact entry is published.
    pub open spec fn allows(self, step: PoolStep<S, I, D>) -> bool {
        match step {
            PoolStep::Publish(resources) => self.held >= 1 && resources.slot is Some,
            PoolStep::Abandon(_) => self.held >= 1,
            PoolStep::Release => self.held >= 1,
            _ => true,
        }
    }

    /// The pool after a step.
    pub open spec fn after(self, step: PoolStep<S, I, D>) -> Self {
        match step {
            PoolStep::Reserve => if self.closed || self.outstanding >= self.limits.high_watermark {
                self
            } else {
                PoolView { outstanding: self.outstanding + 1, held: self.held + 1, ..self }
            },
            PoolStep::Publish(resources) => if self.ready.len() < self.limits.high_watermark {
                PoolView {
                    ready: self.ready.push(resources),
                    held: (self.held - 1) as nat,
                    ..self
                }
            } else {
                self
            },
            PoolStep::Acquire => if self.ready.len() == 0 {
                self
            } else {
                PoolView {
                    ready: self.ready.skip(1),
                    held: self.held + 1,
                    maintenance_requested: self.maintenance_requested || self.ready.len() - 1
                        < self.limits.low_watermark,
                    ..self
                }
            },
            PoolStep::Drain => if self.ready.len() == 0 {
                self
            } else {
                PoolView { ready: self.ready.skip(1), held: self.held + 1, ..self }
            },
            PoolStep::TakePending => PoolView {
                pending: Seq::empty(),
                held: self.held + self.pending.len(),
                ..self
            },
            PoolStep::Close => PoolView { closed: true, ..self },
            PoolStep::TakeAll => PoolView {
                ready: Seq::empty(),
                pending: Seq::empty(),
                held: self.held + self.ready.len() + self.pending.len(),
                closed: true,
                ..self
            },
            PoolStep::Abandon(entry) => self.abandoned(entry),
            PoolStep::Release => self.released(),
        }
    }

    /// Whether every step of a history can be taken in its turn.
    pub open spec fn allows_all(self, steps: Seq<PoolStep<S, I, D>>) -> bool
        decreases steps.len(),
    {
        steps.len() == 0 || (self.allows(steps[0]) && self.after(steps[0]).allows_all(steps.skip(1)))
    }

    /// The pool after a history.
    pub open spec fn after_all(self, steps: Seq<PoolStep<S, I, D>>) -> Self
        decreases steps.len(),
    {
        if steps.len() == 0 {
            self
        } else {
            self.after(steps[0]).after_all(steps.skip(1))
        }
    }
}

/// Whether a step lets an entry leave the pool: one that was let go for good, or
/// one that never owned anything.
pub open spec fn frees_capacity<S, I, D>(step: PoolStep<S, I, D>) -> bool {
    step is Release || (step matches PoolStep::Abandon(entry) && entry is None)
}

/// Over every history no entry is lost, only intact entries are ready, and
/// creation never takes the pool over its limit.
pub proof fn law_limit_holds<S, I, D>(pool: PoolView<S, I, D>, steps: Seq<PoolStep<S, I, D>>)
    requires
        pool.wf(),
        pool.outstanding <= pool.limits.high_watermark,
        pool.allows_all(steps),
    ensures
        pool.after_all(steps).wf(),
        pool.after_all(steps).limits == pool.limits,
        pool.after_all(steps).outstanding <= pool.limits.high_watermark,
    decreases steps.len(),
{
    if steps.len() > 0 {
        law_limit_holds(pool.after(steps[0]), steps.skip(1));
    }
}

/// Failures, cancellations and repeated cleanups keep occupying the pool: while
/// no entry leaves it, a pool at its limit refuses every reservation.
pub proof fn law_unresolved_cleanup_blocks_replacement<S, I, D>(
    pool: PoolView<S, I, D>,
    steps: Seq<PoolStep<S, I, D>>,
)
    requires
        pool.wf(),
        pool.outstanding >= pool.limits.high_watermark,
        pool.allows_all(steps),
        forall|i: int| 0 <= i < steps.len() ==> !frees_capacity(#[trigger] steps[i]),
    ensures
        pool.after_all(steps).outstanding == pool.outstanding,
        pool.after_all(steps).after(PoolStep::Reserve) == pool.after_all(steps),
    decreases steps.len(),
{
    if steps.len() > 0 {
        assert(!frees_capacity(steps[0]));
        assert forall|i: int| 0 <= i < steps.skip(1).len() implies !frees_capacity(
            #[trigger] steps.skip(1)[i],
        ) by {
            assert(!frees_capacity(steps[i + 1]));
        }
        law_unresolved_cleanup_blocks_replacement(pool.after(steps[0]), steps.skip(1));
    }
}

/// Once a pool is closed it stays closed, and nothing more is reserved.
pub proof fn law_closed_pool_stays_closed<S, I, D>(
    pool: PoolView<S, I, D>,
    steps: Seq<PoolStep<S, I, D>>,
)
    requires
        pool.closed,
    ensures
        pool.after_all(steps).closed,
        pool.after_all(steps).after(PoolStep::Reserve) == pool.after_all(steps),
    decreases steps.len(),
{
    if steps.len() > 0 {
        law_closed_pool_stays_closed(pool.after(steps[0]), steps.skip(1));
    }
}

} // verus!
