//! The runs of the warm pool: cleanup, shutdown, maintenance, refill, creation
//! and priming.
//!
//! A run asks for one outside action at a time and is told how it ended. A run
//! that is broken off gives up the entries that it holds, which queues them for
//! cleanup.

use vstd::prelude::*;

use crate::paths;
use crate::paths::path_of_entry;
use crate::pool;
use crate::pool::{
    FirecrackerPool, ReserveError, WarmFirecracker, WarmResources, POOL_PRIME_POLL_INTERVAL,
};
use crate::text;
use crate::text::{copy_texts, decimal_string, join};
use crate::warm_pool::{MaintenanceOutcome, PoolConfig, PoolMaintenanceAction};

verus! {

/// Where a warm Firecracker process writes its standard output.
pub fn warm_stdout_path(work_dir: &str) -> (path: String)
    ensures
        path@ == paths::entry_path(work_dir@, "firecracker-stdout.log"@),
{
    path_of_entry(work_dir, "firecracker-stdout.log")
}

/// Where a warm Firecracker process writes its standard error.
pub fn warm_stderr_path(work_dir: &str) -> (path: String)
    ensures
        path@ == paths::entry_path(work_dir@, "firecracker-stderr.log"@),
{
    path_of_entry(work_dir, "firecracker-stderr.log")
}

/// What a pass over entries reports: nothing, or every failure.
pub open spec fn cleanup_report(failures: Seq<Seq<char>>) -> Option<Seq<char>> {
    if failures.len() == 0 {
        None
    } else {
        Some("failed to clean up firecracker pool entries: "@ + text::joined(failures, " | "@))
    }
}

/// Whether a result is the report of a pass.
pub open spec fn is_report(result: Result<(), String>, report: Option<Seq<char>>) -> bool {
    match report {
        None => result is Ok,
        Some(message) => result matches Err(error) && error@ == message,
    }
}

/// The result of a pass over entries: success without failures, or all of them.
pub fn firecracker_pool_cleanup_result(failures: Vec<String>) -> (result: Result<(), String>)
    ensures
        is_report(result, cleanup_report(text::texts(failures@))),
{
    if failures.len() == 0 {
        Ok(())
    } else {
        let mut message = "failed to clean up firecracker pool entries: ".to_owned();
        message.append(join(&failures, " | ").as_str());
        Err(message)
    }
}

/// What the maintenance worker makes of a cycle.
pub fn maintenance_outcome(result: &Result<(), String>) -> (outcome: MaintenanceOutcome)
    ensures
        outcome == (if result is Ok {
            MaintenanceOutcome::Complete
        } else {
            MaintenanceOutcome::Retry
        }),
{
    match result {
        Ok(()) => MaintenanceOutcome::Complete,
        Err(_) => MaintenanceOutcome::Retry,
    }
}

/// The outside action that a cleanup waits for.
#[derive(Debug, Clone, Copy, PartialEq, Eq, Structural)]
pub enum CleanupAction {
    /// Stop the process.
    Stop,
    /// Clean up the network of the slot, which takes the slot on success.
    CleanNetwork,
    /// Remove the working directory.
    RemoveDirectory,
}

/// How an outside action of a cleanup ended.
#[derive(Debug)]
pub enum CleanupEvent {
    Succeeded,
    /// The directory to remove was not there, which is as good as removed.
    NotFound,
    Failed(String),
}

/// The cleanup of one held entry.
#[derive(Debug)]
pub struct Cleanup<S, I, D> {
    resources: WarmResources<S, I, D>,
    action: CleanupAction,
}

/// What comes of one step of a cleanup.
#[derive(Debug)]
pub enum CleanupStep<S, I, D> {
    /// The next outside action is due.
    Continue(Cleanup<S, I, D>),
    /// The entry has left the pool. What it owned can be dropped.
    Done(WarmResources<S, I, D>),
    /// The entry is queued for another cleanup.
    Failed(String),
}

/// The failure that an outside action makes of a cleanup, if it is one. Of an
/// action other than the stop only the action is reported.
pub open spec fn cleanup_fault(action: CleanupAction, event: CleanupEvent) -> Option<Seq<char>> {
    match event {
        CleanupEvent::Succeeded => None,
        CleanupEvent::NotFound => None,
        CleanupEvent::Failed(message) => match action {
            CleanupAction::Stop => Some(message@),
            CleanupAction::CleanNetwork => Some("firecracker pool: cleanup warm network slot"@),
            CleanupAction::RemoveDirectory => Some("firecracker pool: remove warm work dir"@),
        },
    }
}

/// The action after a successful one.
pub open spec fn next_cleanup_action(action: CleanupAction) -> Option<CleanupAction> {
    match action {
        CleanupAction::Stop => Some(CleanupAction::CleanNetwork),
        CleanupAction::CleanNetwork => Some(CleanupAction::RemoveDirectory),
        CleanupAction::RemoveDirectory => None,
    }
}

impl<S, I, D> Cleanup<S, I, D> {
    /// What the entry owns.
    pub closed spec fn contents(self) -> WarmResources<S, I, D> {
        self.resources
    }

    /// The outside action that is due.
    pub closed spec fn due(self) -> CleanupAction {
        self.action
    }

    /// Starts the cleanup of a held entry.
    pub fn new(warm: WarmFirecracker<S, I, D>) -> (cleanup: Self)
        requires
            warm.contents() is Some,
        ensures
            cleanup.contents() == warm.contents()->0,
            cleanup.due() == CleanupAction::Stop,
    {
        Cleanup { resources: warm.into_resources(), action: CleanupAction::Stop }
    }

    /// The outside action that is due.
    pub fn action(&self) -> (action: CleanupAction)
        ensures
            action == self.due(),
    {
        self.action
    }

    /// Access for the outside action that is due.
    pub fn resources_mut(&mut self) -> (resources: &mut WarmResources<S, I, D>)
        ensures
            *resources == old(self).contents(),
            final(self).contents() == *final(resources),
            final(self).due() == old(self).due(),
    {
        &mut self.resources
    }

    /// Takes note of how the outside action ended. Only when all three have
    /// succeeded does the entry leave the pool; any failure queues it again with
    /// whatever it still owns.
    pub fn advance(self, pool: &mut FirecrackerPool<S, I, D>, event: CleanupEvent) -> (step:
        CleanupStep<S, I, D>)
        requires
            old(pool)@.wf(),
            old(pool)@.held >= 1,
            event is NotFound ==> self.due() == CleanupAction::RemoveDirectory,
        ensures
            final(pool)@.wf(),
            match cleanup_fault(self.due(), event) {
                Some(message) => {
                    &&& step matches CleanupStep::Failed(error) && error@ == message
                    &&& final(pool)@ == old(pool)@.abandoned(Some(self.contents()))
                },
                None => match next_cleanup_action(self.due()) {
                    Some(action) => {
                        &&& step matches CleanupStep::Continue(rest) && rest.contents()
                            == self.contents() && rest.due() == action
                        &&& final(pool)@ == old(pool)@
                    },
                    None => {
                        &&& step == CleanupStep::Done(self.contents())
                        &&& final(pool)@ == old(pool)@.released()
                    },
                },
            },
    {
        let fault: Option<String> = match event {
            CleanupEvent::Succeeded => None,
            CleanupEvent::NotFound => None,
            CleanupEvent::Failed(message) => match self.action {
                CleanupAction::Stop => Some(message),
                CleanupAction::CleanNetwork => Some(
                    "firecracker pool: cleanup warm network slot".to_owned(),
                ),
                CleanupAction::RemoveDirectory => Some(
                    "firecracker pool: remove warm work dir".to_owned(),
                ),
            },
        };
        match fault {
            Some(message) => {
                pool.abandon(WarmFirecracker::from_pending(self.resources));
                CleanupStep::Failed(message)
            },
            None => match self.action {
                CleanupAction::Stop => CleanupStep::Continue(
                    Cleanup { resources: self.resources, action: CleanupAction::CleanNetwork },
                ),
                CleanupAction::CleanNetwork => CleanupStep::Continue(
                    Cleanup { resources: self.resources, action: CleanupAction::RemoveDirectory },
                ),
                CleanupAction::RemoveDirectory => CleanupStep::Done(
                    pool.release_ownership(WarmFirecracker::from_pending(self.resources)),
                ),
            },
        }
    }

    /// Breaks the cleanup off. The entry is queued for another one.
    pub fn cancel(self, pool: &mut FirecrackerPool<S, I, D>)
        requires
            old(pool)@.wf(),
            old(pool)@.held >= 1,
        ensures
            final(pool)@.wf(),
            final(pool)@ == old(pool)@.abandoned(Some(self.contents())),
    {
        pool.abandon(WarmFirecracker::from_pending(self.resources));
    }
}

/// A pass that cleans up entries one after the other and collects the failures.
#[derive(Debug)]
pub struct CleanupPass<S, I, D> {
    queue: Vec<WarmFirecracker<S, I, D>>,
    failures: Vec<String>,
}

impl<S, I, D> CleanupPass<S, I, D> {
    /// What the entries own that the pass has not visited.
    pub closed spec fn unvisited(self) -> Seq<WarmResources<S, I, D>> {
        pool::owned(self.queue@)
    }

    /// The failures so far.
    pub closed spec fn failures(self) -> Seq<Seq<char>> {
        text::texts(self.failures@)
    }

    /// Whether every entry owns something.
    pub closed spec fn wf(self) -> bool {
        pool::all_owned(self.queue@)
    }

    /// The pass of a shutdown: closes the pool and takes every entry, the ready
    /// ones first.
    pub fn shutdown(pool: &mut FirecrackerPool<S, I, D>) -> (pass: Self)
        requires
            old(pool)@.wf(),
        ensures
            final(pool)@.wf(),
            pass.wf(),
            pass.unvisited() == old(pool)@.ready + old(pool)@.pending,
            pass.failures() == Seq::<Seq<char>>::empty(),
            final(pool)@ == (pool::PoolView {
                ready: Seq::<WarmResources<S, I, D>>::empty(),
                pending: Seq::<WarmResources<S, I, D>>::empty(),
                held: old(pool)@.held + old(pool)@.ready.len() + old(pool)@.pending.len(),
                closed: true,
                ..old(pool)@
            }),
    {
        let queue = pool.take_all();
        let failures: Vec<String> = Vec::new();
        assert(text::texts(failures@) =~= Seq::<Seq<char>>::empty());
        CleanupPass { queue, failures }
    }

    /// The pass over the entries whose cleanup is owed.
    pub fn pending(pool: &mut FirecrackerPool<S, I, D>) -> (pass: Self)
        requires
            old(pool)@.wf(),
        ensures
            final(pool)@.wf(),
            pass.wf(),
            pass.unvisited() == old(pool)@.pending,
            pass.failures() == Seq::<Seq<char>>::empty(),
            final(pool)@ == (pool::PoolView {
                pending: Seq::<WarmResources<S, I, D>>::empty(),
                held: old(pool)@.held + old(pool)@.pending.len(),
                ..old(pool)@
            }),
    {
        let queue = pool.take_pending_cleanup();
        let failures: Vec<String> = Vec::new();
        assert(text::texts(failures@) =~= Seq::<Seq<char>>::empty());
        CleanupPass { queue, failures }
    }

    /// The cleanup of the next entry, if one is left.
    pub fn next(&mut self) -> (cleanup: Option<Cleanup<S, I, D>>)
        requires
            old(self).wf(),
        ensures
            final(self).wf(),
            final(self).failures() == old(self).failures(),
            if old(self).unvisited().len() == 0 {
                cleanup is None && final(self).unvisited() == old(self).unvisited()
            } else {
                &&& cleanup matches Some(first) && first.contents() == old(self).unvisited()[0]
                    && first.due() == CleanupAction::Stop
                &&& final(self).unvisited() == old(self).unvisited().skip(1)
            },
    {
        if self.queue.len() == 0 {
            None
        } else {
            let first = self.queue.remove(0);
            assert(pool::owned(self.queue@) =~= pool::owned(old(self).queue@).skip(1));
            Some(Cleanup::new(first))
        }
    }

    /// Takes note of a failed cleanup. The pass goes on.
    pub fn record_failure(&mut self, message: String)
        ensures
            final(self).wf() == old(self).wf(),
            final(self).unvisited() == old(self).unvisited(),
            final(self).failures() == old(self).failures().push(message@),
    {
        self.failures.push(message);
        assert(text::texts(self.failures@) =~= text::texts(old(self).failures@).push(message@));
    }

    /// The result of the pass: success, or every failure.
    pub fn result(&self) -> (result: Result<(), String>)
        ensures
            is_report(result, cleanup_report(self.failures())),
    {
        firecracker_pool_cleanup_result(copy_texts(&self.failures))
    }

    /// Ends the pass of a shutdown. It is confirmed only if nothing failed and no
    /// entry is left anywhere, not even in another pass.
    pub fn shutdown_result(self, pool: &FirecrackerPool<S, I, D>) -> (result: Result<(), String>)
        ensures
            is_report(result, cleanup_report(shutdown_failures(self.failures(), pool@.outstanding))),
    {
        let mut failures = self.failures;
        let outstanding = pool.outstanding();
        if outstanding != 0 {
            let mut message = "warm Firecracker cleanup still owns ".to_owned();
            message.append(decimal_string(outstanding).as_str());
            message.append(" entries");
            failures.push(message);
            assert(text::texts(failures@) =~= text::texts(self.failures@).push(message@));
        }
        firecracker_pool_cleanup_result(failures)
    }

    /// Breaks the pass off. Every entry that it has not visited is queued for
    /// another cleanup.
    pub fn cancel(self, pool: &mut FirecrackerPool<S, I, D>)
        requires
            self.wf(),
            old(pool)@.wf(),
            old(pool)@.held >= self.unvisited().len(),
        ensures
            final(pool)@.wf(),
            final(pool)@ == (pool::PoolView {
                pending: old(pool)@.pending + self.unvisited(),
                held: (old(pool)@.held - self.unvisited().len()) as nat,
                ..old(pool)@
            }),
    {
        pool.abandon_all(self.queue);
    }
}

/// The failures of a shutdown, with one for the entries that are left.
pub open spec fn shutdown_failures(failures: Seq<Seq<char>>, outstanding: nat) -> Seq<Seq<char>> {
    if outstanding == 0 {
        failures
    } else {
        failures.push(
            "warm Firecracker cleanup still owns "@ + text::decimal(outstanding) + " entries"@,
        )
    }
}

/// A shutdown is confirmed exactly when nothing failed and every entry is gone.
pub proof fn law_shutdown_confirms_absence(failures: Seq<Seq<char>>, outstanding: nat)
    ensures
        cleanup_report(shutdown_failures(failures, outstanding)) is None <==> failures.len() == 0
            && outstanding == 0,
{
}

/// What a maintenance cycle waits for.
#[derive(Debug)]
pub enum CycleCommand<S, I, D> {
    /// Carry out a cleanup, and report a failure.
    Clean(Cleanup<S, I, D>),
    /// Compute what is to be done about this number of ready entries.
    Decide(usize),
    /// Refill this many entries, and report a failure.
    Fill(usize),
    /// The cycle is over, with this result.
    Finish(Result<(), String>),
}

/// How far a maintenance cycle has come.
#[derive(Debug, Clone, Copy, PartialEq, Eq, Structural)]
pub enum CycleStage {
    /// Cleaning up the entries whose cleanup was owed.
    Pending,
    /// Waiting for the decision about the number of ready entries.
    Deciding,
    /// About to refill.
    Filling(usize),
    /// Draining up to this many ready entries.
    Draining(usize),
    /// Nothing is left to do.
    Finished,
}

/// One maintenance cycle: cleanup that is owed, then a refill or a drain. No
/// failure keeps the rest from being done.
#[derive(Debug)]
pub struct MaintenanceCycle<S, I, D> {
    pass: CleanupPass<S, I, D>,
    stage: CycleStage,
}

impl<S, I, D> MaintenanceCycle<S, I, D> {
    /// What the entries own that are left of the cleanup that was owed.
    pub closed spec fn unvisited(self) -> Seq<WarmResources<S, I, D>> {
        self.pass.unvisited()
    }

    /// The failures so far.
    pub closed spec fn failures(self) -> Seq<Seq<char>> {
        self.pass.failures()
    }

    /// How far the cycle has come.
    pub closed spec fn stage(self) -> CycleStage {
        self.stage
    }

    /// Whether every entry owns something, and none is left once the cleanup that
    /// was owed is over.
    pub closed spec fn wf(self) -> bool {
        self.pass.wf() && (self.stage != CycleStage::Pending ==> self.pass.unvisited().len() == 0)
    }

    /// Starts a cycle, which takes every entry whose cleanup is owed.
    pub fn run_maintenance_cycle(pool: &mut FirecrackerPool<S, I, D>) -> (cycle: Self)
        requires
            old(pool)@.wf(),
        ensures
            final(pool)@.wf(),
            cycle.wf(),
            cycle.stage() == CycleStage::Pending,
            cycle.unvisited() == old(pool)@.pending,
            cycle.failures() == Seq::<Seq<char>>::empty(),
            final(pool)@ == (pool::PoolView {
                pending: Seq::<WarmResources<S, I, D>>::empty(),
                held: old(pool)@.held + old(pool)@.pending.len(),
                ..old(pool)@
            }),
    {
        MaintenanceCycle { pass: CleanupPass::pending(pool), stage: CycleStage::Pending }
    }

    /// What is to be done next.
    pub fn next(&mut self, pool: &mut FirecrackerPool<S, I, D>) -> (command: CycleCommand<S, I, D>)
        requires
            old(self).wf(),
            old(pool)@.wf(),
        ensures
            final(self).wf(),
            final(pool)@.wf(),
            final(self).failures() == old(self).failures(),
            !(old(self).stage() is Pending) ==> old(self).unvisited().len() == 0,
            match old(self).stage() {
                CycleStage::Pending => {
                    &&& final(pool)@ == old(pool)@
                    &&& if old(self).unvisited().len() > 0 {
                        &&& command matches CycleCommand::Clean(cleanup) && cleanup.contents()
                            == old(self).unvisited()[0] && cleanup.due() == CleanupAction::Stop
                        &&& final(self).unvisited() == old(self).unvisited().skip(1)
                        &&& final(self).stage() == CycleStage::Pending
                    } else {
                        &&& command == CycleCommand::<S, I, D>::Decide(
                            old(pool)@.ready.len() as usize,
                        )
                        &&& final(self).unvisited() == old(self).unvisited()
                        &&& final(self).stage() == CycleStage::Deciding
                    }
                },
                CycleStage::Deciding => {
                    &&& final(pool)@ == old(pool)@
                    &&& command == CycleCommand::<S, I, D>::Decide(old(pool)@.ready.len() as usize)
                    &&& final(self).unvisited() == old(self).unvisited()
                    &&& final(self).stage() == CycleStage::Deciding
                },
                CycleStage::Filling(count) => {
                    &&& final(pool)@ == old(pool)@
                    &&& command == CycleCommand::<S, I, D>::Fill(count)
                    &&& final(self).unvisited() == old(self).unvisited()
                    &&& final(self).stage() == CycleStage::Finished
                },
                CycleStage::Draining(count) => {
                    &&& final(self).unvisited() == old(self).unvisited()
                    &&& if count > 0 && old(pool)@.ready.len() > 0 {
                        &&& command matches CycleCommand::Clean(cleanup) && cleanup.contents()
                            == old(pool)@.ready[0] && cleanup.due() == CleanupAction::Stop
                        &&& final(pool)@ == (pool::PoolView {
                            ready: old(pool)@.ready.skip(1),
                            held: old(pool)@.held + 1,
                            ..old(pool)@
                        })
                        &&& final(self).stage() == CycleStage::Draining((count - 1) as usize)
                    } else {
                        &&& command matches CycleCommand::Finish(result) && is_report(
                            result,
                            cleanup_report(old(self).failures()),
                        )
                        &&& final(pool)@ == old(pool)@
                        &&& final(self).stage() == CycleStage::Finished
                    }
                },
                CycleStage::Finished => {
                    &&& command matches CycleCommand::Finish(result) && is_report(
                        result,
                        cleanup_report(old(self).failures()),
                    )
                    &&& final(pool)@ == old(pool)@
                    &&& final(self).unvisited() == old(self).unvisited()
                    &&& final(self).stage() == CycleStage::Finished
                },
            },
    {
        match self.stage {
            CycleStage::Pending => match self.pass.next() {
                Some(cleanup) => CycleCommand::Clean(cleanup),
                None => {
                    self.stage = CycleStage::Deciding;
                    CycleCommand::Decide(pool.warm_len())
                },
            },
            CycleStage::Deciding => CycleCommand::Decide(pool.warm_len()),
            CycleStage::Filling(count) => {
                self.stage = CycleStage::Finished;
                CycleCommand::Fill(count)
            },
            CycleStage::Draining(count) => {
                if count > 0 {
                    if let Some(warm) = pool.try_drain_one() {
                        self.stage = CycleStage::Draining(count - 1);
                        return CycleCommand::Clean(Cleanup::new(warm));
                    }
                }
                self.stage = CycleStage::Finished;
                CycleCommand::Finish(self.pass.result())
            },
            CycleStage::Finished => CycleCommand::Finish(self.pass.result()),
        }
    }

    /// Takes note of what is to be done about the number of ready entries.
    pub fn decided(&mut self, action: PoolMaintenanceAction)
        requires
            old(self).wf(),
            old(self).stage() == CycleStage::Deciding,
        ensures
            final(self).wf(),
            final(self).unvisited() == old(self).unvisited(),
            final(self).failures() == old(self).failures(),
            final(self).stage() == (match action {
                PoolMaintenanceAction::Fill(count) => CycleStage::Filling(count),
                PoolMaintenanceAction::Drain(count) => CycleStage::Draining(count),
                PoolMaintenanceAction::Idle => CycleStage::Finished,
            }),
    {
        self.stage = match action {
            PoolMaintenanceAction::Fill(count) => CycleStage::Filling(count),
            PoolMaintenanceAction::Drain(count) => CycleStage::Draining(count),
            PoolMaintenanceAction::Idle => CycleStage::Finished,
        };
    }

    /// Takes note of a failed cleanup or refill. The cycle goes on.
    pub fn record_failure(&mut self, message: String)
        ensures
            final(self).wf() == old(self).wf(),
            final(self).stage() == old(self).stage(),
            final(self).unvisited() == old(self).unvisited(),
            final(self).failures() == old(self).failures().push(message@),
    {
        self.pass.record_failure(message);
    }

    /// Breaks the cycle off. Every entry that it has not visited is queued for
    /// another cleanup.
    pub fn cancel(self, pool: &mut FirecrackerPool<S, I, D>)
        requires
            self.wf(),
            old(pool)@.wf(),
            old(pool)@.held >= self.unvisited().len(),
        ensures
            final(pool)@.wf(),
            final(pool)@ == (pool::PoolView {
                pending: old(pool)@.pending + self.unvisited(),
                held: (old(pool)@.held - self.unvisited().len()) as nat,
                ..old(pool)@
            }),
    {
        self.pass.cancel(pool);
    }
}

/// What a refill waits for.
#[derive(Debug)]
pub enum FillCommand {
    /// Create this many entries at once and publish them.
    CreateBatch(usize),
    /// The refill is over, with this result.
    Finish(Result<(), String>),
}

/// A refill. It stops launching batches after one with a failed creation.
#[derive(Debug)]
pub struct FillRun {
    remaining: usize,
    failures: Vec<String>,
}

/// The message of a refill with a failed creation.
pub open spec fn refill_failure(failures: Seq<Seq<char>>) -> Seq<char> {
    "firecracker pool refill failed: "@ + text::joined(failures, " | "@)
}

impl FillRun {
    /// How many attempts are left.
    pub closed spec fn remaining(self) -> nat {
        self.remaining as nat
    }

    /// The failures so far.
    pub closed spec fn failures(self) -> Seq<Seq<char>> {
        text::texts(self.failures@)
    }

    /// Starts a refill.
    pub fn fill_warm_entries(to_fill: usize) -> (run: FillRun)
        ensures
            run.remaining() == to_fill,
            run.failures() == Seq::<Seq<char>>::empty(),
    {
        let failures: Vec<String> = Vec::new();
        assert(text::texts(failures@) =~= Seq::<Seq<char>>::empty());
        FillRun { remaining: to_fill, failures }
    }

    /// What is to be done next: another batch of at most the pool's concurrency
    /// while attempts are left and the pool is open.
    pub fn next<S, I, D>(&self, pool: &FirecrackerPool<S, I, D>) -> (command: FillCommand)
        ensures
            if self.remaining() > 0 && !pool@.closed {
                command == FillCommand::CreateBatch(
                    (if self.remaining() <= pool@.fill_concurrency {
                        self.remaining()
                    } else {
                        pool@.fill_concurrency
                    }) as usize,
                )
            } else {
                command matches FillCommand::Finish(result) && is_report(
                    result,
                    cleanup_report(self.failures()),
                )
            },
    {
        if self.remaining > 0 && !pool.is_shutting_down() {
            let limit = pool.fill_concurrency();
            FillCommand::CreateBatch(
                if self.remaining <= limit {
                    self.remaining
                } else {
                    limit
                },
            )
        } else {
            FillCommand::Finish(firecracker_pool_cleanup_result(copy_texts(&self.failures)))
        }
    }

    /// Takes note of what became of a batch. A failed creation ends the refill.
    pub fn batch_published(self, batch_size: usize, saw_failure: bool, failures: Vec<String>) -> (result:
        Result<FillRun, String>)
        requires
            batch_size <= self.remaining(),
        ensures
            ({
                let all = self.failures() + text::texts(failures@);
                if saw_failure {
                    result matches Err(message) && message@ == refill_failure(all)
                } else {
                    result matches Ok(run) && run.remaining() == self.remaining() - batch_size
                        && run.failures() == all
                }
            }),
    {
        let mut all = self.failures;
        let mut more = failures;
        all.append(&mut more);
        assert(text::texts(all@) =~= text::texts(self.failures@) + text::texts(failures@));
        if saw_failure {
            let mut message = "firecracker pool refill failed: ".to_owned();
            message.append(join(&all, " | ").as_str());
            Err(message)
        } else {
            Ok(FillRun { remaining: self.remaining - batch_size, failures: all })
        }
    }
}

/// The publication of a batch of created entries.
#[derive(Debug)]
pub struct PublishRun<S, I, D> {
    queue: Vec<Result<WarmFirecracker<S, I, D>, String>>,
    saw_failure: bool,
    failures: Vec<String>,
}

/// What comes of one step of a publication.
#[derive(Debug)]
pub enum PublishStep<S, I, D> {
    /// An entry was published, or a failed creation was noted.
    Continue,
    /// The pool is full. Carry out this cleanup and report a failure.
    Clean(Cleanup<S, I, D>),
    /// Every result has been dealt with: whether a creation failed, and all
    /// failures.
    Finish(bool, Vec<String>),
}

/// Whether every created entry is intact.
pub open spec fn all_intact<S, I, D>(
    results: Seq<Result<WarmFirecracker<S, I, D>, String>>,
) -> bool {
    forall|i: int|
        0 <= i < results.len() ==> (#[trigger] results[i] matches Ok(warm) ==> warm.contents()
            is Some && (warm.contents()->0).slot is Some)
}

/// How many of the results are entries.
pub open spec fn entry_count<S, I, D>(
    results: Seq<Result<WarmFirecracker<S, I, D>, String>>,
) -> nat
    decreases results.len(),
{
    if results.len() == 0 {
        0
    } else {
        entry_count(results.skip(1)) + (if results[0] is Ok {
            1nat
        } else {
            0nat
        })
    }
}

impl<S, I, D> PublishRun<S, I, D> {
    /// The results that have not been dealt with.
    pub closed spec fn unvisited(self) -> Seq<Result<WarmFirecracker<S, I, D>, String>> {
        self.queue@
    }

    /// Whether a creation failed.
    pub closed spec fn saw_failure(self) -> bool {
        self.saw_failure
    }

    /// The failures so far.
    pub closed spec fn failures(self) -> Seq<Seq<char>> {
        text::texts(self.failures@)
    }

    /// Starts the publication of a batch.
    pub fn publish_warm_batch(results: Vec<Result<WarmFirecracker<S, I, D>, String>>) -> (run: Self)
        ensures
            run.unvisited() == results@,
            !run.saw_failure(),
            run.failures() == Seq::<Seq<char>>::empty(),
    {
        let failures: Vec<String> = Vec::new();
        assert(text::texts(failures@) =~= Seq::<Seq<char>>::empty());
        PublishRun { queue: results, saw_failure: false, failures }
    }

    /// Deals with one result. An entry is published, or cleaned up when the pool
    /// is full; a failed creation is noted.
    pub fn next(&mut self, pool: &mut FirecrackerPool<S, I, D>) -> (step: PublishStep<S, I, D>)
        requires
            old(pool)@.wf(),
            all_intact(old(self).unvisited()),
            old(pool)@.held >= entry_count(old(self).unvisited()),
        ensures
            final(pool)@.wf(),
            all_intact(final(self).unvisited()),
            final(pool)@.held >= entry_count(final(self).unvisited()),
            if old(self).unvisited().len() == 0 {
                &&& step matches PublishStep::Finish(saw_failure, failures) && saw_failure == old(
                    self,
                ).saw_failure() && text::texts(failures@) == old(self).failures()
                &&& final(pool)@ == old(pool)@
                &&& final(self).unvisited() == old(self).unvisited()
            } else {
                &&& final(self).unvisited() == old(self).unvisited().skip(1)
                &&& match old(self).unvisited()[0] {
                    Err(message) => {
                        &&& step is Continue
                        &&& final(self).saw_failure()
                        &&& final(self).failures() == old(self).failures().push(message@)
                        &&& final(pool)@ == old(pool)@
                    },
                    Ok(warm) => {
                        &&& final(self).saw_failure() == old(self).saw_failure()
                        &&& final(self).failures() == old(self).failures()
                        &&& if old(pool)@.ready.len() < old(pool)@.limits.high_watermark {
                            &&& step is Continue
                            &&& final(pool)@ == (pool::PoolView {
                                ready: old(pool)@.ready.push(warm.contents()->0),
                                held: (old(pool)@.held - 1) as nat,
                                ..old(pool)@
                            })
                        } else {
                            &&& step matches PublishStep::Clean(cleanup) && cleanup.contents()
                                == warm.contents()->0 && cleanup.due() == CleanupAction::Stop
                            &&& final(pool)@ == old(pool)@
                        }
                    },
                }
            },
    {
        if self.queue.len() == 0 {
            return PublishStep::Finish(self.saw_failure, copy_texts(&self.failures));
        }
        let first = self.queue.remove(0);
        proof {
            assert(self.queue@ =~= old(self).queue@.skip(1));
            assert forall|i: int| 0 <= i < self.queue@.len() implies (
            #[trigger] self.queue@[i] matches Ok(warm) ==> warm.contents() is Some && (
            warm.contents()->0).slot is Some) by {
                assert(self.queue@[i] == old(self).queue@[i + 1]);
            }
            assert(first == old(self).queue@[0]);
        }
        match first {
            Err(message) => {
                self.saw_failure = true;
                self.failures.push(message);
                assert(text::texts(self.failures@) =~= text::texts(old(self).failures@).push(
                    message@,
                ));
                PublishStep::Continue
            },
            Ok(warm) => match pool.try_publish(warm) {
                Ok(()) => PublishStep::Continue,
                Err(back) => PublishStep::Clean(Cleanup::new(back)),
            },
        }
    }

    /// Takes note of a failed cleanup. The publication goes on.
    pub fn record_failure(&mut self, message: String)
        ensures
            final(self).unvisited() == old(self).unvisited(),
            final(self).saw_failure() == old(self).saw_failure(),
            final(self).failures() == old(self).failures().push(message@),
    {
        self.failures.push(message);
        assert(text::texts(self.failures@) =~= text::texts(old(self).failures@).push(message@));
    }

    /// Breaks the publication off. Every entry that it has not visited is queued
    /// for cleanup.
    pub fn cancel(self, pool: &mut FirecrackerPool<S, I, D>)
        requires
            old(pool)@.wf(),
            all_intact(self.unvisited()),
            old(pool)@.held >= entry_count(self.unvisited()),
        ensures
            final(pool)@.wf(),
            final(pool)@ == (pool::PoolView {
                pending: old(pool)@.pending + entries_of(self.unvisited()),
                held: (old(pool)@.held - entry_count(self.unvisited())) as nat,
                ..old(pool)@
            }),
    {
        let mut queue = self.queue;
        let ghost mut done: Seq<WarmResources<S, I, D>> = Seq::empty();
        assert(old(pool)@.pending + done =~= old(pool)@.pending);
        assert(done + entries_of(queue@) =~= entries_of(self.queue@));
        while queue.len() > 0
            invariant
                pool@.wf(),
                all_intact(queue@),
                pool@.held >= entry_count(queue@),
                done + entries_of(queue@) == entries_of(self.queue@),
                pool@ == (pool::PoolView {
                    pending: old(pool)@.pending + done,
                    held: pool@.held,
                    ..old(pool)@
                }),
                pool@.held - entry_count(queue@) == old(pool)@.held - entry_count(self.queue@),
            decreases queue.len(),
        {
            let ghost before = queue@;
            let ghost held = pool@;
            let first = queue.remove(0);
            proof {
                assert(queue@ =~= before.skip(1));
                assert(first == before[0]);
                assert forall|i: int| 0 <= i < queue@.len() implies (
                #[trigger] queue@[i] matches Ok(warm) ==> warm.contents() is Some && (
                warm.contents()->0).slot is Some) by {
                    assert(queue@[i] == before[i + 1]);
                }
            }
            if let Ok(warm) = first {
                pool.abandon(warm);
                proof {
                    let one = warm.contents()->0;
                    assert(entries_of(before) == seq![one] + entries_of(queue@));
                    assert(done.push(one) + entries_of(queue@) =~= done + entries_of(before));
                    assert(old(pool)@.pending + done.push(one) =~= (old(pool)@.pending
                        + done).push(one));
                    done = done.push(one);
                }
            } else {
                assert(entries_of(before) == entries_of(queue@));
            }
        }
        assert(done + entries_of(queue@) =~= done);
    }
}

/// What the entries among some results own, in order.
pub open spec fn entries_of<S, I, D>(
    results: Seq<Result<WarmFirecracker<S, I, D>, String>>,
) -> Seq<WarmResources<S, I, D>>
    decreases results.len(),
{
    if results.len() == 0 {
        Seq::empty()
    } else {
        match results[0] {
            Ok(warm) => seq![warm.contents()->0] + entries_of(results.skip(1)),
            Err(_) => entries_of(results.skip(1)),
        }
    }
}

/// The outside action that a creation waits for.
#[derive(Debug, Clone, Copy, PartialEq, Eq, Structural)]
pub enum CreateAction {
    /// Create the working directory.
    MakeDirectory,
    /// Allocate the network slot, and set up the process in the directory.
    AllocateSlot,
    /// Spawn the process in the slot's namespace.
    Spawn,
    /// Wait for the API socket.
    WaitReady,
}

/// The creation of a warm entry. Capacity is reserved before anything is
/// allocated, and what is allocated is owned by the entry before the process is
/// started.
#[derive(Debug)]
pub enum CreateRun<S, I, D> {
    MakeDirectory(WarmFirecracker<S, I, D>),
    AllocateSlot(WarmFirecracker<S, I, D>, D),
    Spawn(WarmResources<S, I, D>),
    WaitReady(WarmResources<S, I, D>),
}

/// How an outside action of a creation ended.
#[derive(Debug)]
pub enum CreateEvent<S, I, D> {
    DirectoryMade(D),
    SlotAllocated(S, I),
    Spawned,
    Ready,
    Failed,
}

/// What comes of one step of a creation.
#[derive(Debug)]
pub enum CreateStep<S, I, D> {
    /// The next outside action is due.
    Continue(CreateRun<S, I, D>),
    /// The entry is ready to be published.
    Done(WarmFirecracker<S, I, D>),
    /// The creation failed; the entry has been given up.
    Failed(String),
}

/// The message of a failed action of a creation.
pub open spec fn create_failure(action: CreateAction) -> Seq<char> {
    match action {
        CreateAction::MakeDirectory => "firecracker pool: create work dir"@,
        CreateAction::AllocateSlot => "firecracker pool: allocate network slot"@,
        CreateAction::Spawn => "spawn warm firecracker process"@,
        CreateAction::WaitReady => "wait for warm firecracker api socket"@,
    }
}

impl<S, I, D> CreateRun<S, I, D> {
    /// The outside action that is due.
    pub open spec fn due(self) -> CreateAction {
        match self {
            CreateRun::MakeDirectory(_) => CreateAction::MakeDirectory,
            CreateRun::AllocateSlot(_, _) => CreateAction::AllocateSlot,
            CreateRun::Spawn(_) => CreateAction::Spawn,
            CreateRun::WaitReady(_) => CreateAction::WaitReady,
        }
    }

    /// What the entry of the creation owns by now.
    pub open spec fn contents(self) -> Option<WarmResources<S, I, D>> {
        match self {
            CreateRun::MakeDirectory(warm) => warm.contents(),
            CreateRun::AllocateSlot(warm, _) => warm.contents(),
            CreateRun::Spawn(resources) => Some(resources),
            CreateRun::WaitReady(resources) => Some(resources),
        }
    }

    /// An entry owns nothing before its slot is allocated, and keeps its slot
    /// from then on.
    pub open spec fn wf(self) -> bool {
        match self {
            CreateRun::MakeDirectory(warm) => warm.contents() is None,
            CreateRun::AllocateSlot(warm, _) => warm.contents() is None,
            CreateRun::Spawn(resources) => resources.slot is Some,
            CreateRun::WaitReady(resources) => resources.slot is Some,
        }
    }

    /// Starts a creation by reserving capacity for it.
    pub fn create_warm(pool: &mut FirecrackerPool<S, I, D>) -> (result: Result<Self, ReserveError>)
        requires
            old(pool)@.wf(),
        ensures
            final(pool)@.wf(),
            match result {
                Ok(run) => {
                    &&& !old(pool)@.closed
                    &&& old(pool)@.outstanding < old(pool)@.limits.high_watermark
                    &&& run.wf()
                    &&& run.due() == CreateAction::MakeDirectory
                    &&& final(pool)@ == (pool::PoolView {
                        outstanding: old(pool)@.outstanding + 1,
                        held: old(pool)@.held + 1,
                        ..old(pool)@
                    })
                },
                Err(error) => {
                    &&& error == (if old(pool)@.closed {
                        ReserveError::ShuttingDown
                    } else {
                        ReserveError::CapacityOccupied {
                            outstanding: old(pool)@.outstanding as usize,
                            limit: old(pool)@.limits.high_watermark,
                        }
                    })
                    &&& old(pool)@.closed || old(pool)@.outstanding
                        >= old(pool)@.limits.high_watermark
                    &&& final(pool)@ == old(pool)@
                },
            },
    {
        match pool.reserve_warm_capacity() {
            Ok(warm) => Ok(CreateRun::MakeDirectory(warm)),
            Err(error) => Err(error),
        }
    }

    /// Whether an event can answer an action.
    pub open spec fn answers(action: CreateAction, event: CreateEvent<S, I, D>) -> bool {
        match event {
            CreateEvent::DirectoryMade(_) => action == CreateAction::MakeDirectory,
            CreateEvent::SlotAllocated(_, _) => action == CreateAction::AllocateSlot,
            CreateEvent::Spawned => action == CreateAction::Spawn,
            CreateEvent::Ready => action == CreateAction::WaitReady,
            CreateEvent::Failed => true,
        }
    }

    /// Takes note of how the outside action ended. A failure before the slot is
    /// allocated frees the capacity; a later one queues what is owned for
    /// cleanup.
    pub fn advance(self, pool: &mut FirecrackerPool<S, I, D>, event: CreateEvent<S, I, D>) -> (step:
        CreateStep<S, I, D>)
        requires
            self.wf(),
            old(pool)@.wf(),
            old(pool)@.held >= 1,
            Self::answers(self.due(), event),
        ensures
            final(pool)@.wf(),
            match event {
                CreateEvent::Failed => {
                    &&& step matches CreateStep::Failed(message) && message@ == create_failure(
                        self.due(),
                    )
                    &&& final(pool)@ == old(pool)@.abandoned(self.contents())
                },
                CreateEvent::DirectoryMade(work_dir) => {
                    &&& step matches CreateStep::Continue(CreateRun::AllocateSlot(warm, dir)) && dir
                        == work_dir && warm.contents() is None
                    &&& final(pool)@ == old(pool)@
                },
                CreateEvent::SlotAllocated(slot, instance) => {
                    &&& step matches CreateStep::Continue(CreateRun::Spawn(resources)) && resources
                        == (WarmResources {
                        slot: Some(slot),
                        fc_instance: instance,
                        work_dir: self->AllocateSlot_1,
                    })
                    &&& final(pool)@ == old(pool)@
                },
                CreateEvent::Spawned => {
                    &&& step == CreateStep::Continue(CreateRun::WaitReady(self->Spawn_0))
                    &&& final(pool)@ == old(pool)@
                },
                CreateEvent::Ready => {
                    &&& step matches CreateStep::Done(warm) && warm.contents() == self.contents()
                    &&& final(pool)@ == old(pool)@
                },
            },
    {
        match (self, event) {
            (CreateRun::MakeDirectory(warm), CreateEvent::DirectoryMade(work_dir)) => {
                CreateStep::Continue(CreateRun::AllocateSlot(warm, work_dir))
            },
            (CreateRun::MakeDirectory(warm), _) => {
                pool.abandon(warm);
                CreateStep::Failed("firecracker pool: create work dir".to_owned())
            },
            (CreateRun::AllocateSlot(_, work_dir), CreateEvent::SlotAllocated(slot, instance)) => {
                CreateStep::Continue(
                    CreateRun::Spawn(
                        WarmResources { slot: Some(slot), fc_instance: instance, work_dir },
                    ),
                )
            },
            (CreateRun::AllocateSlot(warm, _), _) => {
                pool.abandon(warm);
                CreateStep::Failed("firecracker pool: allocate network slot".to_owned())
            },
            (CreateRun::Spawn(resources), CreateEvent::Spawned) => {
                CreateStep::Continue(CreateRun::WaitReady(resources))
            },
            (CreateRun::Spawn(resources), _) => {
                pool.abandon(WarmFirecracker::from_pending(resources));
                CreateStep::Failed("spawn warm firecracker process".to_owned())
            },
            (CreateRun::WaitReady(resources), CreateEvent::Ready) => {
                CreateStep::Done(WarmFirecracker::from_pending(resources))
            },
            (CreateRun::WaitReady(resources), _) => {
                pool.abandon(WarmFirecracker::from_pending(resources));
                CreateStep::Failed("wait for warm firecracker api socket".to_owned())
            },
        }
    }

    /// Breaks the creation off, as a failure of the action that is due would.
    pub fn cancel(self, pool: &mut FirecrackerPool<S, I, D>)
        requires
            self.wf(),
            old(pool)@.wf(),
            old(pool)@.held >= 1,
        ensures
            final(pool)@.wf(),
            final(pool)@ == old(pool)@.abandoned(self.contents()),
    {
        let _ = self.advance(pool, CreateEvent::Failed);
    }
}

/// What priming does next.
#[derive(Debug, Clone, Copy, PartialEq, Eq, Structural)]
pub enum PrimeStep {
    /// Priming does not apply: the pool is not kept up in the background.
    MaintenanceDisabled,
    /// Priming does not apply: it is switched off.
    PrewarmDisabled,
    /// Enough entries are ready.
    Primed,
    /// Time is up. The cold path remains available, so this is no error.
    TimedOut,
    /// Look again after this many milliseconds.
    Wait(u64),
}

/// What priming does on entry, when some entries are ready.
pub fn prime_start(config: PoolConfig, warm: usize) -> (step: PrimeStep)
    ensures
        step == (if !config.maintenance_enabled {
            PrimeStep::MaintenanceDisabled
        } else if !config.startup_prewarm {
            PrimeStep::PrewarmDisabled
        } else if config.low_watermark == 0 || warm >= config.low_watermark {
            PrimeStep::Primed
        } else {
            PrimeStep::Wait(0)
        }),
{
    if !config.maintenance_enabled {
        PrimeStep::MaintenanceDisabled
    } else if !config.startup_prewarm {
        PrimeStep::PrewarmDisabled
    } else if config.low_watermark == 0 || warm >= config.low_watermark {
        PrimeStep::Primed
    } else {
        PrimeStep::Wait(0)
    }
}

/// What priming does after some time, in nanoseconds, when some entries are
/// ready. Enough entries count even if time is up.
pub fn prime_poll(config: PoolConfig, warm: usize, elapsed: u64, timeout: u64) -> (step: PrimeStep)
    ensures
        step == (if warm >= config.low_watermark {
            PrimeStep::Primed
        } else if elapsed >= timeout {
            PrimeStep::TimedOut
        } else {
            PrimeStep::Wait(POOL_PRIME_POLL_INTERVAL)
        }),
{
    if warm >= config.low_watermark {
        PrimeStep::Primed
    } else if elapsed >= timeout {
        PrimeStep::TimedOut
    } else {
        PrimeStep::Wait(POOL_PRIME_POLL_INTERVAL)
    }
}

} // verus!
