//! What holds of the pool's operations and runs, entry by entry: no operation
//! loses an entry, hands one out twice or lets one leave before it is cleaned up.

use vstd::prelude::*;

use crate::pool;
use crate::pool::{FirecrackerPool, PoolView, ReserveError, WarmFirecracker, WarmResources};
use crate::pool_runs;
use crate::pool_runs::{
    Cleanup, CleanupAction, CleanupEvent, CleanupPass, CleanupStep, CreateEvent, CreateRun,
    CreateStep, CycleCommand, CycleStage, FillCommand, FillRun, MaintenanceCycle, PrimeStep,
    PublishRun, PublishStep,
};
use crate::text;
use crate::warm_pool;
use crate::warm_pool::{
    MaintenanceOutcome, MaintenancePace, MaintenanceTiming, MaintenanceWait, PoolConfig,
    PoolMaintenanceAction, WarmPool,
};

verus! {

/// Whether pools have the same limits, and one is closed if the other is.
pub open spec fn same_settings<S, I, D>(a: PoolView<S, I, D>, b: PoolView<S, I, D>) -> bool {
    &&& a.limits == b.limits
    &&& a.fill_concurrency == b.fill_concurrency
    &&& a.closed == b.closed
}

/// Whether pools have the same settings, and maintenance is asked for by one if it
/// is by the other.
pub open spec fn undisturbed<S, I, D>(a: PoolView<S, I, D>, b: PoolView<S, I, D>) -> bool {
    same_settings(a, b) && a.maintenance_requested == b.maintenance_requested
}

/// Whether pools have the same entries, ready and owed.
pub open spec fn same_entries<S, I, D>(a: PoolView<S, I, D>, b: PoolView<S, I, D>) -> bool {
    &&& a.ready == b.ready
    &&& a.pending == b.pending
}

/// An entry is reserved exactly if the pool is open and below its limit. It owns
/// nothing yet and takes up room at once. A refusal changes nothing and says which
/// of the two it is for.
pub proof fn law_reservations_stay_below_the_limit<S, I, D>(
    pool: &mut FirecrackerPool<S, I, D>,
    counted: usize,
    result: Result<WarmFirecracker<S, I, D>, ReserveError>,
)
    requires
        old(pool)@.wf(),
        call_ensures(FirecrackerPool::<S, I, D>::outstanding, (&*old(pool),), counted),
        call_ensures(FirecrackerPool::<S, I, D>::reserve_warm_capacity, (pool,), result),
    ensures
        counted == old(pool)@.outstanding,
        result is Ok <==> !old(pool)@.closed && old(pool)@.outstanding
            < old(pool)@.limits.high_watermark,
        result matches Ok(entry) ==> {
            &&& entry.contents() is None
            &&& final(pool)@.outstanding == old(pool)@.outstanding + 1
            &&& final(pool)@.outstanding <= final(pool)@.limits.high_watermark
            &&& final(pool)@.held == old(pool)@.held + 1
        },
        result matches Err(error) ==> {
            &&& final(pool)@ == old(pool)@
            &&& error is ShuttingDown <==> old(pool)@.closed
            &&& error matches ReserveError::CapacityOccupied { outstanding, limit } ==> outstanding
                == counted && limit == old(pool)@.limits.high_watermark
        },
        same_entries(final(pool)@, old(pool)@) && undisturbed(final(pool)@, old(pool)@),
{
}

/// An entry that is reserved below a given limit counts against that limit only.
pub proof fn law_reservations_stay_below_a_given_limit<S, I, D>(
    pool: &mut FirecrackerPool<S, I, D>,
    limit: usize,
    result: Result<WarmFirecracker<S, I, D>, ReserveError>,
)
    requires
        old(pool)@.wf(),
        call_ensures(FirecrackerPool::<S, I, D>::reserve, (pool, limit), result),
    ensures
        result is Ok <==> old(pool)@.outstanding < limit,
        result matches Ok(entry) ==> entry.contents() is None && final(pool)@.outstanding
            == old(pool)@.outstanding + 1 && final(pool)@.held == old(pool)@.held + 1,
        result is Err ==> final(pool)@ == old(pool)@,
        same_entries(final(pool)@, old(pool)@) && undisturbed(final(pool)@, old(pool)@),
{
}

/// An entry that is given up with resources is owed a cleanup and still takes up
/// its room; one without only frees its room.
pub proof fn law_given_up_entries_are_owed<S, I, D>(
    pool: &mut FirecrackerPool<S, I, D>,
    warm: WarmFirecracker<S, I, D>,
)
    requires
        old(pool)@.wf(),
        old(pool)@.held >= 1,
        call_ensures(FirecrackerPool::<S, I, D>::abandon, (pool, warm), ()),
    ensures
        final(pool)@.ready == old(pool)@.ready,
        final(pool)@.held == old(pool)@.held - 1,
        warm.contents() matches Some(resources) ==> {
            &&& final(pool)@.pending.len() == old(pool)@.pending.len() + 1
            &&& final(pool)@.pending.last() == resources
            &&& final(pool)@.pending.drop_last() =~= old(pool)@.pending
            &&& final(pool)@.outstanding == old(pool)@.outstanding
        },
        warm.contents() is None ==> {
            &&& final(pool)@.pending == old(pool)@.pending
            &&& final(pool)@.outstanding == old(pool)@.outstanding - 1
        },
        undisturbed(final(pool)@, old(pool)@),
        final(pool)@.maintenance_requested == old(pool)@.maintenance_requested,
{
}

/// Entries that are given up together are all owed, in their order.
pub proof fn law_entries_given_up_together_are_owed<S, I, D>(
    pool: &mut FirecrackerPool<S, I, D>,
    entries: Vec<WarmFirecracker<S, I, D>>,
    i: int,
)
    requires
        old(pool)@.wf(),
        old(pool)@.held >= entries@.len(),
        forall|k: int| 0 <= k < entries@.len() ==> (#[trigger] entries@[k]).contents() is Some,
        0 <= i < entries@.len(),
        call_ensures(FirecrackerPool::<S, I, D>::abandon_all, (pool, entries), ()),
    ensures
        final(pool)@.pending.len() == old(pool)@.pending.len() + entries@.len(),
        Some(final(pool)@.pending[old(pool)@.pending.len() + i]) == entries@[i].contents(),
        final(pool)@.pending.take(old(pool)@.pending.len() as int) =~= old(pool)@.pending,
        final(pool)@.outstanding == old(pool)@.outstanding,
        final(pool)@.held == old(pool)@.held - entries@.len(),
        final(pool)@.ready == old(pool)@.ready,
        undisturbed(final(pool)@, old(pool)@),
{
    let owned = pool::owned(entries@);
    assert(owned.len() == entries@.len());
    assert(owned[i] == entries@[i].contents()->0);
}

/// What leaves the pool for good is exactly what the entry owned, all of it, and
/// its room is free: for a sandbox that takes it over and for a cleanup alike.
pub proof fn law_released_entries_leave_whole<S, I, D>(
    cleaned: &mut FirecrackerPool<S, I, D>,
    taken: &mut FirecrackerPool<S, I, D>,
    warm: WarmFirecracker<S, I, D>,
    resources: WarmResources<S, I, D>,
    parts: (S, I, D),
)
    requires
        old(cleaned)@.wf() && old(cleaned)@.held >= 1,
        old(taken)@.wf() && old(taken)@.held >= 1,
        warm.contents() matches Some(owned) && owned.slot is Some,
        call_ensures(FirecrackerPool::<S, I, D>::release_ownership, (cleaned, warm), resources),
        call_ensures(FirecrackerPool::<S, I, D>::into_parts, (taken, warm), parts),
    ensures
        warm.contents() == Some(resources),
        resources.slot == Some(parts.0) && resources.fc_instance == parts.1 && resources.work_dir
            == parts.2,
        final(cleaned)@.outstanding == old(cleaned)@.outstanding - 1,
        final(cleaned)@.held == old(cleaned)@.held - 1,
        same_entries(final(cleaned)@, old(cleaned)@) && undisturbed(
            final(cleaned)@,
            old(cleaned)@,
        ),
        final(taken)@.outstanding == old(taken)@.outstanding - 1,
        final(taken)@.held == old(taken)@.held - 1,
        same_entries(final(taken)@, old(taken)@) && undisturbed(final(taken)@, old(taken)@),
{
}

/// Acquiring takes the entry that has been ready longest, whole, and no other; it
/// still takes up its room. Maintenance is asked for exactly when fewer are left
/// than the low watermark.
pub proof fn law_acquisition_takes_the_oldest_entry<S, I, D>(
    pool: &mut FirecrackerPool<S, I, D>,
    entry: Option<WarmFirecracker<S, I, D>>,
)
    requires
        old(pool)@.wf(),
        call_ensures(FirecrackerPool::<S, I, D>::try_acquire, (pool,), entry),
    ensures
        entry is None <==> old(pool)@.ready.len() == 0,
        entry is None ==> final(pool)@ == old(pool)@,
        entry matches Some(warm) ==> {
            &&& warm.contents() == Some(old(pool)@.ready[0])
            &&& (warm.contents()->0).slot is Some
            &&& seq![old(pool)@.ready[0]] + final(pool)@.ready =~= old(pool)@.ready
            &&& final(pool)@.pending == old(pool)@.pending
            &&& final(pool)@.outstanding == old(pool)@.outstanding
            &&& final(pool)@.held == old(pool)@.held + 1
            &&& final(pool)@.maintenance_requested <==> old(pool)@.maintenance_requested
                || final(pool)@.ready.len() < final(pool)@.limits.low_watermark
        },
        same_settings(final(pool)@, old(pool)@),
{
}

/// Draining takes the entry that has been ready longest, and never asks for
/// maintenance.
pub proof fn law_drain_takes_the_oldest_entry<S, I, D>(
    pool: &mut FirecrackerPool<S, I, D>,
    entry: Option<WarmFirecracker<S, I, D>>,
)
    requires
        old(pool)@.wf(),
        call_ensures(FirecrackerPool::<S, I, D>::try_drain_one, (pool,), entry),
    ensures
        entry is None <==> old(pool)@.ready.len() == 0,
        entry is None ==> final(pool)@ == old(pool)@,
        entry matches Some(warm) ==> {
            &&& warm.contents() == Some(old(pool)@.ready[0])
            &&& seq![old(pool)@.ready[0]] + final(pool)@.ready =~= old(pool)@.ready
            &&& final(pool)@.pending == old(pool)@.pending
            &&& final(pool)@.outstanding == old(pool)@.outstanding
            &&& final(pool)@.held == old(pool)@.held + 1
        },
        final(pool)@.maintenance_requested == old(pool)@.maintenance_requested,
        undisturbed(final(pool)@, old(pool)@),
{
}

/// An entry is published exactly if there is room below the high watermark, behind
/// those that are ready; otherwise it is handed back as it is. What was published
/// is what an acquisition of an empty pool gets.
pub proof fn law_published_entries_can_be_acquired<S, I, D>(
    pool: &mut FirecrackerPool<S, I, D>,
    warm: WarmFirecracker<S, I, D>,
    result: Result<(), WarmFirecracker<S, I, D>>,
    later: &mut FirecrackerPool<S, I, D>,
    acquired: Option<WarmFirecracker<S, I, D>>,
)
    requires
        old(pool)@.wf() && old(pool)@.held >= 1,
        warm.contents() matches Some(owned) && owned.slot is Some,
        call_ensures(FirecrackerPool::<S, I, D>::try_publish, (pool, warm), result),
        *old(later) == *final(pool),
        call_ensures(FirecrackerPool::<S, I, D>::try_acquire, (later,), acquired),
    ensures
        result is Ok <==> old(pool)@.ready.len() < old(pool)@.limits.high_watermark,
        result is Ok ==> {
            &&& final(pool)@.ready.len() == old(pool)@.ready.len() + 1
            &&& Some(final(pool)@.ready.last()) == warm.contents()
            &&& final(pool)@.ready.drop_last() =~= old(pool)@.ready
            &&& final(pool)@.held == old(pool)@.held - 1
        },
        result matches Err(back) ==> back.contents() == warm.contents() && final(pool)@
            == old(pool)@,
        result is Ok && old(pool)@.ready.len() == 0 ==> (acquired matches Some(got)
            && got.contents() == warm.contents()),
        final(pool)@.pending == old(pool)@.pending,
        final(pool)@.outstanding == old(pool)@.outstanding,
        undisturbed(final(pool)@, old(pool)@),
{
}

/// Taking the entries whose cleanup is owed takes all of them, in their order, and
/// leaves none to be taken by another pass; they still take up their room.
pub proof fn law_owed_entries_are_taken_once<S, I, D>(
    pool: &mut FirecrackerPool<S, I, D>,
    entries: Vec<WarmFirecracker<S, I, D>>,
    later: &mut FirecrackerPool<S, I, D>,
    again: Vec<WarmFirecracker<S, I, D>>,
    i: int,
)
    requires
        old(pool)@.wf(),
        call_ensures(FirecrackerPool::<S, I, D>::take_pending_cleanup, (pool,), entries),
        *old(later) == *final(pool),
        call_ensures(FirecrackerPool::<S, I, D>::take_pending_cleanup, (later,), again),
    ensures
        entries@.len() == old(pool)@.pending.len(),
        0 <= i < entries@.len() ==> entries@[i].contents() == Some(old(pool)@.pending[i]),
        final(pool)@.pending.len() == 0,
        final(pool)@.outstanding == old(pool)@.outstanding,
        final(pool)@.held == old(pool)@.held + entries@.len(),
        final(pool)@.ready == old(pool)@.ready,
        undisturbed(final(pool)@, old(pool)@),
        again@.len() == 0,
{
    assert(pool::owned(entries@).len() == entries@.len());
    assert(pool::owned(again@).len() == again@.len());
    if 0 <= i < entries@.len() {
        assert(pool::owned(entries@)[i] == entries@[i].contents()->0);
        assert(entries@[i].contents() is Some);
    }
}

/// Taking everything closes the pool and takes every entry, the ready ones first,
/// and nothing is reserved from then on.
pub proof fn law_closing_takes_every_entry<S, I, D>(
    pool: &mut FirecrackerPool<S, I, D>,
    entries: Vec<WarmFirecracker<S, I, D>>,
    later: &mut FirecrackerPool<S, I, D>,
    reserved: Result<WarmFirecracker<S, I, D>, ReserveError>,
    i: int,
)
    requires
        old(pool)@.wf(),
        call_ensures(FirecrackerPool::<S, I, D>::take_all, (pool,), entries),
        *old(later) == *final(pool),
        call_ensures(FirecrackerPool::<S, I, D>::reserve_warm_capacity, (later,), reserved),
    ensures
        entries@.len() == old(pool)@.ready.len() + old(pool)@.pending.len(),
        0 <= i < old(pool)@.ready.len() ==> entries@[i].contents() == Some(old(pool)@.ready[i]),
        0 <= i < old(pool)@.pending.len() ==> entries@[old(pool)@.ready.len() + i].contents()
            == Some(old(pool)@.pending[i]),
        final(pool)@.closed,
        final(pool)@.ready.len() == 0 && final(pool)@.pending.len() == 0,
        final(pool)@.outstanding == old(pool)@.outstanding,
        reserved == Err::<WarmFirecracker<S, I, D>, ReserveError>(ReserveError::ShuttingDown),
{
    let owned = pool::owned(entries@);
    assert(owned.len() == entries@.len());
    if 0 <= i < old(pool)@.ready.len() {
        assert(owned[i] == entries@[i].contents()->0);
        assert(entries@[i].contents() is Some);
    }
    if 0 <= i < old(pool)@.pending.len() {
        let k: int = old(pool)@.ready.len() + i;
        assert(owned[k] == entries@[k].contents()->0);
        assert(entries@[k].contents() is Some);
    }
}

/// Closing the pool moves no entry.
pub proof fn law_closing_moves_no_entry<S, I, D>(
    pool: &mut FirecrackerPool<S, I, D>,
    asked: &mut FirecrackerPool<S, I, D>,
    requested: bool,
)
    requires
        old(pool)@.wf() && old(asked)@.wf(),
        call_ensures(FirecrackerPool::<S, I, D>::close, (pool,), ()),
        call_ensures(
            FirecrackerPool::<S, I, D>::take_maintenance_request,
            (asked,),
            requested,
        ),
    ensures
        final(pool)@.closed,
        same_entries(final(pool)@, old(pool)@),
        final(pool)@.outstanding == old(pool)@.outstanding && final(pool)@.held == old(pool)@.held,
        requested == old(asked)@.maintenance_requested,
        !final(asked)@.maintenance_requested,
        same_entries(final(asked)@, old(asked)@) && same_settings(final(asked)@, old(asked)@),
        final(asked)@.outstanding == old(asked)@.outstanding,
{
}

/// What a pool tells of itself is what it is, and a new one is open and empty.
pub proof fn law_pools_tell_what_they_are<S, I, D>(
    config: PoolConfig,
    concurrency: usize,
    empty: FirecrackerPool<S, I, D>,
    pool: FirecrackerPool<S, I, D>,
    ready: usize,
    pending: usize,
    outstanding: usize,
    limits: PoolConfig,
    filled_at_once: usize,
    closed: bool,
    index: usize,
    entry: &WarmResources<S, I, D>,
)
    requires
        call_ensures(FirecrackerPool::<S, I, D>::new, (config, concurrency), empty),
        call_ensures(FirecrackerPool::<S, I, D>::warm_len, (&pool,), ready),
        call_ensures(FirecrackerPool::<S, I, D>::pending_len, (&pool,), pending),
        call_ensures(FirecrackerPool::<S, I, D>::outstanding, (&pool,), outstanding),
        call_ensures(FirecrackerPool::<S, I, D>::config, (&pool,), limits),
        call_ensures(FirecrackerPool::<S, I, D>::fill_concurrency, (&pool,), filled_at_once),
        call_ensures(FirecrackerPool::<S, I, D>::is_shutting_down, (&pool,), closed),
        index < pool@.pending.len(),
        call_ensures(FirecrackerPool::<S, I, D>::pending_entry, (&pool, index), entry),
    ensures
        empty@.ready.len() == 0 && empty@.pending.len() == 0 && empty@.outstanding == 0
            && empty@.held == 0 && !empty@.closed && !empty@.maintenance_requested,
        empty@.limits == config && empty@.fill_concurrency == concurrency,
        ready == pool@.ready.len(),
        pending == pool@.pending.len(),
        outstanding == pool@.outstanding,
        limits == pool@.limits,
        filled_at_once == pool@.fill_concurrency,
        closed == pool@.closed,
        *entry == pool@.pending[index as int],
{
}

/// A cleanup stops the process first, then cleans up the network, then removes the
/// directory, and does nothing twice. The entry takes up its room until all three
/// are done, and only then leaves the pool; a directory that is not there counts
/// as removed. Any failure leaves the entry owed, with all that it still owns.
pub proof fn law_entries_leave_after_their_whole_cleanup<S, I, D>(
    cleanup: Cleanup<S, I, D>,
    due: CleanupAction,
    pool: &mut FirecrackerPool<S, I, D>,
    event: CleanupEvent,
    step: CleanupStep<S, I, D>,
)
    requires
        old(pool)@.wf() && old(pool)@.held >= 1,
        call_ensures(Cleanup::<S, I, D>::action, (&cleanup,), due),
        event is NotFound ==> due is RemoveDirectory,
        call_ensures(Cleanup::<S, I, D>::advance, (cleanup, pool, event), step),
    ensures
        step is Done <==> due is RemoveDirectory && !(event is Failed),
        step is Failed <==> event is Failed,
        step matches CleanupStep::Continue(rest) ==> {
            &&& due is Stop ==> rest.due() is CleanNetwork
            &&& due is CleanNetwork ==> rest.due() is RemoveDirectory
            &&& rest.contents() == cleanup.contents()
            &&& final(pool)@ == old(pool)@
        },
        step matches CleanupStep::Done(resources) ==> {
            &&& resources == cleanup.contents()
            &&& final(pool)@.outstanding == old(pool)@.outstanding - 1
            &&& final(pool)@.held == old(pool)@.held - 1
            &&& same_entries(final(pool)@, old(pool)@)
        },
        step matches CleanupStep::Failed(message) ==> {
            &&& final(pool)@.outstanding == old(pool)@.outstanding
            &&& final(pool)@.held == old(pool)@.held - 1
            &&& final(pool)@.ready == old(pool)@.ready
            &&& final(pool)@.pending.len() == old(pool)@.pending.len() + 1
            &&& final(pool)@.pending.last() == cleanup.contents()
            &&& final(pool)@.pending.drop_last() =~= old(pool)@.pending
            &&& due is Stop ==> message@ == (event->Failed_0)@
            &&& due is CleanNetwork ==> message@ == "firecracker pool: cleanup warm network slot"@
            &&& due is RemoveDirectory ==> message@ == "firecracker pool: remove warm work dir"@
        },
        undisturbed(final(pool)@, old(pool)@),
{
}

/// A cleanup starts with stopping the process of the entry that it was started for.
/// One that is broken off leaves the entry owed.
pub proof fn law_broken_off_cleanups_are_owed<S, I, D>(
    warm: WarmFirecracker<S, I, D>,
    cleanup: Cleanup<S, I, D>,
    due: CleanupAction,
    pool: &mut FirecrackerPool<S, I, D>,
)
    requires
        warm.contents() is Some,
        old(pool)@.wf() && old(pool)@.held >= 1,
        call_ensures(Cleanup::<S, I, D>::new, (warm,), cleanup),
        call_ensures(Cleanup::<S, I, D>::action, (&cleanup,), due),
        call_ensures(Cleanup::<S, I, D>::cancel, (cleanup, pool), ()),
    ensures
        due is Stop,
        Some(cleanup.contents()) == warm.contents(),
        final(pool)@.pending.len() == old(pool)@.pending.len() + 1,
        Some(final(pool)@.pending.last()) == warm.contents(),
        final(pool)@.pending.drop_last() =~= old(pool)@.pending,
        final(pool)@.outstanding == old(pool)@.outstanding,
        final(pool)@.ready == old(pool)@.ready,
{
}

/// A pass visits every entry that it took, each once and in order: the ready ones
/// and then the owed ones for a shutdown, which closes the pool, and the owed ones
/// alone otherwise.
pub proof fn law_passes_visit_what_they_took<S, I, D>(
    closing: &mut FirecrackerPool<S, I, D>,
    pool: &mut FirecrackerPool<S, I, D>,
    shutdown: CleanupPass<S, I, D>,
    pending: CleanupPass<S, I, D>,
    pass: &mut CleanupPass<S, I, D>,
    cleanup: Option<Cleanup<S, I, D>>,
)
    requires
        old(closing)@.wf() && old(pool)@.wf() && old(pass).wf(),
        call_ensures(CleanupPass::<S, I, D>::shutdown, (closing,), shutdown),
        call_ensures(CleanupPass::<S, I, D>::pending, (pool,), pending),
        call_ensures(CleanupPass::<S, I, D>::next, (pass,), cleanup),
    ensures
        shutdown.unvisited() == old(closing)@.ready + old(closing)@.pending,
        shutdown.failures().len() == 0,
        final(closing)@.closed && final(closing)@.ready.len() == 0
            && final(closing)@.pending.len() == 0,
        final(closing)@.outstanding == old(closing)@.outstanding,
        pending.unvisited() == old(pool)@.pending,
        pending.failures().len() == 0,
        final(pool)@.ready == old(pool)@.ready && final(pool)@.pending.len() == 0,
        final(pool)@.outstanding == old(pool)@.outstanding && final(pool)@.closed
            == old(pool)@.closed,
        cleanup is None <==> old(pass).unvisited().len() == 0,
        cleanup matches Some(first) ==> {
            &&& first.contents() == old(pass).unvisited()[0]
            &&& first.due() is Stop
            &&& seq![old(pass).unvisited()[0]] + final(pass).unvisited() =~= old(pass).unvisited()
        },
        final(pass).failures() == old(pass).failures(),
{
}

/// A pass succeeds exactly if no failure was recorded, and a shutdown only if no
/// entry is left anywhere besides. A pass that is broken off leaves everything
/// owed that it has not visited.
pub proof fn law_passes_end_with_their_failures<S, I, D>(
    noted: &mut CleanupPass<S, I, D>,
    message: String,
    pass: CleanupPass<S, I, D>,
    result: Result<(), String>,
    pool: FirecrackerPool<S, I, D>,
    confirmed: Result<(), String>,
    broken: &mut FirecrackerPool<S, I, D>,
)
    requires
        call_ensures(CleanupPass::<S, I, D>::record_failure, (noted, message), ()),
        call_ensures(CleanupPass::<S, I, D>::result, (&pass,), result),
        call_ensures(CleanupPass::<S, I, D>::shutdown_result, (pass, &pool), confirmed),
        pass.wf() && old(broken)@.wf() && old(broken)@.held >= pass.unvisited().len(),
        call_ensures(CleanupPass::<S, I, D>::cancel, (pass, broken), ()),
    ensures
        final(noted).unvisited() == old(noted).unvisited(),
        final(noted).failures() == old(noted).failures().push(message@),
        result is Ok <==> pass.failures().len() == 0,
        result matches Err(told) ==> told@ == "failed to clean up firecracker pool entries: "@
            + text::joined(pass.failures(), " | "@),
        confirmed is Ok <==> pass.failures().len() == 0 && pool@.outstanding == 0,
        pool@.outstanding == 0 && confirmed is Err ==> (confirmed->Err_0)@ == (result->Err_0)@,
        pass.failures().len() == 0 && pool@.outstanding > 0 ==> (confirmed matches Err(told)
            && told@ == "failed to clean up firecracker pool entries: "@ + (
        "warm Firecracker cleanup still owns "@ + text::decimal(pool@.outstanding)
            + " entries"@)),
        final(broken)@.pending == old(broken)@.pending + pass.unvisited(),
        final(broken)@.outstanding == old(broken)@.outstanding,
        final(broken)@.ready == old(broken)@.ready,
{
}

/// A cycle first cleans up the entries that were owed when it started, then asks
/// what to do about the number of ready ones, and does that: it never drains and
/// refills in one cycle, and never drains more entries than it was told to. It
/// ends with success exactly if nothing failed.
pub proof fn law_cycles_clean_then_fill_or_drain<S, I, D>(
    starting: &mut FirecrackerPool<S, I, D>,
    started: MaintenanceCycle<S, I, D>,
    cycle: &mut MaintenanceCycle<S, I, D>,
    pool: &mut FirecrackerPool<S, I, D>,
    command: CycleCommand<S, I, D>,
    ready: usize,
)
    requires
        old(starting)@.wf() && old(pool)@.wf() && old(cycle).wf(),
        call_ensures(FirecrackerPool::<S, I, D>::warm_len, (&*old(pool),), ready),
        call_ensures(
            MaintenanceCycle::<S, I, D>::run_maintenance_cycle,
            (starting,),
            started,
        ),
        call_ensures(MaintenanceCycle::<S, I, D>::next, (cycle, pool), command),
    ensures
        started.unvisited() == old(starting)@.pending,
        started.stage() is Pending,
        started.failures().len() == 0,
        final(starting)@.ready == old(starting)@.ready,
        final(starting)@.outstanding == old(starting)@.outstanding,
        final(cycle).failures() == old(cycle).failures(),
        final(pool)@.outstanding == old(pool)@.outstanding,
        final(pool)@.pending == old(pool)@.pending,
        match command {
            CycleCommand::Clean(cleanup) => {
                ||| old(cycle).stage() is Pending && cleanup.contents()
                    == old(cycle).unvisited()[0] && final(pool)@ == old(pool)@
                ||| old(cycle).stage() is Draining && cleanup.contents() == old(pool)@.ready[0]
                    && seq![old(pool)@.ready[0]] + final(pool)@.ready =~= old(pool)@.ready
            },
            CycleCommand::Decide(len) => len == ready && ready == old(pool)@.ready.len() && old(
                cycle,
            ).unvisited().len() == 0 && final(cycle).stage() is Deciding && final(pool)@
                == old(pool)@,
            CycleCommand::Fill(count) => old(cycle).stage() == CycleStage::Filling(count)
                && final(cycle).stage() is Finished && final(pool)@ == old(pool)@,
            CycleCommand::Finish(result) => {
                &&& old(cycle).unvisited().len() == 0
                &&& old(cycle).stage() is Finished || old(cycle).stage() is Draining
                &&& result is Ok <==> old(cycle).failures().len() == 0
                &&& final(pool)@ == old(pool)@
            },
        },
        old(cycle).stage() matches CycleStage::Draining(left) ==> {
            &&& command is Clean <==> left > 0 && old(pool)@.ready.len() > 0
            &&& command is Clean ==> final(cycle).stage() == CycleStage::Draining(
                (left - 1) as usize,
            )
        },
{
    if old(cycle).stage() is Draining && command is Clean {
        assert(seq![old(pool)@.ready[0]] + final(pool)@.ready =~= old(pool)@.ready);
    }
}

/// What a cycle does is what was decided. A failure is recorded and does not keep
/// the rest from being done, and a cycle that is broken off leaves everything owed
/// that it has not visited.
pub proof fn law_cycles_do_what_was_decided<S, I, D>(
    cycle: &mut MaintenanceCycle<S, I, D>,
    action: PoolMaintenanceAction,
    noted: &mut MaintenanceCycle<S, I, D>,
    message: String,
    broken: MaintenanceCycle<S, I, D>,
    pool: &mut FirecrackerPool<S, I, D>,
)
    requires
        old(cycle).wf() && old(cycle).stage() is Deciding,
        call_ensures(MaintenanceCycle::<S, I, D>::decided, (cycle, action), ()),
        call_ensures(MaintenanceCycle::<S, I, D>::record_failure, (noted, message), ()),
        broken.wf() && old(pool)@.wf() && old(pool)@.held >= broken.unvisited().len(),
        call_ensures(MaintenanceCycle::<S, I, D>::cancel, (broken, pool), ()),
    ensures
        action matches PoolMaintenanceAction::Fill(count) ==> final(cycle).stage()
            == CycleStage::Filling(count),
        action matches PoolMaintenanceAction::Drain(count) ==> final(cycle).stage()
            == CycleStage::Draining(count),
        action is Idle ==> final(cycle).stage() is Finished,
        final(noted).failures() == old(noted).failures().push(message@),
        final(noted).stage() == old(noted).stage(),
        final(noted).unvisited() == old(noted).unvisited(),
        final(pool)@.pending == old(pool)@.pending + broken.unvisited(),
        final(pool)@.outstanding == old(pool)@.outstanding,
{
}

/// A refill creates no more entries at once than the pool allows, and no more in
/// all than it was asked for. It goes on while attempts are left and the pool is
/// open, and stops after a batch with a failed creation.
pub proof fn law_refills_stop_at_a_failure<S, I, D>(
    to_fill: usize,
    started: FillRun,
    run: FillRun,
    pool: FirecrackerPool<S, I, D>,
    command: FillCommand,
    size: usize,
    saw_failure: bool,
    failures: Vec<String>,
    result: Result<FillRun, String>,
    at_once: usize,
)
    requires
        call_ensures(FirecrackerPool::<S, I, D>::fill_concurrency, (&pool,), at_once),
        run.remaining() <= to_fill,
        call_ensures(FillRun::fill_warm_entries, (to_fill,), started),
        call_ensures(FillRun::next::<S, I, D>, (&run, &pool), command),
        size <= run.remaining(),
        call_ensures(FillRun::batch_published, (run, size, saw_failure, failures), result),
    ensures
        started.remaining() == to_fill && started.failures().len() == 0,
        command is CreateBatch <==> run.remaining() > 0 && !pool@.closed,
        command matches FillCommand::CreateBatch(count) ==> {
            &&& count <= run.remaining() && count <= at_once
            &&& count == run.remaining() || count == at_once
        },
        command matches FillCommand::Finish(done) ==> (done is Ok <==> run.failures().len() == 0),
        result is Err <==> saw_failure,
        result matches Err(message) ==> message@ == "firecracker pool refill failed: "@
            + text::joined(run.failures() + text::texts(failures@), " | "@),
        result matches Ok(rest) ==> rest.remaining() == run.remaining() - size && rest.failures()
            == run.failures() + text::texts(failures@),
{
}

/// A batch is published entry by entry: one that was created is ready, behind those
/// that are, as long as there is room, and is cleaned up otherwise; a failed
/// creation is noted and moves no entry. At the end it is told whether a creation
/// failed, with every failure.
pub proof fn law_batches_are_published_entry_by_entry<S, I, D>(
    results: Vec<Result<WarmFirecracker<S, I, D>, String>>,
    started: PublishRun<S, I, D>,
    run: &mut PublishRun<S, I, D>,
    pool: &mut FirecrackerPool<S, I, D>,
    step: PublishStep<S, I, D>,
    noted: &mut PublishRun<S, I, D>,
    message: String,
)
    requires
        call_ensures(PublishRun::<S, I, D>::publish_warm_batch, (results,), started),
        old(pool)@.wf(),
        pool_runs::all_intact(old(run).unvisited()),
        old(pool)@.held >= pool_runs::entry_count(old(run).unvisited()),
        call_ensures(PublishRun::<S, I, D>::next, (run, pool), step),
        call_ensures(PublishRun::<S, I, D>::record_failure, (noted, message), ()),
    ensures
        started.unvisited() == results@ && !started.saw_failure() && started.failures().len() == 0,
        final(noted).failures() == old(noted).failures().push(message@),
        final(noted).unvisited() == old(noted).unvisited() && final(noted).saw_failure()
            == old(noted).saw_failure(),
        step is Finish <==> old(run).unvisited().len() == 0,
        step matches PublishStep::Finish(saw_failure, failures) ==> saw_failure
            == old(run).saw_failure() && text::texts(failures@) == old(run).failures()
            && final(pool)@ == old(pool)@,
        final(pool)@.outstanding == old(pool)@.outstanding && final(pool)@.pending
            == old(pool)@.pending,
        old(run).unvisited().len() > 0 ==> {
            &&& final(run).unvisited() == old(run).unvisited().skip(1)
            &&& match old(run).unvisited()[0] {
                Err(error) => {
                    &&& step is Continue
                    &&& final(run).saw_failure()
                    &&& final(run).failures() == old(run).failures().push(error@)
                    &&& final(pool)@ == old(pool)@
                },
                Ok(warm) => {
                    &&& final(run).saw_failure() == old(run).saw_failure()
                    &&& final(run).failures() == old(run).failures()
                    &&& step is Continue <==> old(pool)@.ready.len()
                        < old(pool)@.limits.high_watermark
                    &&& step is Continue ==> final(pool)@.ready.len() == old(pool)@.ready.len() + 1
                        && Some(final(pool)@.ready.last()) == warm.contents()
                        && final(pool)@.ready.drop_last() =~= old(pool)@.ready
                    &&& step matches PublishStep::Clean(cleanup) ==> Some(cleanup.contents())
                        == warm.contents() && cleanup.due() is Stop && final(pool)@ == old(pool)@
                },
            }
        },
{
    if old(run).unvisited().len() > 0 {
        assert(old(run).unvisited()[0] matches Ok(warm) ==> warm.contents() is Some);
    }
}

/// A creation reserves its room before anything else, and is refused where the
/// pool is closed or full.
pub proof fn law_creations_reserve_their_room_first<S, I, D>(
    pool: &mut FirecrackerPool<S, I, D>,
    result: Result<CreateRun<S, I, D>, ReserveError>,
)
    requires
        old(pool)@.wf(),
        call_ensures(CreateRun::<S, I, D>::create_warm, (pool,), result),
    ensures
        result is Ok <==> !old(pool)@.closed && old(pool)@.outstanding
            < old(pool)@.limits.high_watermark,
        result matches Ok(run) ==> {
            &&& run matches CreateRun::MakeDirectory(warm) && warm.contents() is None
            &&& final(pool)@.outstanding == old(pool)@.outstanding + 1
        },
        result matches Err(error) ==> final(pool)@ == old(pool)@ && (error is ShuttingDown
            <==> old(pool)@.closed),
        same_entries(final(pool)@, old(pool)@),
{
}

/// A creation makes the directory, allocates the slot, spawns the process and
/// waits for it, in this order, and ends with an entry that owns the directory, the
/// slot and the process that were made for it. The pool does not change meanwhile.
pub proof fn law_created_entries_own_what_was_made<S, I, D>(
    made: &mut FirecrackerPool<S, I, D>,
    allocated: &mut FirecrackerPool<S, I, D>,
    spawned: &mut FirecrackerPool<S, I, D>,
    ready: &mut FirecrackerPool<S, I, D>,
    run: CreateRun<S, I, D>,
    work_dir: D,
    slot: S,
    instance: I,
    first: CreateStep<S, I, D>,
    second: CreateStep<S, I, D>,
    third: CreateStep<S, I, D>,
    fourth: CreateStep<S, I, D>,
    allocate: CreateRun<S, I, D>,
    spawn: CreateRun<S, I, D>,
    wait: CreateRun<S, I, D>,
)
    requires
        run is MakeDirectory && run.wf(),
        old(made)@.wf() && old(made)@.held >= 1,
        call_ensures(
            CreateRun::<S, I, D>::advance,
            (run, made, CreateEvent::DirectoryMade(work_dir)),
            first,
        ),
        first matches CreateStep::Continue(next) ==> next == allocate,
        *old(allocated) == *final(made),
        call_ensures(
            CreateRun::<S, I, D>::advance,
            (allocate, allocated, CreateEvent::SlotAllocated(slot, instance)),
            second,
        ),
        second matches CreateStep::Continue(next) ==> next == spawn,
        *old(spawned) == *final(allocated),
        call_ensures(
            CreateRun::<S, I, D>::advance,
            (spawn, spawned, CreateEvent::Spawned),
            third,
        ),
        third matches CreateStep::Continue(next) ==> next == wait,
        *old(ready) == *final(spawned),
        call_ensures(CreateRun::<S, I, D>::advance, (wait, ready, CreateEvent::Ready), fourth),
    ensures
        first is Continue && second is Continue && third is Continue,
        allocate is AllocateSlot && spawn is Spawn && wait is WaitReady,
        fourth matches CreateStep::Done(warm) && warm.contents() == Some(
            WarmResources { slot: Some(slot), fc_instance: instance, work_dir },
        ),
        final(ready)@ == old(made)@,
{
}

/// A creation that fails before its slot is allocated frees its room; one that
/// fails later leaves what it owns to be cleaned up. The failure names the action.
pub proof fn law_failed_creations_lose_nothing<S, I, D>(
    run: CreateRun<S, I, D>,
    pool: &mut FirecrackerPool<S, I, D>,
    step: CreateStep<S, I, D>,
    broken: &mut FirecrackerPool<S, I, D>,
)
    requires
        run.wf(),
        old(pool)@.wf() && old(pool)@.held >= 1,
        *old(broken) == *old(pool),
        call_ensures(CreateRun::<S, I, D>::advance, (run, pool, CreateEvent::Failed), step),
        call_ensures(CreateRun::<S, I, D>::cancel, (run, broken), ()),
    ensures
        final(broken)@ == final(pool)@,
        final(pool)@.ready == old(pool)@.ready,
        final(pool)@.held == old(pool)@.held - 1,
        match run {
            CreateRun::MakeDirectory(_) | CreateRun::AllocateSlot(_, _) => {
                &&& final(pool)@.pending == old(pool)@.pending
                &&& final(pool)@.outstanding == old(pool)@.outstanding - 1
            },
            CreateRun::Spawn(resources) | CreateRun::WaitReady(resources) => {
                &&& final(pool)@.pending.len() == old(pool)@.pending.len() + 1
                &&& final(pool)@.pending.last() == resources
                &&& final(pool)@.pending.drop_last() =~= old(pool)@.pending
                &&& final(pool)@.outstanding == old(pool)@.outstanding
            },
        },
        step matches CreateStep::Failed(message) && {
            &&& run is MakeDirectory ==> message@ == "firecracker pool: create work dir"@
            &&& run is AllocateSlot ==> message@ == "firecracker pool: allocate network slot"@
            &&& run is Spawn ==> message@ == "spawn warm firecracker process"@
            &&& run is WaitReady ==> message@ == "wait for warm firecracker api socket"@
        },
{
}

/// Priming waits only for a pool that is kept up in the background and prewarmed,
/// and only while fewer entries are ready than the low watermark and time is left.
pub proof fn law_priming_waits_for_the_low_watermark(
    config: PoolConfig,
    warm: usize,
    elapsed: u64,
    timeout: u64,
    start: PrimeStep,
    poll: PrimeStep,
)
    requires
        call_ensures(pool_runs::prime_start, (config, warm), start),
        call_ensures(pool_runs::prime_poll, (config, warm, elapsed, timeout), poll),
    ensures
        start is MaintenanceDisabled <==> !config.maintenance_enabled,
        start is PrewarmDisabled <==> config.maintenance_enabled && !config.startup_prewarm,
        start is Primed <==> config.maintenance_enabled && config.startup_prewarm && warm
            >= config.low_watermark,
        start is Wait <==> config.maintenance_enabled && config.startup_prewarm && warm
            < config.low_watermark,
        start matches PrimeStep::Wait(millis) ==> millis == 0,
        poll is Primed <==> warm >= config.low_watermark,
        poll is TimedOut <==> warm < config.low_watermark && elapsed >= timeout,
        poll is Wait <==> warm < config.low_watermark && elapsed < timeout,
        poll matches PrimeStep::Wait(millis) ==> millis == 20,
{
}

/// A cycle is complete exactly if it succeeded, and a pass succeeds exactly if it
/// has no failures.
pub proof fn law_failures_ask_for_a_retry(
    failures: Vec<String>,
    result: Result<(), String>,
    outcome: MaintenanceOutcome,
)
    requires
        call_ensures(pool_runs::firecracker_pool_cleanup_result, (failures,), result),
        call_ensures(pool_runs::maintenance_outcome, (&result,), outcome),
    ensures
        result is Ok <==> failures@.len() == 0,
        outcome is Complete <==> failures@.len() == 0,
        outcome is Retry <==> failures@.len() > 0,
        failures@.len() == 1 ==> (result matches Err(message) && message@
            == "failed to clean up firecracker pool entries: "@ + failures@[0]@),
        failures@.len() == 2 ==> (result matches Err(message) && message@
            == "failed to clean up firecracker pool entries: "@ + (failures@[0]@ + " | "@
            + failures@[1]@)),
{
    let all = text::texts(failures@);
    assert(all.len() == failures@.len());
    if all.len() == 1 {
        assert(all[0] == failures@[0]@);
    }
    if all.len() == 2 {
        let rest = all.drop_last();
        assert(rest.len() == 1 && rest[0] == failures@[0]@);
        assert(text::joined(rest, " | "@) == failures@[0]@);
        assert(all.last() == failures@[1]@);
    }
}

/// Standard output and standard error of a process go to two files below its
/// directory.
pub proof fn law_logs_are_kept_apart(work_dir: &str, stdout: String, stderr: String)
    requires
        call_ensures(pool_runs::warm_stdout_path, (work_dir,), stdout),
        call_ensures(pool_runs::warm_stderr_path, (work_dir,), stderr),
    ensures
        work_dir@.len() > 0 && work_dir@.last() != '/' ==> stdout@ == work_dir@.push('/')
            + "firecracker-stdout.log"@ && stderr@ == work_dir@.push('/')
            + "firecracker-stderr.log"@,
        work_dir@.len() == 0 || work_dir@.last() == '/' ==> stdout@ == work_dir@
            + "firecracker-stdout.log"@ && stderr@ == work_dir@ + "firecracker-stderr.log"@,
        stdout@ != stderr@,
{
    reveal_strlit("firecracker-stdout.log");
    reveal_strlit("firecracker-stderr.log");
    let head = if work_dir@.len() == 0 || work_dir@.last() == '/' {
        work_dir@
    } else {
        work_dir@.push('/')
    };
    assert(stdout@ == head + "firecracker-stdout.log"@);
    assert(stderr@ == head + "firecracker-stderr.log"@);
    let place = head.len() as int + 15;
    assert(stdout@[place] == 'o');
    assert(stderr@[place] == 'e');
}

/// A worker waits for the idle interval exactly after a cycle that completed and
/// left the pool filled. Any other cycle brings the delay that is due, which then
/// doubles up to the longest, so that a pool that stays short is never busy.
pub proof fn law_workers_back_off_while_cycles_fail(
    timing: MaintenanceTiming,
    fresh: MaintenancePace,
    pace: &mut MaintenancePace,
    outcome: Option<MaintenanceOutcome>,
    short: bool,
    wait: MaintenanceWait,
)
    requires
        call_ensures(MaintenancePace::new, (timing,), fresh),
        call_ensures(MaintenancePace::after_cycle, (pace, outcome, short), wait),
    ensures
        fresh.timing() == timing,
        fresh.delay() <= timing.retry_initial && fresh.delay() <= timing.retry_max,
        fresh.delay() == timing.retry_initial || fresh.delay() == timing.retry_max,
        wait is Idle <==> outcome == Some(MaintenanceOutcome::Complete) && !short,
        wait matches MaintenanceWait::Idle(millis) ==> {
            &&& millis == old(pace).timing().idle_poll
            &&& timing == old(pace).timing() ==> final(pace).delay() == fresh.delay()
        },
        wait matches MaintenanceWait::Backoff(millis) ==> {
            &&& millis == old(pace).delay()
            &&& final(pace).delay() <= old(pace).timing().retry_max
            &&& final(pace).delay() == 2 * old(pace).delay() || (final(pace).delay()
                == old(pace).timing().retry_max && 2 * old(pace).delay()
                >= old(pace).timing().retry_max)
        },
        final(pace).timing() == old(pace).timing(),
{
}

/// Entries leave a queue in the order in which they were published, and none is
/// published beyond the high watermark.
pub proof fn law_queues_are_bounded_and_in_order<T>(
    pushed: &mut WarmPool<T>,
    entry: T,
    result: Result<(), T>,
    acquired: &mut WarmPool<T>,
    got: Option<T>,
    drained: &mut WarmPool<T>,
    torn: Option<T>,
    closed: &mut WarmPool<T>,
    all: Vec<T>,
)
    requires
        call_ensures(WarmPool::<T>::try_push_bounded, (pushed, entry), result),
        call_ensures(WarmPool::<T>::try_acquire, (acquired,), got),
        call_ensures(WarmPool::<T>::try_drain_one, (drained,), torn),
        call_ensures(WarmPool::<T>::drain_all, (closed,), all),
    ensures
        result is Ok <==> old(pushed)@.len() < old(pushed).limits().high_watermark,
        result is Ok ==> final(pushed)@ == old(pushed)@.push(entry),
        result matches Err(back) ==> back == entry && final(pushed)@ == old(pushed)@,
        got is None <==> old(acquired)@.len() == 0,
        got matches Some(first) ==> seq![first] + final(acquired)@ =~= old(acquired)@,
        got is None ==> final(acquired)@ == old(acquired)@,
        torn is None <==> old(drained)@.len() == 0,
        torn matches Some(first) ==> seq![first] + final(drained)@ =~= old(drained)@,
        all@ == old(closed)@,
        final(closed)@.len() == 0 && final(closed).is_closed(),
{
}

/// A maintenance worker may be started exactly for an open pool that is kept up in
/// the background. A request for maintenance is taken up once.
pub proof fn law_maintenance_is_taken_up_once<T>(
    config: PoolConfig,
    empty: WarmPool<T>,
    pool: WarmPool<T>,
    may: bool,
    asked: &mut WarmPool<T>,
    taken: &mut WarmPool<T>,
    requested: bool,
    again: &mut WarmPool<T>,
    repeated: bool,
)
    requires
        call_ensures(WarmPool::<T>::new, (config,), empty),
        call_ensures(WarmPool::<T>::may_start_maintenance, (&pool,), may),
        call_ensures(WarmPool::<T>::request_maintenance, (asked,), ()),
        *old(taken) == *final(asked),
        call_ensures(WarmPool::<T>::take_maintenance_request, (taken,), requested),
        *old(again) == *final(taken),
        call_ensures(WarmPool::<T>::take_maintenance_request, (again,), repeated),
    ensures
        empty@.len() == 0 && empty.limits() == config && !empty.is_closed()
            && !empty.maintenance_is_requested(),
        may <==> pool.limits().maintenance_enabled && !pool.is_closed(),
        requested && !repeated,
        final(again)@ == old(asked)@,
{
}

/// The refusal of a reservation names the numbers that it is for.
pub proof fn law_reserve_errors_are_told(error: ReserveError, text: String)
    requires
        call_ensures(ReserveError::message, (error,), text),
    ensures
        error is ShuttingDown ==> text@ == "warm Firecracker pool is shutting down"@,
        error matches ReserveError::CapacityOccupied { outstanding, limit } ==> text@
            == "warm Firecracker capacity is occupied by "@ + text::decimal(outstanding as nat)
            + " ready, creating or unresolved owners (limit "@ + text::decimal(limit as nat)
            + ")"@,
{
}

proof fn lemma_entries<S, I, D>(results: Seq<Result<WarmFirecracker<S, I, D>, String>>)
    ensures
        pool_runs::entry_count(results) == pool_runs::entries_of(results).len(),
        forall|i: int|
            0 <= i < results.len() && (#[trigger] results[i] is Ok) ==> pool_runs::entries_of(
                results,
            ).contains((results[i]->Ok_0).contents()->0),
    decreases results.len(),
{
    if results.len() > 0 {
        let rest = results.skip(1);
        lemma_entries(rest);
        let all = pool_runs::entries_of(results);
        let others = pool_runs::entries_of(rest);
        let shift: int = all.len() - others.len();
        assert forall|i: int| 0 <= i < results.len() && (#[trigger] results[i] is Ok) implies all.contains(
        (results[i]->Ok_0).contents()->0) by {
            let wanted = (results[i]->Ok_0).contents()->0;
            if i == 0 {
                assert(all[0] == wanted);
            } else {
                assert(rest[i - 1] == results[i]);
                assert(others.contains(wanted));
                let k = choose|k: int| 0 <= k < others.len() && others[k] == wanted;
                assert(all[k + shift] == wanted);
            }
        }
    }
}

/// A publication that is broken off leaves every entry owed that it has not
/// visited, with all that it owns, and moves no other.
pub proof fn law_broken_off_publications_are_owed<S, I, D>(
    run: PublishRun<S, I, D>,
    pool: &mut FirecrackerPool<S, I, D>,
    i: int,
)
    requires
        old(pool)@.wf(),
        pool_runs::all_intact(run.unvisited()),
        old(pool)@.held >= pool_runs::entry_count(run.unvisited()),
        call_ensures(PublishRun::<S, I, D>::cancel, (run, pool), ()),
        0 <= i < run.unvisited().len(),
    ensures
        run.unvisited()[i] matches Ok(warm) ==> final(pool)@.pending.contains(warm.contents()->0),
        final(pool)@.pending.take(old(pool)@.pending.len() as int) =~= old(pool)@.pending,
        final(pool)@.ready == old(pool)@.ready,
        final(pool)@.outstanding == old(pool)@.outstanding,
{
    lemma_entries(run.unvisited());
    let owed = pool_runs::entries_of(run.unvisited());
    if let Ok(warm) = run.unvisited()[i] {
        let wanted = warm.contents()->0;
        assert(owed.contains(wanted));
        let k = choose|k: int| 0 <= k < owed.len() && owed[k] == wanted;
        assert(final(pool)@.pending[old(pool)@.pending.len() + k] == wanted);
    }
}

/// An entry shows what it owns, and the outside action of a cleanup works on what
/// its entry owns: what it leaves is what the entry owns from then on.
pub proof fn law_entries_show_what_they_own<S, I, D>(
    warm: WarmFirecracker<S, I, D>,
    shown: Option<&WarmResources<S, I, D>>,
    cleanup: &mut Cleanup<S, I, D>,
    resources: &mut WarmResources<S, I, D>,
)
    requires
        call_ensures(WarmFirecracker::<S, I, D>::resources, (&warm,), shown),
        call_ensures(Cleanup::<S, I, D>::resources_mut, (cleanup,), resources),
    ensures
        shown is Some <==> warm.contents() is Some,
        shown matches Some(owned) ==> warm.contents() == Some(*owned),
        *old(resources) == old(cleanup).contents(),
        final(cleanup).contents() == *final(resources),
        final(cleanup).due() == old(cleanup).due(),
{
}

/// A queue tells how many entries are ready, and closing it moves none.
pub proof fn law_queues_tell_what_they_are<T>(
    pool: WarmPool<T>,
    len: usize,
    empty: bool,
    config: PoolConfig,
    closed: bool,
    closing: &mut WarmPool<T>,
    timing: MaintenanceTiming,
)
    requires
        call_ensures(WarmPool::<T>::len, (&pool,), len),
        call_ensures(WarmPool::<T>::is_empty, (&pool,), empty),
        call_ensures(WarmPool::<T>::config, (&pool,), config),
        call_ensures(WarmPool::<T>::is_shutting_down, (&pool,), closed),
        call_ensures(WarmPool::<T>::close, (closing,), ()),
        call_ensures(warm_pool::timing, (), timing),
    ensures
        len == pool@.len() && (empty <==> len == 0),
        config == pool.limits() && closed == pool.is_closed(),
        final(closing).is_closed() && final(closing)@ == old(closing)@ && final(closing).limits()
            == old(closing).limits(),
        timing.retry_initial == 20 && timing.retry_max == 80 && timing.idle_poll == 40,
{
}

} // verus!
