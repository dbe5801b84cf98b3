use std::collections::{BTreeMap, BTreeSet};

use agentenv::pool::{FirecrackerPool, ReserveError, WarmFirecracker, WarmResources};
use agentenv::pool_runs::{
    firecracker_pool_cleanup_result, maintenance_outcome, prime_poll, prime_start,
    warm_stderr_path, warm_stdout_path, Cleanup, CleanupAction, CleanupEvent, CleanupPass,
    CleanupStep, CreateEvent, CreateRun, CreateStep, CycleCommand, FillCommand, FillRun,
    MaintenanceCycle, PrimeStep, PublishRun, PublishStep,
};
use agentenv::warm_pool::{MaintenanceOutcome, PoolConfig, PoolMaintenanceAction};

/// A slot is its index and the identity of its namespace.
type Slot = (u32, String);
type Pool = FirecrackerPool<Slot, u32, String>;
type Warm = WarmFirecracker<Slot, u32, String>;

fn pool(capacity: usize) -> Pool {
    FirecrackerPool::new(
        PoolConfig {
            low_watermark: 0,
            high_watermark: capacity,
            maintenance_enabled: false,
            startup_prewarm: false,
        },
        2,
    )
}

/// The host: running processes, taken slots and existing directories.
#[derive(Default)]
struct Host {
    processes: BTreeSet<u32>,
    slots: BTreeMap<u32, String>,
    dirs: BTreeSet<String>,
    /// Processes that cannot be stopped.
    unstoppable: BTreeSet<u32>,
    network_fails: bool,
}

impl Host {
    fn resources(&mut self) -> WarmResources<Slot, u32, String> {
        let n = 1 + self.slots.keys().last().copied().unwrap_or(0);
        self.processes.insert(n);
        self.slots.insert(n, format!("ns-{n}"));
        self.dirs.insert(format!("/warm/{n}"));
        WarmResources {
            slot: Some((n, format!("ns-{n}"))),
            fc_instance: n,
            work_dir: format!("/warm/{n}"),
        }
    }

    /// Performs the action that a cleanup waits for.
    fn perform(&mut self, cleanup: &mut Cleanup<Slot, u32, String>) -> CleanupEvent {
        let action = cleanup.action();
        let resources = cleanup.resources_mut();
        match action {
            CleanupAction::Stop => {
                if self.unstoppable.contains(&resources.fc_instance) {
                    CleanupEvent::Failed("still running".to_string())
                } else {
                    self.processes.remove(&resources.fc_instance);
                    CleanupEvent::Succeeded
                }
            }
            CleanupAction::CleanNetwork => {
                if self.network_fails {
                    return CleanupEvent::Failed("foreign slot".to_string());
                }
                if let Some((index, _)) = resources.slot.take() {
                    self.slots.remove(&index);
                }
                CleanupEvent::Succeeded
            }
            CleanupAction::RemoveDirectory => {
                if self.dirs.remove(&resources.work_dir) {
                    CleanupEvent::Succeeded
                } else {
                    CleanupEvent::NotFound
                }
            }
        }
    }

    fn clean(
        &mut self,
        pool: &mut Pool,
        cleanup: Cleanup<Slot, u32, String>,
    ) -> Result<(), String> {
        let mut cleanup = cleanup;
        loop {
            let event = self.perform(&mut cleanup);
            match cleanup.advance(pool, event) {
                CleanupStep::Continue(rest) => cleanup = rest,
                CleanupStep::Done(_) => return Ok(()),
                CleanupStep::Failed(message) => return Err(message),
            }
        }
    }

    fn shutdown(&mut self, pool: &mut Pool) -> Result<(), String> {
        let mut pass = CleanupPass::shutdown(pool);
        while let Some(cleanup) = pass.next() {
            if let Err(message) = self.clean(pool, cleanup) {
                pass.record_failure(message);
            }
        }
        pass.shutdown_result(pool)
    }

    /// Creates an entry that is ready to be published, whatever the limit.
    fn warm(&mut self, pool: &mut Pool) -> Warm {
        let resources = self.resources();
        let run = CreateRun::MakeDirectory(pool.reserve(usize::MAX).unwrap());
        let CreateStep::Continue(run) =
            run.advance(pool, CreateEvent::DirectoryMade(resources.work_dir))
        else {
            panic!("the slot is allocated next");
        };
        let slot = resources.slot.unwrap();
        let CreateStep::Continue(run) =
            run.advance(pool, CreateEvent::SlotAllocated(slot, resources.fc_instance))
        else {
            panic!("the process is spawned next");
        };
        let CreateStep::Continue(run) = run.advance(pool, CreateEvent::Spawned) else {
            panic!("the socket is waited for next");
        };
        let CreateStep::Done(warm) = run.advance(pool, CreateEvent::Ready) else {
            panic!("the entry is ready");
        };
        warm
    }
}

#[test]
fn cancelled_shutdown_and_retry_retain_all_warm_entries() {
    let mut pool = pool(2);
    let mut host = Host::default();
    for _ in 0..2 {
        let warm = host.warm(&mut pool);
        assert!(pool.try_publish(warm).is_ok());
    }
    for _ in 0..2 {
        // The pass is broken off while the first entry is being stopped.
        let mut pass = CleanupPass::shutdown(&mut pool);
        let first = pass.next().unwrap();
        first.cancel(&mut pool);
        pass.cancel(&mut pool);
        assert_eq!(pool.pending_len(), 2);
        assert_eq!(host.processes.len(), 2);
        assert_eq!(host.slots.len(), 2);
        assert_eq!(host.dirs.len(), 2);
    }
    host.shutdown(&mut pool).unwrap();
    assert_eq!(pool.pending_len(), 0);
    assert_eq!(pool.outstanding(), 0);
    assert!(host.processes.is_empty());
    assert!(host.dirs.is_empty());
    assert!(host.slots.is_empty());
}

#[test]
fn cancelled_overflow_cleanup_retains_unvisited_batch_entries() {
    let mut pool = pool(0);
    let mut host = Host::default();
    let mut batch = Vec::new();
    for _ in 0..2 {
        batch.push(Ok(host.warm(&mut pool)));
    }
    let mut publication = PublishRun::publish_warm_batch(batch);
    let PublishStep::Clean(cleanup) = publication.next(&mut pool) else {
        panic!("a full pool publishes nothing");
    };
    cleanup.cancel(&mut pool);
    publication.cancel(&mut pool);
    assert_eq!(pool.pending_len(), 2);
    host.shutdown(&mut pool).unwrap();
    assert_eq!(pool.pending_len(), 0);
    assert_eq!(pool.outstanding(), 0);
}

#[test]
fn creation_cancellation_retains_process_directory_and_slot() {
    let mut pool = pool(0);
    let mut host = Host::default();
    let resources = host.resources();
    let run = CreateRun::MakeDirectory(pool.reserve(usize::MAX).unwrap());
    let CreateStep::Continue(run) =
        run.advance(&mut pool, CreateEvent::DirectoryMade(resources.work_dir))
    else {
        panic!("the slot is allocated next");
    };
    let CreateStep::Continue(run) = run.advance(
        &mut pool,
        CreateEvent::SlotAllocated(resources.slot.unwrap(), resources.fc_instance),
    ) else {
        panic!("the process is spawned next");
    };
    let CreateStep::Continue(run) = run.advance(&mut pool, CreateEvent::Spawned) else {
        panic!("the socket is waited for next");
    };
    run.cancel(&mut pool);
    assert_eq!(pool.pending_len(), 1);
    assert!(host.dirs.contains("/warm/1"));
    assert!(host.slots.contains_key(&1));
    host.shutdown(&mut pool).unwrap();
    assert!(host.dirs.is_empty());
    assert!(host.slots.is_empty());
}

#[test]
fn cleanup_failure_retains_owner_and_does_not_skip_other_entries() {
    let mut pool = pool(2);
    let mut host = Host::default();
    let failed = host.warm(&mut pool);
    let good = host.warm(&mut pool);
    assert!(pool.try_publish(failed).is_ok());
    assert!(pool.try_publish(good).is_ok());
    host.unstoppable.insert(1);
    for _ in 0..2 {
        let error = host.shutdown(&mut pool).unwrap_err();
        assert_eq!(
            error,
            "failed to clean up firecracker pool entries: still running | \
             warm Firecracker cleanup still owns 1 entries"
        );
        assert_eq!(pool.pending_len(), 1);
        assert!(host.slots.contains_key(&1));
        assert!(host.dirs.contains("/warm/1"));
    }
    assert!(
        !host.dirs.contains("/warm/2"),
        "an unrelated owner must still be cleaned"
    );
    host.unstoppable.clear();
    host.shutdown(&mut pool).unwrap();
    assert_eq!(pool.pending_len(), 0);
    assert!(host.dirs.is_empty());
    assert!(host.slots.is_empty());
}

#[test]
fn network_cleanup_failure_keeps_directory_and_exact_slot_for_retry() {
    let mut pool = pool(0);
    let mut host = Host::default();
    let warm = host.warm(&mut pool);
    let identity = warm.resources().unwrap().slot.as_ref().unwrap().1.clone();
    host.network_fails = true;
    assert_eq!(
        host.clean(&mut pool, Cleanup::new(warm)).unwrap_err(),
        "firecracker pool: cleanup warm network slot"
    );
    assert!(host.dirs.contains("/warm/1"));
    assert_eq!(
        pool.pending_entry(0).slot.as_ref().unwrap().1,
        identity
    );
    host.network_fails = false;
    host.shutdown(&mut pool).unwrap();
    assert!(host.dirs.is_empty());
    assert_eq!(pool.pending_len(), 0);
}

#[test]
fn successful_acquisition_transfers_without_scheduling_cleanup() {
    let mut pool = pool(1);
    let mut host = Host::default();
    let warm = host.warm(&mut pool);
    assert!(pool.try_publish(warm).is_ok());
    let acquired = pool.try_acquire().unwrap();
    let (slot, instance, work_dir) = pool.into_parts(acquired);
    assert_eq!(pool.pending_len(), 0);
    assert_eq!(pool.outstanding(), 0);
    assert!(host.dirs.contains(&work_dir));
    assert_eq!((slot.0, instance), (1, 1));
    assert!(pool.try_acquire().is_none());
}

#[test]
fn concurrent_shutdown_cannot_confirm_another_passes_active_cleanup() {
    let mut pool = pool(1);
    let mut host = Host::default();
    let warm = host.warm(&mut pool);
    assert!(pool.try_publish(warm).is_ok());
    let mut first = CleanupPass::shutdown(&mut pool);
    let active = first.next().unwrap();
    let second = host.shutdown(&mut pool);
    host.clean(&mut pool, active).unwrap();
    first.shutdown_result(&pool).unwrap();
    host.shutdown(&mut pool).unwrap();
    assert_eq!(pool.outstanding(), 0);
    assert!(second.unwrap_err().contains("still owns 1 entries"));
}

#[test]
fn blocking_cleanup_failure_retains_group_for_a_later_pass() {
    let mut pool = pool(0);
    let mut host = Host::default();
    let warm = host.warm(&mut pool);
    host.unstoppable.insert(1);
    assert!(host.clean(&mut pool, Cleanup::new(warm)).is_err());
    assert!(host.dirs.contains("/warm/1"));
    assert!(host.slots.contains_key(&1));
    assert_eq!(pool.pending_len(), 1);
    host.unstoppable.clear();
    for warm in pool.take_pending_cleanup() {
        host.clean(&mut pool, Cleanup::new(warm)).unwrap();
    }
    assert!(host.dirs.is_empty());
    assert_eq!(pool.outstanding(), 0);
    assert!(host.slots.is_empty());
}

#[test]
fn concurrent_creators_reserve_capacity_before_allocating_resources() {
    let mut pool = pool(2);
    let mut owners: Vec<Warm> = (0..16)
        .filter_map(|_| pool.reserve_warm_capacity().ok())
        .collect();
    assert_eq!(owners.len(), 2);
    assert_eq!(pool.outstanding(), 2);
    assert!(pool.reserve_warm_capacity().is_err());
    // Cancel before any allocation.
    pool.abandon(owners.pop().unwrap());
    let replacement = pool.reserve_warm_capacity().unwrap();
    assert!(replacement.resources().is_none());
    pool.abandon(replacement);
    for owner in owners {
        pool.abandon(owner);
    }
    assert_eq!(pool.outstanding(), 0);
    assert_eq!(pool.pending_len(), 0);
}

#[test]
fn unresolved_warm_cleanup_blocks_replacement_until_confirmed_release() {
    let mut pool = pool(1);
    let mut host = Host::default();
    let owner = host.warm(&mut pool);
    host.unstoppable.insert(1);
    assert!(host.clean(&mut pool, Cleanup::new(owner)).is_err());
    for _ in 0..3 {
        let error = CreateRun::create_warm(&mut pool)
            .err()
            .expect("capacity must remain occupied");
        assert!(error.message().contains("capacity is occupied"));
        assert_eq!(pool.outstanding(), 1);
        assert_eq!(pool.pending_len(), 1);
    }
    host.unstoppable.clear();
    for owner in pool.take_pending_cleanup() {
        host.clean(&mut pool, Cleanup::new(owner)).unwrap();
    }
    let next = pool.reserve_warm_capacity().unwrap();
    assert_eq!(pool.outstanding(), 1);
    pool.abandon(next);
}

#[test]
fn preparation_failure_returns_reserved_capacity_and_shutdown_rejects_new_creation() {
    let mut pool = pool(1);
    for _ in 0..3 {
        let run = CreateRun::create_warm(&mut pool).unwrap();
        let CreateStep::Failed(error) = run.advance(&mut pool, CreateEvent::Failed) else {
            panic!("work dir must fail before networking");
        };
        assert!(error.contains("create work dir"));
        assert_eq!(pool.outstanding(), 0);
    }
    assert!(pool.take_all().is_empty());
    let error = CreateRun::create_warm(&mut pool)
        .err()
        .expect("shutdown rejects new work");
    assert_eq!(error, ReserveError::ShuttingDown);
    assert!(error.message().contains("shutting down"));
    assert_eq!(pool.outstanding(), 0);
}

#[test]
fn every_failed_step_of_a_creation_is_named() {
    let mut pool = pool(4);
    let run = CreateRun::create_warm(&mut pool).unwrap();
    let CreateStep::Continue(run) =
        run.advance(&mut pool, CreateEvent::DirectoryMade("/d".to_string()))
    else {
        panic!("the slot is allocated next");
    };
    let CreateStep::Failed(error) = run.advance(&mut pool, CreateEvent::Failed) else {
        panic!("the slot could not be allocated");
    };
    assert_eq!(error, "firecracker pool: allocate network slot");
    assert_eq!((pool.outstanding(), pool.pending_len()), (0, 0));
    for (spawned, message) in [
        (false, "spawn warm firecracker process"),
        (true, "wait for warm firecracker api socket"),
    ] {
        let run = CreateRun::create_warm(&mut pool).unwrap();
        let CreateStep::Continue(run) =
            run.advance(&mut pool, CreateEvent::DirectoryMade("/d".to_string()))
        else {
            panic!("the slot is allocated next");
        };
        let CreateStep::Continue(mut run) = run.advance(
            &mut pool,
            CreateEvent::SlotAllocated((1, "ns".to_string()), 1),
        ) else {
            panic!("the process is spawned next");
        };
        if spawned {
            let CreateStep::Continue(next) = run.advance(&mut pool, CreateEvent::Spawned) else {
                panic!("the socket is waited for next");
            };
            run = next;
        }
        let CreateStep::Failed(error) = run.advance(&mut pool, CreateEvent::Failed) else {
            panic!("the process could not be started");
        };
        assert_eq!(error, message);
    }
    assert_eq!((pool.outstanding(), pool.pending_len()), (2, 2));
}

#[test]
fn an_absent_directory_counts_as_removed_and_another_failure_does_not() {
    let mut pool = pool(2);
    let mut host = Host::default();
    let warm = host.warm(&mut pool);
    host.dirs.clear();
    host.clean(&mut pool, Cleanup::new(warm)).unwrap();
    assert_eq!(pool.outstanding(), 0);

    let warm = host.warm(&mut pool);
    let cleanup = Cleanup::new(warm);
    let CleanupStep::Continue(cleanup) = cleanup.advance(&mut pool, CleanupEvent::Succeeded) else {
        panic!("the network is cleaned next");
    };
    assert_eq!(cleanup.action(), CleanupAction::CleanNetwork);
    let CleanupStep::Continue(cleanup) = cleanup.advance(&mut pool, CleanupEvent::Succeeded) else {
        panic!("the directory is removed next");
    };
    assert_eq!(cleanup.action(), CleanupAction::RemoveDirectory);
    let failed = cleanup.advance(&mut pool, CleanupEvent::Failed("denied".to_string()));
    let CleanupStep::Failed(message) = failed else {
        panic!("the directory could not be removed");
    };
    assert_eq!(message, "firecracker pool: remove warm work dir");
    assert_eq!(pool.pending_len(), 1);
}

#[test]
fn acquiring_asks_for_maintenance_below_the_low_watermark() {
    let mut pool: Pool = FirecrackerPool::new(
        PoolConfig {
            low_watermark: 1,
            high_watermark: 2,
            maintenance_enabled: true,
            startup_prewarm: true,
        },
        1,
    );
    let mut host = Host::default();
    for _ in 0..2 {
        let warm = host.warm(&mut pool);
        assert!(pool.try_publish(warm).is_ok());
    }
    let first = pool.try_acquire().unwrap();
    assert_eq!(first.resources().unwrap().fc_instance, 1);
    assert!(!pool.take_maintenance_request());
    let second = pool.try_acquire().unwrap();
    assert_eq!(second.resources().unwrap().fc_instance, 2);
    assert!(pool.take_maintenance_request());
    assert!(!pool.take_maintenance_request());
    assert_eq!(pool.warm_len(), 0);
}

#[test]
fn a_maintenance_cycle_cleans_then_drains_and_reports_every_failure() {
    let mut pool = pool(3);
    let mut host = Host::default();
    let owed = host.warm(&mut pool);
    pool.abandon(owed);
    for _ in 0..2 {
        let warm = host.warm(&mut pool);
        assert!(pool.try_publish(warm).is_ok());
    }
    host.unstoppable.insert(1);
    host.unstoppable.insert(2);
    let mut cycle = MaintenanceCycle::run_maintenance_cycle(&mut pool);
    let mut cleaned = 0;
    let result = loop {
        match cycle.next(&mut pool) {
            CycleCommand::Clean(cleanup) => {
                cleaned += 1;
                if let Err(message) = host.clean(&mut pool, cleanup) {
                    cycle.record_failure(message);
                }
            }
            CycleCommand::Decide(len) => {
                assert_eq!(len, 2);
                cycle.decided(PoolMaintenanceAction::Drain(5));
            }
            CycleCommand::Fill(_) => panic!("nothing is filled"),
            CycleCommand::Finish(result) => break result,
        }
    };
    assert_eq!(cleaned, 3);
    assert_eq!(
        result.clone().unwrap_err(),
        "failed to clean up firecracker pool entries: still running | still running"
    );
    assert_eq!(maintenance_outcome(&result), MaintenanceOutcome::Retry);
    assert_eq!(pool.pending_len(), 2);
    assert_eq!(pool.warm_len(), 0);

    let mut cycle = MaintenanceCycle::run_maintenance_cycle(&mut pool);
    cycle.cancel(&mut pool);
    assert_eq!(pool.pending_len(), 2);
    cycle = MaintenanceCycle::run_maintenance_cycle(&mut pool);
    host.unstoppable.clear();
    let mut filled = None;
    let result = loop {
        match cycle.next(&mut pool) {
            CycleCommand::Clean(cleanup) => host.clean(&mut pool, cleanup).unwrap(),
            CycleCommand::Decide(_) => cycle.decided(PoolMaintenanceAction::Fill(4)),
            CycleCommand::Fill(count) => filled = Some(count),
            CycleCommand::Finish(result) => break result,
        }
    };
    assert_eq!(filled, Some(4));
    assert_eq!(maintenance_outcome(&result), MaintenanceOutcome::Complete);
    assert_eq!(pool.outstanding(), 0);
}

#[test]
fn a_refill_goes_in_batches_and_stops_after_a_failed_creation() {
    let mut pool = pool(5);
    let run = FillRun::fill_warm_entries(5);
    assert!(matches!(run.next(&pool), FillCommand::CreateBatch(2)));
    let run = run.batch_published(2, false, Vec::new()).unwrap();
    assert!(matches!(run.next(&pool), FillCommand::CreateBatch(2)));
    let run = run
        .batch_published(2, false, vec!["full".to_string()])
        .unwrap();
    assert!(matches!(run.next(&pool), FillCommand::CreateBatch(1)));
    assert_eq!(
        run.batch_published(1, true, vec!["no slot".to_string()])
            .unwrap_err(),
        "firecracker pool refill failed: full | no slot"
    );
    let run = FillRun::fill_warm_entries(1);
    let run = run.batch_published(1, false, Vec::new()).unwrap();
    assert!(matches!(run.next(&pool), FillCommand::Finish(Ok(()))));
    assert!(pool.take_all().is_empty());
    let closed = FillRun::fill_warm_entries(3);
    assert!(matches!(closed.next(&pool), FillCommand::Finish(Ok(()))));
}

#[test]
fn a_batch_is_published_as_far_as_there_is_room() {
    let mut pool = pool(2);
    let mut host = Host::default();
    let first = host.warm(&mut pool);
    let second = host.warm(&mut pool);
    let batch = vec![Ok(first), Err("no work dir".to_string()), Ok(second)];
    let mut run = PublishRun::publish_warm_batch(batch);
    assert!(matches!(run.next(&mut pool), PublishStep::Continue));
    assert!(matches!(run.next(&mut pool), PublishStep::Continue));
    assert!(matches!(run.next(&mut pool), PublishStep::Continue));
    run.record_failure("late".to_string());
    let PublishStep::Finish(saw_failure, failures) = run.next(&mut pool) else {
        panic!("the batch is dealt with");
    };
    assert!(saw_failure);
    assert_eq!(failures, ["no work dir", "late"]);
    assert_eq!(pool.warm_len(), 2);
}

#[test]
fn priming_waits_for_the_low_watermark_or_for_its_time() {
    let config = PoolConfig {
        low_watermark: 2,
        high_watermark: 4,
        maintenance_enabled: true,
        startup_prewarm: true,
    };
    let with = |maintenance_enabled, startup_prewarm| PoolConfig {
        maintenance_enabled,
        startup_prewarm,
        ..config
    };
    assert_eq!(
        prime_start(with(false, true), 0),
        PrimeStep::MaintenanceDisabled
    );
    assert_eq!(prime_start(with(true, false), 0), PrimeStep::PrewarmDisabled);
    assert_eq!(prime_start(config, 2), PrimeStep::Primed);
    assert_eq!(
        prime_start(
            PoolConfig {
                low_watermark: 0,
                ..config
            },
            0
        ),
        PrimeStep::Primed
    );
    assert_eq!(prime_start(config, 1), PrimeStep::Wait(0));
    assert_eq!(prime_poll(config, 1, 10, 50), PrimeStep::Wait(20));
    assert_eq!(prime_poll(config, 1, 50, 50), PrimeStep::TimedOut);
    assert_eq!(prime_poll(config, 2, 50, 50), PrimeStep::Primed);
}

#[test]
fn messages_and_paths_of_the_pool() {
    assert_eq!(firecracker_pool_cleanup_result(Vec::new()), Ok(()));
    assert_eq!(
        firecracker_pool_cleanup_result(vec!["a".to_string(), "b".to_string()]),
        Err("failed to clean up firecracker pool entries: a | b".to_string())
    );
    assert_eq!(
        ReserveError::CapacityOccupied {
            outstanding: 12,
            limit: 3
        }
        .message(),
        "warm Firecracker capacity is occupied by 12 ready, creating or unresolved owners (limit 3)"
    );
    assert_eq!(warm_stdout_path("/warm/1"), "/warm/1/firecracker-stdout.log");
    assert_eq!(warm_stderr_path("/warm/1/"), "/warm/1/firecracker-stderr.log");
    assert_eq!(warm_stdout_path(""), "firecracker-stdout.log");
}

fn instances(entries: &[Warm]) -> Vec<u32> {
    entries
        .iter()
        .filter_map(|warm| warm.resources())
        .map(|resources| resources.fc_instance)
        .collect()
}

#[test]
fn a_shutdown_leaves_exactly_the_entries_whose_cleanup_failed() {
    let mut pool = pool(4);
    let mut host = Host::default();
    for _ in 0..4 {
        let warm = host.warm(&mut pool);
        assert!(pool.try_publish(warm).is_ok());
    }
    host.unstoppable.extend([2, 4]);
    assert!(host.shutdown(&mut pool).is_err());
    assert!(pool.is_shutting_down());
    assert_eq!(pool.warm_len(), 0);
    assert_eq!(pool.outstanding(), 2);
    assert_eq!(host.processes, BTreeSet::from([2, 4]));
    let owed = pool.take_pending_cleanup();
    assert_eq!(instances(&owed), [2, 4]);
}

#[test]
fn a_published_entry_is_ready_or_cleaned_or_owed() {
    let mut pool = pool(1);
    let mut host = Host::default();
    let batch = vec![
        Ok(host.warm(&mut pool)),
        Err("no work dir".to_string()),
        Ok(host.warm(&mut pool)),
        Ok(host.warm(&mut pool)),
    ];
    host.unstoppable.insert(2);
    let mut run = PublishRun::publish_warm_batch(batch);
    let (saw_failure, failures) = loop {
        match run.next(&mut pool) {
            PublishStep::Continue => {}
            PublishStep::Clean(cleanup) => {
                if let Err(message) = host.clean(&mut pool, cleanup) {
                    run.record_failure(message);
                }
            }
            PublishStep::Finish(saw_failure, failures) => break (saw_failure, failures),
        }
    };
    assert!(saw_failure);
    assert_eq!(failures, ["no work dir", "still running"]);
    assert_eq!(pool.outstanding(), 2);
    assert_eq!(host.processes, BTreeSet::from([1, 2]));
    assert_eq!(instances(&pool.take_pending_cleanup()), [2]);
    assert_eq!(instances(&[pool.try_drain_one().unwrap()]), [1]);
}
