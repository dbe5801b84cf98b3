use agentenv::warm_pool::{
    timing, MaintenanceOutcome, MaintenancePace, MaintenanceTiming, MaintenanceWait, PoolConfig,
    WarmPool,
};

#[test]
fn failed_cycles_back_off_despite_new_demand() {
    let mut pace = MaintenancePace::new(timing());
    for minimum in [20, 40, 80, 80] {
        // Demand does not bring the retry deadline forward, whatever it is.
        assert_eq!(
            pace.after_cycle(Some(MaintenanceOutcome::Retry), true),
            MaintenanceWait::Backoff(minimum)
        );
    }
}

#[test]
fn incomplete_refill_without_reported_error_cannot_busy_loop() {
    let mut pace = MaintenancePace::new(timing());
    assert_eq!(
        pace.after_cycle(Some(MaintenanceOutcome::Complete), true),
        MaintenanceWait::Backoff(timing().retry_initial)
    );
}

#[test]
fn idle_pool_discovers_and_retries_cleanup_without_requests() {
    let mut pace = MaintenancePace::new(timing());
    assert_eq!(
        pace.after_cycle(Some(MaintenanceOutcome::Complete), false),
        MaintenanceWait::Idle(timing().idle_poll)
    );
    assert_eq!(
        pace.after_cycle(Some(MaintenanceOutcome::Retry), false),
        MaintenanceWait::Backoff(timing().retry_initial)
    );
    assert_eq!(
        pace.after_cycle(Some(MaintenanceOutcome::Complete), false),
        MaintenanceWait::Idle(timing().idle_poll)
    );
}

#[test]
fn callback_panic_preserves_automatic_retry() {
    let mut pace = MaintenancePace::new(timing());
    assert_eq!(
        pace.after_cycle(None, false),
        MaintenanceWait::Backoff(timing().retry_initial)
    );
}

#[test]
fn disabled_or_shutdown_pool_cannot_start_maintenance() {
    for enabled in [false, true] {
        let mut pool: WarmPool<u32> = WarmPool::new(PoolConfig {
            low_watermark: 1,
            high_watermark: 1,
            maintenance_enabled: enabled,
            startup_prewarm: false,
        });
        assert_eq!(pool.may_start_maintenance(), enabled);
        pool.drain_all();
        assert!(!pool.may_start_maintenance());
    }
}

#[test]
fn success_resets_the_delay() {
    let mut pace = MaintenancePace::new(timing());
    pace.after_cycle(None, false);
    pace.after_cycle(None, false);
    pace.after_cycle(Some(MaintenanceOutcome::Complete), false);
    assert_eq!(pace.after_cycle(None, false), MaintenanceWait::Backoff(20));
}

#[test]
fn the_longest_delay_bounds_the_first() {
    let mut pace = MaintenancePace::new(MaintenanceTiming {
        retry_initial: 90,
        retry_max: 70,
        idle_poll: 1,
    });
    assert_eq!(pace.after_cycle(None, false), MaintenanceWait::Backoff(70));
    assert_eq!(pace.after_cycle(None, false), MaintenanceWait::Backoff(70));
}

#[test]
fn the_queue_is_bounded_and_first_in_first_out() {
    let mut pool = WarmPool::new(PoolConfig {
        low_watermark: 0,
        high_watermark: 2,
        maintenance_enabled: false,
        startup_prewarm: false,
    });
    assert!(pool.is_empty());
    assert_eq!(pool.try_push_bounded(1), Ok(()));
    assert_eq!(pool.try_push_bounded(2), Ok(()));
    assert_eq!(pool.try_push_bounded(3), Err(3));
    assert_eq!(pool.try_acquire(), Some(1));
    assert_eq!(pool.try_drain_one(), Some(2));
    assert_eq!(pool.try_drain_one(), None);
    assert_eq!(pool.try_push_bounded(4), Ok(()));
    assert_eq!(pool.drain_all(), [4]);
    assert!(pool.is_shutting_down());
    assert_eq!(pool.len(), 0);
}
