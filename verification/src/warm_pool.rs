//! A bounded queue of ready entries, and the pace of its maintenance.

use vstd::prelude::*;

verus! {

/// The limits of a pool and whether it is kept up in the background.
#[derive(Debug, Clone, Copy, PartialEq, Eq, Structural)]
pub struct PoolConfig {
    pub low_watermark: usize,
    pub high_watermark: usize,
    pub maintenance_enabled: bool,
    pub startup_prewarm: bool,
}

/// What a maintenance cycle has to do about the number of ready entries.
#[derive(Debug, Clone, Copy, PartialEq, Eq, Structural)]
pub enum PoolMaintenanceAction {
    Fill(usize),
    Drain(usize),
    Idle,
}

/// How a maintenance cycle ended.
#[derive(Debug, Clone, Copy, PartialEq, Eq, Structural)]
pub enum MaintenanceOutcome {
    Complete,
    Retry,
}

/// The delays of maintenance, in milliseconds.
#[derive(Debug, Clone, Copy, PartialEq, Eq, Structural)]
pub struct MaintenanceTiming {
    /// The delay after the first failed cycle.
    pub retry_initial: u64,
    /// The longest delay after a failed cycle.
    pub retry_max: u64,
    /// How long an idle pool waits before it looks again.
    pub idle_poll: u64,
}

/// A timing with short delays.
pub fn timing() -> (timing: MaintenanceTiming)
    ensures
        timing == (MaintenanceTiming { retry_initial: 20, retry_max: 80, idle_poll: 40 }),
{
    MaintenanceTiming { retry_initial: 20, retry_max: 80, idle_poll: 40 }
}

/// How long the maintenance worker waits before its next cycle.
#[derive(Debug, Clone, Copy, PartialEq, Eq, Structural)]
pub enum MaintenanceWait {
    /// A retry deadline, in milliseconds. New demand does not bring it forward.
    Backoff(u64),
    /// A poll interval, in milliseconds. New demand ends it at once.
    Idle(u64),
}

/// The pace of one maintenance worker.
#[derive(Debug)]
pub struct MaintenancePace {
    timing: MaintenanceTiming,
    delay: u64,
}

/// The smaller of two numbers.
pub open spec fn lesser(a: int, b: int) -> int {
    if a <= b {
        a
    } else {
        b
    }
}

/// The delay after a number of failed cycles in a row: it starts with the
/// initial delay and doubles up to the longest.
pub open spec fn backoff(timing: MaintenanceTiming, failures: nat) -> int
    decreases failures,
{
    if failures == 0 {
        lesser(timing.retry_initial as int, timing.retry_max as int)
    } else {
        lesser(2 * backoff(timing, (failures - 1) as nat), timing.retry_max as int)
    }
}

impl MaintenancePace {
    /// The timing that the worker goes by.
    pub closed spec fn timing(self) -> MaintenanceTiming {
        self.timing
    }

    /// The delay that the next failed cycle brings.
    pub closed spec fn delay(self) -> u64 {
        self.delay
    }

    /// A worker that has not failed yet.
    pub fn new(timing: MaintenanceTiming) -> (pace: MaintenancePace)
        ensures
            pace.timing() == timing,
            pace.delay() == backoff(timing, 0),
    {
        let delay: u64 = if timing.retry_initial <= timing.retry_max {
            timing.retry_initial
        } else {
            timing.retry_max
        };
        MaintenancePace { timing, delay }
    }

    /// How long to wait after a cycle. A cycle without outcome panicked; one that
    /// completed and left the pool short counts as failed, so that neither can
    /// make the worker busy.
    pub fn after_cycle(&mut self, outcome: Option<MaintenanceOutcome>, short: bool) -> (wait:
        MaintenanceWait)
        ensures
            final(self).timing() == old(self).timing(),
            if outcome == Some(MaintenanceOutcome::Complete) && !short {
                wait == MaintenanceWait::Idle(old(self).timing().idle_poll) && final(self).delay()
                    == backoff(old(self).timing(), 0)
            } else {
                wait == MaintenanceWait::Backoff(old(self).delay()) && final(self).delay() == lesser(
                    2 * old(self).delay(),
                    old(self).timing().retry_max as int,
                )
            },
    {
        let complete = match outcome {
            Some(MaintenanceOutcome::Complete) => !short,
            Some(MaintenanceOutcome::Retry) => false,
            None => false,
        };
        if complete {
            self.delay = if self.timing.retry_initial <= self.timing.retry_max {
                self.timing.retry_initial
            } else {
                self.timing.retry_max
            };
            MaintenanceWait::Idle(self.timing.idle_poll)
        } else {
            let wait = MaintenanceWait::Backoff(self.delay);
            let half: u64 = self.timing.retry_max / 2;
            self.delay = if self.delay <= half {
                2 * self.delay
            } else {
                self.timing.retry_max
            };
            wait
        }
    }
}

/// The delay never shrinks while cycles fail and stays within the longest.
pub proof fn law_backoff_grows_to_its_limit(timing: MaintenanceTiming, failures: nat)
    ensures
        0 <= backoff(timing, failures) <= timing.retry_max,
        backoff(timing, failures) <= backoff(timing, failures + 1),
        failures > 0 ==> backoff(timing, (failures - 1) as nat) <= backoff(timing, failures),
    decreases failures,
{
    if failures > 0 {
        law_backoff_grows_to_its_limit(timing, (failures - 1) as nat);
    }
    reveal_with_fuel(backoff, 2);
}

/// A bounded queue of ready entries. The entry that was published first leaves
/// first.
#[derive(Debug)]
pub struct WarmPool<T> {
    entries: Vec<T>,
    config: PoolConfig,
    maintenance_requested: bool,
    shutting_down: bool,
}

impl<T> View for WarmPool<T> {
    type V = Seq<T>;

    closed spec fn view(&self) -> Seq<T> {
        self.entries@
    }
}

impl<T> WarmPool<T> {
    /// The limits of the pool.
    pub closed spec fn limits(self) -> PoolConfig {
        self.config
    }

    /// Whether someone asked for maintenance since it was last taken up.
    pub closed spec fn maintenance_is_requested(self) -> bool {
        self.maintenance_requested
    }

    /// Whether the pool has been drained for good.
    pub closed spec fn is_closed(self) -> bool {
        self.shutting_down
    }

    /// An empty pool.
    pub fn new(config: PoolConfig) -> (pool: Self)
        ensures
            pool@ == Seq::<T>::empty(),
            pool.limits() == config,
            !pool.maintenance_is_requested(),
            !pool.is_closed(),
    {
        WarmPool {
            entries: Vec::new(),
            config,
            maintenance_requested: false,
            shutting_down: false,
        }
    }

    /// The number of ready entries.
    pub fn len(&self) -> (len: usize)
        ensures
            len == self@.len(),
    {
        self.entries.len()
    }

    /// Whether no entry is ready.
    pub fn is_empty(&self) -> (empty: bool)
        ensures
            empty == (self@.len() == 0),
    {
        self.entries.len() == 0
    }

    /// The limits of the pool.
    pub fn config(&self) -> (config: PoolConfig)
        ensures
            config == self.limits(),
    {
        self.config
    }

    /// Whether the pool has been drained for good.
    pub fn is_shutting_down(&self) -> (closed: bool)
        ensures
            closed == self.is_closed(),
    {
        self.shutting_down
    }

    /// Whether a maintenance worker may be started: never for a pool that is not
    /// kept up in the background or has been drained.
    pub fn may_start_maintenance(&self) -> (may: bool)
        ensures
            may == (self.limits().maintenance_enabled && !self.is_closed()),
    {
        self.config.maintenance_enabled && !self.shutting_down
    }

    /// Asks for maintenance.
    pub fn request_maintenance(&mut self)
        ensures
            final(self)@ == old(self)@,
            final(self).limits() == old(self).limits(),
            final(self).is_closed() == old(self).is_closed(),
            final(self).maintenance_is_requested(),
    {
        self.maintenance_requested = true;
    }

    /// Takes up the request for maintenance, if there was one.
    pub fn take_maintenance_request(&mut self) -> (requested: bool)
        ensures
            final(self)@ == old(self)@,
            final(self).limits() == old(self).limits(),
            final(self).is_closed() == old(self).is_closed(),
            requested == old(self).maintenance_is_requested(),
            !final(self).maintenance_is_requested(),
    {
        let requested = self.maintenance_requested;
        self.maintenance_requested = false;
        requested
    }

    /// Takes the entry that has been ready longest.
    pub fn try_acquire(&mut self) -> (entry: Option<T>)
        ensures
            final(self).limits() == old(self).limits(),
            final(self).is_closed() == old(self).is_closed(),
            final(self).maintenance_is_requested() == old(self).maintenance_is_requested(),
            if old(self)@.len() == 0 {
                entry is None && final(self)@ == old(self)@
            } else {
                entry == Some(old(self)@[0]) && final(self)@ == old(self)@.skip(1)
            },
    {
        if self.entries.len() == 0 {
            None
        } else {
            let entry = self.entries.remove(0);
            proof {
                assert(self.entries@ =~= old(self)@.skip(1));
            }
            Some(entry)
        }
    }

    /// Takes one entry to be torn down.
    pub fn try_drain_one(&mut self) -> (entry: Option<T>)
        ensures
            final(self).limits() == old(self).limits(),
            final(self).is_closed() == old(self).is_closed(),
            final(self).maintenance_is_requested() == old(self).maintenance_is_requested(),
            if old(self)@.len() == 0 {
                entry is None && final(self)@ == old(self)@
            } else {
                entry == Some(old(self)@[0]) && final(self)@ == old(self)@.skip(1)
            },
    {
        self.try_acquire()
    }

    /// Publishes an entry, or hands it back when the pool is full.
    pub fn try_push_bounded(&mut self, entry: T) -> (result: Result<(), T>)
        ensures
            final(self).limits() == old(self).limits(),
            final(self).is_closed() == old(self).is_closed(),
            final(self).maintenance_is_requested() == old(self).maintenance_is_requested(),
            if old(self)@.len() < old(self).limits().high_watermark {
                result == Ok::<(), T>(()) && final(self)@ == old(self)@.push(entry)
            } else {
                result == Err::<(), T>(entry) && final(self)@ == old(self)@
            },
    {
        if self.entries.len() < self.config.high_watermark {
            self.entries.push(entry);
            Ok(())
        } else {
            Err(entry)
        }
    }

    /// Closes the pool for good, so that its maintenance comes to an end.
    pub fn close(&mut self)
        ensures
            final(self)@ == old(self)@,
            final(self).limits() == old(self).limits(),
            final(self).maintenance_is_requested() == old(self).maintenance_is_requested(),
            final(self).is_closed(),
    {
        self.shutting_down = true;
    }

    /// Closes the pool for good and takes every entry.
    pub fn drain_all(&mut self) -> (entries: Vec<T>)
        ensures
            entries@ == old(self)@,
            final(self)@ == Seq::<T>::empty(),
            final(self).limits() == old(self).limits(),
            final(self).maintenance_is_requested() == old(self).maintenance_is_requested(),
            final(self).is_closed(),
    {
        self.close();
        let mut entries = Vec::new();
        entries.append(&mut self.entries);
        entries
    }
}

} // verus!
