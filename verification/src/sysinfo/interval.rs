//! How often each group of metrics is refreshed.

use super::token::RefreshType;
use vstd::prelude::*;

verus! {

/// Seconds between refreshes where nothing else is configured.
pub const DEFAULT_SECONDS: u64 = 5;

/// Seconds between refreshes, for each group of metrics.
#[derive(Debug, Clone, Copy)]
pub struct Intervals {
    pub memory: u64,
    pub cpu: u64,
    pub temps: u64,
    pub disks: u64,
    pub networks: u64,
    pub system: u64,
}

impl Default for Intervals {
    fn default() -> (result: Self)
        ensures
            result.memory == 5,
            result.cpu == 5,
            result.temps == 5,
            result.disks == 5,
            result.networks == 5,
            result.system == 5,
    {
        Intervals {
            memory: DEFAULT_SECONDS,
            cpu: DEFAULT_SECONDS,
            temps: DEFAULT_SECONDS,
            disks: DEFAULT_SECONDS,
            networks: DEFAULT_SECONDS,
            system: DEFAULT_SECONDS,
        }
    }
}

/// Seconds between refreshes: one number for all groups, or one for each.
#[derive(Debug, Clone, Copy)]
pub enum Interval {
    All(u64),
    Individual(Intervals),
}

impl Default for Interval {
    fn default() -> (result: Self)
        ensures
            result == Interval::All(5),
    {
        Interval::All(DEFAULT_SECONDS)
    }
}

impl Interval {
    /// Seconds between two refreshes of a group of metrics.
    pub open spec fn period(self, refresh: RefreshType) -> u64 {
        match self {
            Interval::All(seconds) => seconds,
            Interval::Individual(intervals) => match refresh {
                RefreshType::Memory => intervals.memory,
                RefreshType::Cpu => intervals.cpu,
                RefreshType::Temps => intervals.temps,
                RefreshType::Disks => intervals.disks,
                RefreshType::Network => intervals.networks,
                RefreshType::System => intervals.system,
            },
        }
    }

    /// The groups of metrics in the order in which their timers start, each
    /// with the seconds from one refresh of it to the next.
    pub open spec fn schedule(self) -> Seq<(RefreshType, u64)> {
        seq![
            (RefreshType::Memory, self.period(RefreshType::Memory)),
            (RefreshType::Cpu, self.period(RefreshType::Cpu)),
            (RefreshType::Temps, self.period(RefreshType::Temps)),
            (RefreshType::Disks, self.period(RefreshType::Disks)),
            (RefreshType::Network, self.period(RefreshType::Network)),
            (RefreshType::System, self.period(RefreshType::System)),
        ]
    }

    pub fn memory(self) -> (seconds: u64)
        ensures
            seconds == self.period(RefreshType::Memory),
            self matches Interval::All(n) ==> seconds == n,
            self matches Interval::Individual(intervals) ==> seconds == intervals.memory,
    {
        match self {
            Interval::All(n) => n,
            Interval::Individual(intervals) => intervals.memory,
        }
    }

    pub fn cpu(self) -> (seconds: u64)
        ensures
            seconds == self.period(RefreshType::Cpu),
            self matches Interval::All(n) ==> seconds == n,
            self matches Interval::Individual(intervals) ==> seconds == intervals.cpu,
    {
        match self {
            Interval::All(n) => n,
            Interval::Individual(intervals) => intervals.cpu,
        }
    }

    pub fn temps(self) -> (seconds: u64)
        ensures
            seconds == self.period(RefreshType::Temps),
            self matches Interval::All(n) ==> seconds == n,
            self matches Interval::Individual(intervals) ==> seconds == intervals.temps,
    {
        match self {
            Interval::All(n) => n,
            Interval::Individual(intervals) => intervals.temps,
        }
    }

    pub fn disks(self) -> (seconds: u64)
        ensures
            seconds == self.period(RefreshType::Disks),
            self matches Interval::All(n) ==> seconds == n,
            self matches Interval::Individual(intervals) ==> seconds == intervals.disks,
    {
        match self {
            Interval::All(n) => n,
            Interval::Individual(intervals) => intervals.disks,
        }
    }

    pub fn networks(self) -> (seconds: u64)
        ensures
            seconds == self.period(RefreshType::Network),
            self matches Interval::All(n) ==> seconds == n,
            self matches Interval::Individual(intervals) ==> seconds == intervals.networks,
    {
        match self {
            Interval::All(n) => n,
            Interval::Individual(intervals) => intervals.networks,
        }
    }

    pub fn system(self) -> (seconds: u64)
        ensures
            seconds == self.period(RefreshType::System),
            self matches Interval::All(n) ==> seconds == n,
            self matches Interval::Individual(intervals) ==> seconds == intervals.system,
    {
        match self {
            Interval::All(n) => n,
            Interval::Individual(intervals) => intervals.system,
        }
    }

    /// The refresh timers to run.
    pub fn timers(self) -> (timers: Vec<(RefreshType, u64)>)
        ensures
            timers@ == self.schedule(),
            self matches Interval::All(n) ==> timers@ == seq![
                (RefreshType::Memory, n),
                (RefreshType::Cpu, n),
                (RefreshType::Temps, n),
                (RefreshType::Disks, n),
                (RefreshType::Network, n),
                (RefreshType::System, n),
            ],
            self matches Interval::Individual(x) ==> timers@ == seq![
                (RefreshType::Memory, x.memory),
                (RefreshType::Cpu, x.cpu),
                (RefreshType::Temps, x.temps),
                (RefreshType::Disks, x.disks),
                (RefreshType::Network, x.networks),
                (RefreshType::System, x.system),
            ],
    {
        let mut timers: Vec<(RefreshType, u64)> = Vec::new();
        timers.push((RefreshType::Memory, self.memory()));
        timers.push((RefreshType::Cpu, self.cpu()));
        timers.push((RefreshType::Temps, self.temps()));
        timers.push((RefreshType::Disks, self.disks()));
        timers.push((RefreshType::Network, self.networks()));
        timers.push((RefreshType::System, self.system()));
        timers
    }
}

/// A global interval is the same as that interval for every group.
pub proof fn global_interval_is_every_interval(seconds: u64, refresh: RefreshType)
    ensures
        Interval::All(seconds).period(refresh) == Interval::Individual(
            (Intervals {
                memory: seconds,
                cpu: seconds,
                temps: seconds,
                disks: seconds,
                networks: seconds,
                system: seconds,
            }),
        ).period(refresh),
{
}

/// Every group of metrics has exactly one timer, and it runs at that group's
/// interval.
pub proof fn one_timer_for_each_group(interval: Interval, refresh: RefreshType)
    ensures
        exists|i: int|
            0 <= i < interval.schedule().len() && #[trigger] interval.schedule()[i] == (
                refresh,
                interval.period(refresh),
            ),
        forall|i: int, j: int|
            0 <= i < j < interval.schedule().len() ==> (#[trigger] interval.schedule()[i]).0 != (
            #[trigger] interval.schedule()[j]).0,
{
    let schedule = interval.schedule();
    let i: int = match refresh {
        RefreshType::Memory => 0,
        RefreshType::Cpu => 1,
        RefreshType::Temps => 2,
        RefreshType::Disks => 3,
        RefreshType::Network => 4,
        RefreshType::System => 5,
    };
    assert(schedule[i] == (refresh, interval.period(refresh)));
}

/// Each group is refreshed at the seconds configured for it: at those of its own
/// field, or at the global ones.
pub proof fn a_group_has_its_configured_seconds(seconds: u64, intervals: Intervals)
    ensures
        forall|refresh: RefreshType| #[trigger]
            Interval::All(seconds).period(refresh) == seconds,
        Interval::Individual(intervals).period(RefreshType::Memory) == intervals.memory,
        Interval::Individual(intervals).period(RefreshType::Cpu) == intervals.cpu,
        Interval::Individual(intervals).period(RefreshType::Temps) == intervals.temps,
        Interval::Individual(intervals).period(RefreshType::Disks) == intervals.disks,
        Interval::Individual(intervals).period(RefreshType::Network) == intervals.networks,
        Interval::Individual(intervals).period(RefreshType::System) == intervals.system,
{
}

/// The timers run at the configured seconds, one for each group: memory, the
/// processor, temperatures, disks, networks, the system.
pub proof fn timers_run_at_the_configured_seconds(seconds: u64, intervals: Intervals)
    ensures
        forall|i: int|
            0 <= i < Interval::All(seconds).schedule().len() ==> (
            #[trigger] Interval::All(seconds).schedule()[i]).1 == seconds,
        forall|i: int|
            0 <= i < 6 ==> (#[trigger] Interval::All(seconds).schedule()[i]).0
                == Interval::Individual(intervals).schedule()[i].0,
        Interval::All(seconds).schedule().len() == 6,
        Interval::Individual(intervals).schedule() == seq![
            (RefreshType::Memory, intervals.memory),
            (RefreshType::Cpu, intervals.cpu),
            (RefreshType::Temps, intervals.temps),
            (RefreshType::Disks, intervals.disks),
            (RefreshType::Network, intervals.networks),
            (RefreshType::System, intervals.system),
        ],
{
}

} // verus!
