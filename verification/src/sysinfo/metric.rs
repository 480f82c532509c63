//! The metric that the states are judged by.

use super::interval::Interval;
use super::interval::Intervals;
use super::interval::DEFAULT_SECONDS;
use super::token::RefreshType;
use vstd::prelude::*;

verus! {

/// A metric value to take from the system.
#[derive(Debug, Clone, Copy, PartialEq, Eq, Structural)]
pub enum Reading {
    /// Processor use in percent, the mean over all processors.
    CpuPercent,
    /// Memory use in percent.
    MemoryPercent,
}

/// The metric that a set of intervals points to: the one whose interval was
/// changed, the processor before memory. The name is empty where neither was.
pub open spec fn detected_metric(interval: Interval) -> Seq<char> {
    match interval {
        Interval::All(_) => Seq::empty(),
        Interval::Individual(intervals) => if intervals.cpu != DEFAULT_SECONDS {
            "cpu_percent"@
        } else if intervals.memory != DEFAULT_SECONDS {
            "memory_percent"@
        } else {
            Seq::empty()
        },
    }
}

/// Picks a metric from the intervals, for a configuration that names none.
pub fn detect_metric(interval: Interval) -> (metric: String)
    ensures
        metric@ == detected_metric(interval),
        interval is All ==> metric@.len() == 0,
        interval matches Interval::Individual(x) ==> {
            &&& x.cpu != 5 ==> metric@ == "cpu_percent"@
            &&& x.cpu == 5 && x.memory != 5 ==> metric@ == "memory_percent"@
            &&& x.cpu == 5 && x.memory == 5 ==> metric@.len() == 0
        },
{
    if let Interval::Individual(intervals) = interval {
        if intervals.cpu != DEFAULT_SECONDS {
            return "cpu_percent".to_owned();
        }
        if intervals.memory != DEFAULT_SECONDS {
            return "memory_percent".to_owned();
        }
    }
    String::new()
}

/// The value to take for a metric after a refresh, if the refresh renewed it.
pub open spec fn reading_for(metric: Seq<char>, refresh: RefreshType) -> Option<Reading> {
    if metric == "cpu_percent"@ && refresh == RefreshType::Cpu {
        Some(Reading::CpuPercent)
    } else if metric == "memory_percent"@ && refresh == RefreshType::Memory {
        Some(Reading::MemoryPercent)
    } else {
        None
    }
}

/// The value to take for a metric after a refresh, if the refresh renewed it.
pub fn get_state_reading(metric: &String, refresh: RefreshType) -> (result: Option<Reading>)
    ensures
        result == reading_for(metric@, refresh),
        result == Some(Reading::CpuPercent) <==> metric@ == "cpu_percent"@ && refresh
            == RefreshType::Cpu,
        result == Some(Reading::MemoryPercent) <==> metric@ == "memory_percent"@ && refresh
            == RefreshType::Memory,
{
    proof {
        lemma_metric_names_differ();
    }
    if *metric == "cpu_percent".to_owned() {
        if refresh == RefreshType::Cpu {
            Some(Reading::CpuPercent)
        } else {
            None
        }
    } else if *metric == "memory_percent".to_owned() {
        if refresh == RefreshType::Memory {
            Some(Reading::MemoryPercent)
        } else {
            None
        }
    } else {
        None
    }
}

pub(crate) proof fn lemma_metric_names_differ()
    ensures
        "cpu_percent"@ != "memory_percent"@,
        "cpu_percent"@.len() > 0,
        "memory_percent"@.len() > 0,
{
    reveal_strlit("cpu_percent");
    reveal_strlit("memory_percent");
}

/// A metric is read after at most one kind of refresh.
pub proof fn one_refresh_renews_a_metric(metric: Seq<char>, a: RefreshType, b: RefreshType)
    requires
        reading_for(metric, a) is Some,
        reading_for(metric, b) is Some,
    ensures
        a == b,
        reading_for(metric, a) == reading_for(metric, b),
{
    lemma_metric_names_differ();
}

/// A metric without a name is never read.
pub proof fn no_metric_no_reading(refresh: RefreshType)
    ensures
        reading_for(Seq::empty(), refresh) is None,
{
    lemma_metric_names_differ();
}

/// The intervals point to the processor if its interval is not the default of
/// five seconds, be it longer or shorter; else to memory if its interval is not;
/// else to nothing. Other intervals, and a global one, point to nothing.
pub proof fn a_changed_interval_names_the_metric(intervals: Intervals, seconds: u64)
    ensures
        intervals.cpu != 5 ==> detected_metric(Interval::Individual(intervals)) == "cpu_percent"@,
        intervals.cpu == 5 && intervals.memory != 5 ==> detected_metric(
            Interval::Individual(intervals),
        ) == "memory_percent"@,
        intervals.cpu == 5 && intervals.memory == 5 ==> detected_metric(
            Interval::Individual(intervals),
        ).len() == 0,
        detected_metric(Interval::All(seconds)).len() == 0,
{
}

/// The mean processor use is taken after each refresh of the processor where it
/// is the metric, the memory use after each refresh of the memory where that is,
/// and nothing is taken otherwise.
pub proof fn a_metric_is_read_after_its_refresh(metric: Seq<char>, refresh: RefreshType)
    ensures
        reading_for("cpu_percent"@, RefreshType::Cpu) == Some(Reading::CpuPercent),
        reading_for("memory_percent"@, RefreshType::Memory) == Some(Reading::MemoryPercent),
        reading_for(metric, refresh) is Some ==> {
            ||| metric == "cpu_percent"@ && refresh == RefreshType::Cpu
            ||| metric == "memory_percent"@ && refresh == RefreshType::Memory
        },
{
    lemma_metric_names_differ();
}

} // verus!
