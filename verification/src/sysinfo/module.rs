//! The configuration of the labels.

use super::interval::Interval;
use super::metric::detect_metric;
use super::metric::detected_metric;
use super::states::State;
use super::states::States;
use vstd::prelude::*;

verus! {

/// Which way labels are laid out.
#[derive(Debug, Clone, Copy, PartialEq, Eq, Structural)]
pub enum ModuleOrientation {
    Horizontal,
    Vertical,
}

/// The configuration of a set of labels. The options that every module has,
/// for its layout (`L`) and in common (`C`), are carried along as they are.
#[derive(Debug, Clone)]
pub struct SysInfoModule<L, C> {
    /// Strings with formatting tokens, one for each label.
    pub format: Vec<String>,
    /// Seconds between refreshes.
    pub interval: Interval,
    /// The way the labels are laid out, where the layout options are not to
    /// decide it.
    pub direction: Option<ModuleOrientation>,
    /// Class names with their thresholds. The highest threshold not exceeding
    /// the metric value determines the active class.
    pub states: States,
    /// The metric that the states are judged by. Found from the intervals
    /// where it is not given.
    pub state_metric: Option<String>,
    /// A format string for the tooltip.
    pub tooltip_format: Option<String>,
    pub layout: L,
    pub common: Option<C>,
}

impl<L: Default, C: Default> Default for SysInfoModule<L, C> {
    fn default() -> (result: Self)
        ensures
            result.format@ == Seq::<String>::empty(),
            result.interval == Interval::All(5),
            result.direction is None,
            result.states@ == Seq::<State>::empty(),
            result.state_metric is None,
            result.tooltip_format is None,
            call_ensures(L::default, (), result.layout),
            result.common matches Some(common) && call_ensures(C::default, (), common),
    {
        SysInfoModule {
            format: Vec::new(),
            interval: Interval::default(),
            direction: None,
            states: States::new(),
            state_metric: None,
            tooltip_format: None,
            layout: L::default(),
            common: Some(C::default()),
        }
    }
}

impl<L, C> SysInfoModule<L, C> {
    /// The name of the metric that the states are judged by.
    pub open spec fn metric_name(self) -> Seq<char> {
        match self.state_metric {
            Some(metric) => metric@,
            None => detected_metric(self.interval),
        }
    }

    /// The metric that the states are judged by: the configured one, else the
    /// one that the intervals point to.
    pub fn metric(&self) -> (metric: String)
        ensures
            metric@ == self.metric_name(),
            self.state_metric matches Some(configured) ==> metric@ == configured@,
            self.state_metric is None ==> match self.interval {
                Interval::All(_) => metric@.len() == 0,
                Interval::Individual(x) => {
                    &&& x.cpu != 5 ==> metric@ == "cpu_percent"@
                    &&& x.cpu == 5 && x.memory != 5 ==> metric@ == "memory_percent"@
                    &&& x.cpu == 5 && x.memory == 5 ==> metric@.len() == 0
                },
            },
    {
        match &self.state_metric {
            Some(metric) => metric.clone(),
            None => detect_metric(self.interval),
        }
    }
}

/// A configured metric is the one that counts, whatever the intervals; without
/// one, the intervals decide: the processor where its interval is not five
/// seconds, else memory where its interval is not, else none.
pub proof fn a_configured_metric_comes_first<L, C>(module: SysInfoModule<L, C>)
    ensures
        module.state_metric matches Some(metric) ==> module.metric_name() == metric@,
        module.state_metric is None ==> match module.interval {
            Interval::All(_) => module.metric_name().len() == 0,
            Interval::Individual(x) => {
                &&& x.cpu != 5 ==> module.metric_name() == "cpu_percent"@
                &&& x.cpu == 5 && x.memory != 5 ==> module.metric_name() == "memory_percent"@
                &&& x.cpu == 5 && x.memory == 5 ==> module.metric_name().len() == 0
            },
        },
{
}

} // verus!
