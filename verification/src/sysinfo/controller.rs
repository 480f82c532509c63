//! The sequence of work that keeps the labels up to date.
//!
//! A controller always has one action pending. The application performs it,
//! answers with what came of it, and the controller moves on. At first every
//! label gets an update; then the refresh timers start, and each tick of a
//! timer runs one cycle: refresh the metrics, judge the state, render the
//! tooltip, and update the labels concerned.

use super::metric::get_state_reading;
use super::metric::reading_for;
use super::metric::Reading;
use super::module::SysInfoModule;
use super::states::judge;
use super::states::judgement;
use super::states::StateChange;
use super::states::States;
use super::token::affected;
use super::token::changed_by;
use super::token::has_token;
use super::token::names_metric;
use super::token::Part;
use super::token::RefreshType;
use crate::binary64::Binary64;
use vstd::prelude::*;

verus! {

/// What a label is told: its index, its text, what becomes of its state classes,
/// and its tooltip, which stays as it is where there is none.
pub type SysInfoUpdate = (usize, String, StateChange, Option<String>);

/// Something for the application to do.
#[derive(Debug)]
pub enum Action {
    /// Render the format string of a label.
    RenderLabel(usize),
    /// Render the format string of the tooltip.
    RenderTooltip,
    /// Hand an update to the labels without waiting for it to be taken.
    PostUpdate(SysInfoUpdate),
    /// Start the refresh timers.
    StartTimers,
    /// Wait for a tick of a refresh timer.
    AwaitRefresh,
    /// Refresh a group of metrics.
    Refresh(RefreshType),
    /// Take the current value of a metric.
    TakeReading(Reading),
    /// Hand an update to the labels and wait until it is taken.
    SendUpdate(SysInfoUpdate),
    /// Nothing is left to do.
    Stop,
}

/// What came of an action.
#[derive(Debug)]
pub enum Event {
    /// It is done.
    Done,
    /// The text that was rendered.
    Text(String),
    /// A timer asks for a refresh.
    Refresh(RefreshType),
    /// No timer is left to wait for.
    Closed,
    /// The value that was taken.
    Reading(Binary64),
}

/// What one refresh has found out before the labels are updated.
#[derive(Debug)]
pub struct Cycle {
    pub refresh: RefreshType,
    pub state: StateChange,
    pub tooltip: Option<String>,
}

/// How far the work has come.
#[derive(Debug)]
pub enum Phase {
    /// The first text of a label is being rendered.
    FirstText { label: usize },
    /// The tooltip for the first update of a label is being rendered.
    FirstTooltip { label: usize, text: String },
    /// The first update of a label is being handed over.
    FirstUpdate { label: usize, text: String, tooltip: Option<String> },
    /// The refresh timers are being started.
    Timers,
    /// Between two refreshes.
    Idle,
    /// A group of metrics is being refreshed.
    Refreshing { refresh: RefreshType },
    /// The value of the state metric is being taken.
    Judging { refresh: RefreshType, reading: Reading },
    /// The tooltip is being rendered.
    Tooltip { refresh: RefreshType, state: StateChange },
    /// The text of a label is being rendered.
    Text { cycle: Cycle, label: usize },
    /// The update of a label is being handed over.
    Update { cycle: Cycle, label: usize, text: String },
    /// The timers are gone.
    Stopped,
}

/// What the controller works with, fixed from the start.
#[derive(Debug)]
pub struct Setup {
    /// The parsed format string of each label.
    pub formats: Vec<Vec<Part>>,
    /// Whether there is a tooltip.
    pub tooltip: bool,
    pub states: States,
    /// The metric that the states are judged by; empty for none.
    pub state_metric: String,
}

impl Setup {
    /// Whether any label shows a metric.
    pub open spec fn any_token(self) -> bool {
        exists|i: int| 0 <= i < self.formats@.len() && has_token(#[trigger] self.formats@[i]@)
    }

    /// The value to take after a refresh to judge the state by, if any.
    pub open spec fn wanted_reading(self, refresh: RefreshType) -> Option<Reading> {
        if self.states@.len() > 0 && self.state_metric@.len() > 0 {
            reading_for(self.state_metric@, refresh)
        } else {
            None
        }
    }

    /// Whether a refresh calls for an update of a label: it shows a metric that
    /// was refreshed, or the state was judged, or there is a tooltip to renew
    /// while no label shows any metric.
    pub open spec fn concerned(self, cycle: Cycle, label: int) -> bool {
        ||| affected(self.formats@[label]@, cycle.refresh)
        ||| cycle.state != StateChange::Keep
        ||| !self.any_token() && cycle.tooltip is Some
    }

    /// The first label from `from` on that a refresh calls to update.
    pub open spec fn next_label(self, cycle: Cycle, from: int) -> Option<int>
        decreases self.formats@.len() - from,
    {
        if from >= self.formats@.len() {
            None
        } else if self.concerned(cycle, from) {
            Some(from)
        } else {
            self.next_label(cycle, from + 1)
        }
    }

    /// Where to go on once the labels before `from` have had their first update.
    pub open spec fn first_from(self, from: int) -> Phase {
        if from < self.formats@.len() {
            Phase::FirstText { label: from as usize }
        } else {
            Phase::Timers
        }
    }

    /// Where to go on once the state is known.
    pub open spec fn judged(self, refresh: RefreshType, state: StateChange) -> Phase {
        if self.tooltip {
            Phase::Tooltip { refresh, state }
        } else {
            self.update_from(Cycle { refresh, state, tooltip: None }, 0)
        }
    }

    /// Where to go on once the labels before `from` are up to date.
    pub open spec fn update_from(self, cycle: Cycle, from: int) -> Phase {
        match self.next_label(cycle, from) {
            Some(label) => Phase::Text { cycle, label: label as usize },
            None => Phase::Idle,
        }
    }

    /// The phase that follows when an action is answered; none if the answer
    /// is not one to the pending action.
    pub open spec fn next(self, phase: Phase, event: Event) -> Option<Phase> {
        match (phase, event) {
            (Phase::FirstText { label }, Event::Text(text)) => if self.tooltip {
                Some(Phase::FirstTooltip { label, text })
            } else {
                Some(Phase::FirstUpdate { label, text, tooltip: None })
            },
            (Phase::FirstTooltip { label, text }, Event::Text(tooltip)) => Some(
                Phase::FirstUpdate { label, text, tooltip: Some(tooltip) },
            ),
            (Phase::FirstUpdate { label, text: _, tooltip: _ }, Event::Done) => Some(
                self.first_from(label + 1),
            ),
            (Phase::Timers, Event::Done) => Some(Phase::Idle),
            (Phase::Idle, Event::Refresh(refresh)) => Some(Phase::Refreshing { refresh }),
            (Phase::Idle, Event::Closed) => Some(Phase::Stopped),
            (Phase::Refreshing { refresh }, Event::Done) => match self.wanted_reading(refresh) {
                Some(reading) => Some(Phase::Judging { refresh, reading }),
                None => Some(self.judged(refresh, StateChange::Keep)),
            },
            (Phase::Judging { refresh, reading: _ }, Event::Reading(value)) => Some(
                self.judged(refresh, judgement(self.states@, value)),
            ),
            (Phase::Tooltip { refresh, state }, Event::Text(tooltip)) => Some(
                self.update_from(Cycle { refresh, state, tooltip: Some(tooltip) }, 0),
            ),
            (Phase::Text { cycle, label }, Event::Text(text)) => Some(
                Phase::Update { cycle, label, text },
            ),
            (Phase::Update { cycle, label, text: _ }, Event::Done) => Some(
                self.update_from(cycle, label + 1),
            ),
            _ => None,
        }
    }

    /// Whether the phase speaks of labels that there are.
    pub open spec fn in_range(self, phase: Phase) -> bool {
        match phase {
            Phase::FirstText { label }
            | Phase::FirstTooltip { label, text: _ }
            | Phase::FirstUpdate { label, text: _, tooltip: _ }
            | Phase::Text { cycle: _, label }
            | Phase::Update { cycle: _, label, text: _ } => label < self.formats@.len(),
            _ => true,
        }
    }
}

/// The action that is pending in a phase.
pub open spec fn pending(phase: Phase) -> Action {
    match phase {
        Phase::FirstText { label } => Action::RenderLabel(label),
        Phase::FirstTooltip { label: _, text: _ } => Action::RenderTooltip,
        Phase::FirstUpdate { label, text, tooltip } => Action::PostUpdate(
            (label, text, StateChange::Keep, tooltip),
        ),
        Phase::Timers => Action::StartTimers,
        Phase::Idle => Action::AwaitRefresh,
        Phase::Refreshing { refresh } => Action::Refresh(refresh),
        Phase::Judging { refresh: _, reading } => Action::TakeReading(reading),
        Phase::Tooltip { refresh: _, state: _ } => Action::RenderTooltip,
        Phase::Text { cycle: _, label } => Action::RenderLabel(label),
        Phase::Update { cycle, label, text } => Action::SendUpdate(
            (label, text, cycle.state, cycle.tooltip),
        ),
        Phase::Stopped => Action::Stop,
    }
}

/// The label that an action is about, if any.
pub open spec fn label_of(action: Action) -> Option<usize> {
    match action {
        Action::RenderLabel(label) => Some(label),
        Action::PostUpdate(update) => Some(update.0),
        Action::SendUpdate(update) => Some(update.0),
        _ => None,
    }
}

impl Cycle {
    fn copy(&self) -> (result: Cycle)
        ensures
            result == *self,
    {
        Cycle {
            refresh: self.refresh,
            state: self.state.clone(),
            tooltip: copy_text(&self.tooltip),
        }
    }
}

fn copy_text(text: &Option<String>) -> (result: Option<String>)
    ensures
        result == *text,
{
    match text {
        Some(text) => Some(text.clone()),
        None => None,
    }
}

impl Setup {
    /// Whether any label shows a metric.
    fn has_tokens(&self) -> (result: bool)
        ensures
            result == self.any_token(),
    {
        for i in 0..self.formats.len()
            invariant
                forall|j: int| 0 <= j < i ==> !has_token(#[trigger] self.formats@[j]@),
        {
            if names_metric(&self.formats[i]) {
                return true;
            }
        }
        false
    }

    fn is_concerned(&self, cycle: &Cycle, label: usize) -> (result: bool)
        requires
            label < self.formats@.len(),
        ensures
            result == self.concerned(*cycle, label as int),
    {
        changed_by(&self.formats[label], cycle.refresh) || !matches!(cycle.state, StateChange::Keep) || (
        cycle.tooltip.is_some() && !self.has_tokens())
    }

    fn go_to_first(&self, from: usize) -> (phase: Phase)
        ensures
            phase == self.first_from(from as int),
    {
        if from < self.formats.len() {
            Phase::FirstText { label: from }
        } else {
            Phase::Timers
        }
    }

    fn go_to_update(&self, cycle: Cycle, from: usize) -> (phase: Phase)
        requires
            from <= self.formats@.len(),
        ensures
            phase == self.update_from(cycle, from as int),
            self.in_range(phase),
    {
        let mut label: usize = from;
        while label < self.formats.len()
            invariant
                label <= self.formats@.len(),
                self.next_label(cycle, label as int) == self.next_label(cycle, from as int),
            decreases self.formats@.len() - label,
        {
            if self.is_concerned(&cycle, label) {
                return Phase::Text { cycle, label };
            }
            label += 1;
        }
        Phase::Idle
    }

    fn go_to_judged(&self, refresh: RefreshType, state: StateChange) -> (phase: Phase)
        ensures
            phase == self.judged(refresh, state),
            self.in_range(phase),
    {
        if self.tooltip {
            Phase::Tooltip { refresh, state }
        } else {
            self.go_to_update(Cycle { refresh, state, tooltip: None }, 0)
        }
    }

    fn reading_wanted(&self, refresh: RefreshType) -> (result: Option<Reading>)
        ensures
            result == self.wanted_reading(refresh),
    {
        if !self.states.is_empty() && !self.state_metric.as_str().is_empty() {
            get_state_reading(&self.state_metric, refresh)
        } else {
            None
        }
    }

    fn follow(&self, phase: &Phase, event: Event) -> (result: Option<Phase>)
        requires
            self.in_range(*phase),
        ensures
            result == self.next(*phase, event),
            result matches Some(next) ==> self.in_range(next),
    {
        assert(self.formats@.len() == self.formats.len());
        match (phase, event) {
            (Phase::FirstText { label }, Event::Text(text)) => if self.tooltip {
                Some(Phase::FirstTooltip { label: *label, text })
            } else {
                Some(Phase::FirstUpdate { label: *label, text, tooltip: None })
            },
            (Phase::FirstTooltip { label, text }, Event::Text(tooltip)) => Some(
                Phase::FirstUpdate { label: *label, text: text.clone(), tooltip: Some(tooltip) },
            ),
            (Phase::FirstUpdate { label, text: _, tooltip: _ }, Event::Done) => Some(
                self.go_to_first(*label + 1),
            ),
            (Phase::Timers, Event::Done) => Some(Phase::Idle),
            (Phase::Idle, Event::Refresh(refresh)) => Some(Phase::Refreshing { refresh }),
            (Phase::Idle, Event::Closed) => Some(Phase::Stopped),
            (Phase::Refreshing { refresh }, Event::Done) => match self.reading_wanted(*refresh) {
                Some(reading) => Some(Phase::Judging { refresh: *refresh, reading }),
                None => Some(self.go_to_judged(*refresh, StateChange::Keep)),
            },
            (Phase::Judging { refresh, reading: _ }, Event::Reading(value)) => Some(
                self.go_to_judged(*refresh, judge(&self.states, value)),
            ),
            (Phase::Tooltip { refresh, state }, Event::Text(tooltip)) => {
                let cycle = Cycle {
                    refresh: *refresh,
                    state: state.clone(),
                    tooltip: Some(tooltip),
                };
                Some(self.go_to_update(cycle, 0))
            },
            (Phase::Text { cycle, label }, Event::Text(text)) => Some(
                Phase::Update { cycle: cycle.copy(), label: *label, text },
            ),
            (Phase::Update { cycle, label, text: _ }, Event::Done) => Some(
                self.go_to_update(cycle.copy(), *label + 1),
            ),
            _ => None,
        }
    }
}

/// Keeps a set of labels up to date.
#[derive(Debug)]
pub struct SysInfoController {
    setup: Setup,
    phase: Phase,
}

impl SysInfoController {
    /// What the controller works with.
    pub closed spec fn setup(self) -> Setup {
        self.setup
    }

    /// How far the work has come.
    pub closed spec fn phase(self) -> Phase {
        self.phase
    }

    /// The phase speaks of labels that there are.
    #[verifier::type_invariant]
    spec fn well_formed(self) -> bool {
        self.setup.in_range(self.phase)
    }

    /// The action that is pending.
    pub fn action(&self) -> (action: Action)
        ensures
            action == pending(self.phase()),
            label_of(action) matches Some(label) ==> label < self.setup().formats@.len(),
    {
        proof {
            use_type_invariant(self);
        }
        match &self.phase {
            Phase::FirstText { label } => Action::RenderLabel(*label),
            Phase::FirstTooltip { label: _, text: _ } => Action::RenderTooltip,
            Phase::FirstUpdate { label, text, tooltip } => Action::PostUpdate(
                (*label, text.clone(), StateChange::Keep, copy_text(tooltip)),
            ),
            Phase::Timers => Action::StartTimers,
            Phase::Idle => Action::AwaitRefresh,
            Phase::Refreshing { refresh } => Action::Refresh(*refresh),
            Phase::Judging { refresh: _, reading } => Action::TakeReading(*reading),
            Phase::Tooltip { refresh: _, state: _ } => Action::RenderTooltip,
            Phase::Text { cycle: _, label } => Action::RenderLabel(*label),
            Phase::Update { cycle, label, text } => Action::SendUpdate(
                (*label, text.clone(), cycle.state.clone(), copy_text(&cycle.tooltip)),
            ),
            Phase::Stopped => Action::Stop,
        }
    }

    /// Takes the answer to the pending action and moves on. An event that does
    /// not answer that action is refused, and the action stays pending.
    pub fn answer(&mut self, event: Event) -> (accepted: bool)
        ensures
            final(self).setup() == old(self).setup(),
            accepted == (old(self).setup().next(old(self).phase(), event) is Some),
            final(self).phase() == match old(self).setup().next(old(self).phase(), event) {
                Some(next) => next,
                None => old(self).phase(),
            },
    {
        proof {
            use_type_invariant(&*self);
        }
        match self.setup.follow(&self.phase, event) {
            Some(phase) => {
                self.phase = phase;
                true
            },
            None => false,
        }
    }
}

/// Whether the parser can give this result for this text.
pub open spec fn parses<E, P: Fn(&str) -> Result<Vec<Part>, E>>(
    parse: P,
    text: Seq<char>,
    result: Result<Vec<Part>, E>,
) -> bool {
    exists|s: &str| s@ == text && #[trigger] call_ensures(parse, (s,), result)
}

/// Whether the parser can take this text.
pub open spec fn accepts<E, P: Fn(&str) -> Result<Vec<Part>, E>>(
    parse: P,
    text: Seq<char>,
) -> bool {
    exists|parts: Vec<Part>| parses::<E, P>(parse, text, Ok(parts))
}

impl<L, C> SysInfoModule<L, C> {
    /// Whether the parser can take each of the first `n` format strings.
    pub open spec fn parsed<E, P: Fn(&str) -> Result<Vec<Part>, E>>(
        self,
        parse: P,
        n: int,
    ) -> bool {
        forall|i: int| 0 <= i < n ==> accepts::<E, P>(parse, (#[trigger] self.format@[i])@)
    }

    /// Whether the parser can fail with this error at the `n`th format string,
    /// the tooltip counting as the one after those of the labels.
    pub open spec fn fails_at<E, P: Fn(&str) -> Result<Vec<Part>, E>>(
        self,
        parse: P,
        n: int,
        error: E,
    ) -> bool {
        if n < self.format@.len() {
            parses(parse, self.format@[n]@, Err(error))
        } else {
            &&& n == self.format@.len()
            &&& self.tooltip_format matches Some(format)
            &&& parses(parse, format@, Err(error))
        }
    }

    /// Whether this error can come from the first format string that does not
    /// parse.
    pub open spec fn first_error<E, P: Fn(&str) -> Result<Vec<Part>, E>>(
        self,
        parse: P,
        error: E,
    ) -> bool {
        exists|n: int|
            0 <= n && self.parsed::<E, P>(parse, n) && #[trigger] self.fails_at(parse, n, error)
    }

    /// A controller for these labels. The format strings are parsed in order,
    /// that of the tooltip last; the first error ends it.
    pub fn controller<E, P: Fn(&str) -> Result<Vec<Part>, E>>(&self, parse: P) -> (result: Result<
        SysInfoController,
        E,
    >)
        requires
            forall|s: &str| call_requires(parse, (s,)),
        ensures
            result matches Ok(controller) ==> {
                let setup = controller.setup();
                &&& setup.formats@.len() == self.format@.len()
                &&& forall|i: int|
                    0 <= i < self.format@.len() ==> parses(
                        parse,
                        self.format@[i]@,
                        Ok(#[trigger] setup.formats@[i]),
                    )
                &&& match self.tooltip_format {
                    Some(format) => setup.tooltip && accepts::<E, P>(parse, format@),
                    None => !setup.tooltip,
                }
                &&& setup.states@ == self.states@
                &&& setup.state_metric@ == self.metric_name()
                &&& controller.phase() == setup.first_from(0)
            },
            result matches Err(error) ==> self.first_error(parse, error),
            result matches Ok(controller) ==> {
                let setup = controller.setup();
                &&& setup.tooltip == self.tooltip_format is Some
                &&& self.state_metric matches Some(metric) ==> setup.state_metric@ == metric@
                &&& self.format@.len() > 0 ==> controller.phase() == (Phase::FirstText {
                    label: 0,
                })
                &&& self.format@.len() == 0 ==> controller.phase() == Phase::Timers
            },
    {
        let mut formats: Vec<Vec<Part>> = Vec::new();
        for i in 0..self.format.len()
            invariant
                forall|s: &str| call_requires(parse, (s,)),
                formats@.len() == i,
                forall|j: int|
                    0 <= j < i ==> parses(parse, self.format@[j]@, Ok(#[trigger] formats@[j])),
        {
            let text: &str = self.format[i].as_str();
            match parse(text) {
                Ok(parts) => {
                    assert(parses(parse, self.format@[i as int]@, Ok(parts)));
                    formats.push(parts);
                },
                Err(error) => {
                    proof {
                        lemma_parsed(*self, parse, formats@);
                        assert(self.fails_at(parse, i as int, error));
                    }
                    return Err(error);
                },
            }
        }
        let tooltip: bool = match &self.tooltip_format {
            Some(format) => match parse(format.as_str()) {
                Ok(parts) => {
                    assert(parses(parse, format@, Ok(parts)));
                    true
                },
                Err(error) => {
                    proof {
                        lemma_parsed(*self, parse, formats@);
                        assert(self.fails_at(parse, self.format@.len() as int, error));
                    }
                    return Err(error);
                },
            },
            None => false,
        };
        let setup = Setup {
            formats,
            tooltip,
            states: self.states.clone(),
            state_metric: self.metric(),
        };
        let phase = setup.go_to_first(0);
        Ok(SysInfoController { setup, phase })
    }
}

proof fn lemma_parsed<L, C, E, P: Fn(&str) -> Result<Vec<Part>, E>>(
    module: SysInfoModule<L, C>,
    parse: P,
    formats: Seq<Vec<Part>>,
)
    requires
        forall|j: int|
            0 <= j < formats.len() ==> parses(
                parse,
                module.format@[j]@,
                Ok(#[trigger] formats[j]),
            ),
    ensures
        module.parsed(parse, formats.len() as int),
{
    assert forall|i: int| 0 <= i < formats.len() implies accepts::<E, P>(
        parse,
        (#[trigger] module.format@[i])@,
    ) by {
        assert(parses::<E, P>(parse, module.format@[i]@, Ok(formats[i])));
    }
}

/// The parser is given the text as it stands.
pub proof fn a_text_is_parsed_as_it_stands<E, P: Fn(&str) -> Result<Vec<Part>, E>>(
    parse: P,
    text: Seq<char>,
    result: Result<Vec<Part>, E>,
)
    ensures
        parses(parse, text, result) <==> exists|s: &str|
            s@ == text && #[trigger] call_ensures(parse, (s,), result),
        accepts::<E, P>(parse, text) <==> exists|s: &str, parts: Vec<Part>|
            s@ == text && #[trigger] call_ensures(parse, (s,), Ok(parts)),
{
    if accepts::<E, P>(parse, text) {
        let parts = choose|parts: Vec<Part>| parses::<E, P>(parse, text, Ok(parts));
        let s = choose|s: &str| s@ == text && #[trigger] call_ensures(parse, (s,), Ok(parts));
        assert(s@ == text && call_ensures(parse, (s,), Ok(parts)));
    }
    if exists|s: &str, parts: Vec<Part>|
        s@ == text && #[trigger] call_ensures(parse, (s,), Ok(parts)) {
        let (s, parts) = choose|s: &str, parts: Vec<Part>|
            s@ == text && #[trigger] call_ensures(parse, (s,), Ok(parts));
        assert(parses::<E, P>(parse, text, Ok(parts)));
    }
}

/// The error that is reported is that of the first format string that does not parse:
/// all those before it do. The format string of the tooltip comes after those of all
/// labels. The result is the place of the one that fails.
pub proof fn the_first_error_is_reported<L, C, E, P: Fn(&str) -> Result<Vec<Part>, E>>(
    module: SysInfoModule<L, C>,
    parse: P,
    error: E,
) -> (n: int)
    requires
        module.first_error(parse, error),
    ensures
        0 <= n <= module.format@.len(),
        n < module.format@.len() ==> parses(parse, module.format@[n]@, Err(error)),
        n == module.format@.len() ==> {
            &&& module.tooltip_format matches Some(format)
            &&& parses(parse, format@, Err(error))
        },
        forall|i: int| 0 <= i < n ==> accepts::<E, P>(parse, (#[trigger] module.format@[i])@),
{
    choose|n: int|
        0 <= n && module.parsed::<E, P>(parse, n) && #[trigger] module.fails_at(parse, n, error)
}

} // verus!
