//! What the controller does over whole stretches of work.

use super::controller::label_of;
use super::controller::pending;
use super::controller::Action;
use super::controller::Cycle;
use super::controller::Event;
use super::controller::Phase;
use super::controller::Setup;
use super::controller::SysInfoUpdate;
use super::states::active;
use super::states::judgement;
use super::states::StateChange;
use super::token::affected;
use super::token::has_token;
use super::token::metrics_are_refreshed;
use super::token::RefreshType;
use crate::binary64::Binary64;
use vstd::prelude::*;

verus! {

/// The phase after a sequence of answers; none if one of them was refused.
pub open spec fn run(setup: Setup, phase: Phase, events: Seq<Event>) -> Option<Phase>
    decreases events.len(),
{
    if events.len() == 0 {
        Some(phase)
    } else {
        match setup.next(phase, events[0]) {
            Some(next) => run(setup, next, events.drop_first()),
            None => None,
        }
    }
}

/// The actions that a sequence of answers is given to.
pub open spec fn log(setup: Setup, phase: Phase, events: Seq<Event>) -> Seq<Action>
    decreases events.len(),
{
    if events.len() == 0 {
        Seq::empty()
    } else {
        match setup.next(phase, events[0]) {
            Some(next) => seq![pending(phase)] + log(setup, next, events.drop_first()),
            None => Seq::empty(),
        }
    }
}

/// One answer at the head of a sequence.
proof fn lemma_step(setup: Setup, phase: Phase, event: Event, rest: Seq<Event>)
    requires
        setup.next(phase, event) is Some,
    ensures
        run(setup, phase, seq![event] + rest) == run(
            setup,
            setup.next(phase, event)->0,
            rest,
        ),
        log(setup, phase, seq![event] + rest) == seq![pending(phase)] + log(
            setup,
            setup.next(phase, event)->0,
            rest,
        ),
{
    let events = seq![event] + rest;
    assert(events[0] == event);
    assert(events.drop_first() =~= rest);
}

/// The labels from `from` on that a refresh calls to update, in order.
pub open spec fn concerned_from(setup: Setup, cycle: Cycle, from: int) -> Seq<int>
    decreases setup.formats@.len() - from,
{
    if from >= setup.formats@.len() {
        Seq::empty()
    } else if setup.concerned(cycle, from) {
        seq![from] + concerned_from(setup, cycle, from + 1)
    } else {
        concerned_from(setup, cycle, from + 1)
    }
}

/// The update that a refresh sends to a label with a given text.
pub open spec fn update_of(cycle: Cycle, label: int, text: String) -> SysInfoUpdate {
    (label as usize, text, cycle.state, cycle.tooltip)
}

/// The answers to the work on some labels, each rendering to its text.
pub open spec fn label_events(labels: Seq<int>, text: spec_fn(int) -> String) -> Seq<Event>
    decreases labels.len(),
{
    if labels.len() == 0 {
        Seq::empty()
    } else {
        seq![Event::Text(text(labels[0]))] + (seq![Event::Done] + label_events(
            labels.drop_first(),
            text,
        ))
    }
}

/// The work on some labels: each is rendered and then sent its update.
pub open spec fn label_log(cycle: Cycle, labels: Seq<int>, text: spec_fn(int) -> String) -> Seq<
    Action,
>
    decreases labels.len(),
{
    if labels.len() == 0 {
        Seq::empty()
    } else {
        seq![Action::RenderLabel(labels[0] as usize)] + (seq![
            Action::SendUpdate(update_of(cycle, labels[0], text(labels[0]))),
        ] + label_log(cycle, labels.drop_first(), text))
    }
}

/// What a refresh finds out, given the value that the state metric would have
/// and the text that the tooltip would render to.
pub open spec fn cycle_of(
    setup: Setup,
    refresh: RefreshType,
    value: Binary64,
    tooltip: String,
) -> Cycle {
    Cycle {
        refresh,
        state: if setup.wanted_reading(refresh) is Some {
            judgement(setup.states@, value)
        } else {
            StateChange::Keep
        },
        tooltip: if setup.tooltip {
            Some(tooltip)
        } else {
            None
        },
    }
}

/// The answers to the work of one refresh.
pub open spec fn cycle_events(
    setup: Setup,
    refresh: RefreshType,
    value: Binary64,
    tooltip: String,
    text: spec_fn(int) -> String,
) -> Seq<Event> {
    let labels = concerned_from(setup, cycle_of(setup, refresh, value, tooltip), 0);
    let tail = label_events(labels, text);
    let shown = if setup.tooltip {
        seq![Event::Text(tooltip)] + tail
    } else {
        tail
    };
    let judged = if setup.wanted_reading(refresh) is Some {
        seq![Event::Reading(value)] + shown
    } else {
        shown
    };
    seq![Event::Refresh(refresh)] + (seq![Event::Done] + judged)
}

/// The work of one refresh: the metrics are refreshed; the state metric is read
/// if the refresh renewed it and there are states; the tooltip is rendered once
/// if there is one; then each label concerned gets its update.
pub open spec fn cycle_log(
    setup: Setup,
    refresh: RefreshType,
    value: Binary64,
    tooltip: String,
    text: spec_fn(int) -> String,
) -> Seq<Action> {
    let cycle = cycle_of(setup, refresh, value, tooltip);
    let tail = label_log(cycle, concerned_from(setup, cycle, 0), text);
    let shown = if setup.tooltip {
        seq![Action::RenderTooltip] + tail
    } else {
        tail
    };
    let judged = match setup.wanted_reading(refresh) {
        Some(reading) => seq![Action::TakeReading(reading)] + shown,
        None => shown,
    };
    seq![Action::AwaitRefresh] + (seq![Action::Refresh(refresh)] + judged)
}

proof fn lemma_next_label(setup: Setup, cycle: Cycle, from: int)
    requires
        0 <= from,
    ensures
        match setup.next_label(cycle, from) {
            Some(label) => {
                &&& from <= label < setup.formats@.len()
                &&& concerned_from(setup, cycle, from) == seq![label] + concerned_from(
                    setup,
                    cycle,
                    label + 1,
                )
            },
            None => concerned_from(setup, cycle, from) == Seq::<int>::empty(),
        },
    decreases setup.formats@.len() - from,
{
    if from < setup.formats@.len() && !setup.concerned(cycle, from) {
        lemma_next_label(setup, cycle, from + 1);
    }
}

proof fn lemma_labels_run(setup: Setup, cycle: Cycle, from: int, text: spec_fn(int) -> String)
    requires
        0 <= from,
    ensures
        run(
            setup,
            setup.update_from(cycle, from),
            label_events(concerned_from(setup, cycle, from), text),
        ) == Some(Phase::Idle),
        log(
            setup,
            setup.update_from(cycle, from),
            label_events(concerned_from(setup, cycle, from), text),
        ) == label_log(cycle, concerned_from(setup, cycle, from), text),
    decreases setup.formats@.len() - from,
{
    lemma_next_label(setup, cycle, from);
    let labels = concerned_from(setup, cycle, from);
    match setup.next_label(cycle, from) {
        Some(label) => {
            assert(setup.formats@.len() == setup.formats.len());
            let rest = concerned_from(setup, cycle, label + 1);
            assert(labels.drop_first() =~= rest);
            assert(labels[0] == label);
            lemma_labels_run(setup, cycle, label + 1, text);
            let first = Phase::Text { cycle, label: label as usize };
            let second = Phase::Update { cycle, label: label as usize, text: text(label) };
            let tail = label_events(rest, text);
            lemma_step(setup, second, Event::Done, tail);
            lemma_step(setup, first, Event::Text(text(label)), seq![Event::Done] + tail);
        },
        None => {},
    }
}

/// One refresh, from the wait for it to the next wait, does exactly the work of
/// `cycle_log`, whatever value is read and whatever is rendered.
pub proof fn a_refresh_does_its_work(
    setup: Setup,
    refresh: RefreshType,
    value: Binary64,
    tooltip: String,
    text: spec_fn(int) -> String,
)
    ensures
        run(setup, Phase::Idle, cycle_events(setup, refresh, value, tooltip, text)) == Some(
            Phase::Idle,
        ),
        log(setup, Phase::Idle, cycle_events(setup, refresh, value, tooltip, text)) == cycle_log(
            setup,
            refresh,
            value,
            tooltip,
            text,
        ),
{
    let cycle = cycle_of(setup, refresh, value, tooltip);
    let tail = label_events(concerned_from(setup, cycle, 0), text);
    lemma_labels_run(setup, cycle, 0, text);
    let judged = setup.judged(refresh, cycle.state);
    let shown_events = if setup.tooltip {
        seq![Event::Text(tooltip)] + tail
    } else {
        tail
    };
    if setup.tooltip {
        lemma_step(setup, judged, Event::Text(tooltip), tail);
    }
    let judged_events = match setup.wanted_reading(refresh) {
        Some(reading) => {
            let phase = Phase::Judging { refresh, reading };
            lemma_step(setup, phase, Event::Reading(value), shown_events);
            seq![Event::Reading(value)] + shown_events
        },
        None => shown_events,
    };
    lemma_step(setup, Phase::Refreshing { refresh }, Event::Done, judged_events);
    lemma_step(
        setup,
        Phase::Idle,
        Event::Refresh(refresh),
        seq![Event::Done] + judged_events,
    );
}

/// The labels that a refresh updates are those it concerns, each once, in
/// ascending order.
pub proof fn each_concerned_label_is_updated_once(setup: Setup, cycle: Cycle, from: int)
    requires
        0 <= from,
    ensures
        forall|label: int| #[trigger]
            concerned_from(setup, cycle, from).contains(label) <==> from <= label
                < setup.formats@.len() && setup.concerned(cycle, label),
        forall|i: int, j: int|
            0 <= i < j < concerned_from(setup, cycle, from).len() ==> #[trigger] concerned_from(
                setup,
                cycle,
                from,
            )[i] < #[trigger] concerned_from(setup, cycle, from)[j],
    decreases setup.formats@.len() - from,
{
    let labels = concerned_from(setup, cycle, from);
    if from < setup.formats@.len() {
        each_concerned_label_is_updated_once(setup, cycle, from + 1);
        let rest = concerned_from(setup, cycle, from + 1);
        assert forall|i: int| 0 <= i < rest.len() implies from < #[trigger] rest[i] by {
            assert(rest.contains(rest[i]));
        }
        if setup.concerned(cycle, from) {
            assert forall|label: int| #[trigger] labels.contains(label) <==> from <= label
                < setup.formats@.len() && setup.concerned(cycle, label) by {
                if rest.contains(label) {
                    let k = choose|k: int| 0 <= k < rest.len() && rest[k] == label;
                    assert(labels[k + 1] == label);
                }
                if label == from {
                    assert(labels[0] == label);
                }
                if labels.contains(label) {
                    let k = choose|k: int| 0 <= k < labels.len() && labels[k] == label;
                    if k > 0 {
                        assert(rest[k - 1] == label);
                    }
                }
            }
        }
    }
}

/// A judgement of the state reaches every label.
pub proof fn a_judgement_reaches_every_label(setup: Setup, cycle: Cycle, label: int)
    requires
        cycle.state != StateChange::Keep,
        0 <= label < setup.formats@.len(),
    ensures
        concerned_from(setup, cycle, 0).contains(label),
{
    each_concerned_label_is_updated_once(setup, cycle, 0);
}

/// A refresh shows no state but a configured one that the value puts in force,
/// and none at all where no state is configured.
pub proof fn a_shown_state_is_in_force(
    setup: Setup,
    refresh: RefreshType,
    value: Binary64,
    tooltip: String,
    class: String,
)
    requires
        cycle_of(setup, refresh, value, tooltip).state == StateChange::Show(class),
    ensures
        exists|i: int|
            #[trigger] active(setup.states@, value, i) && class == setup.states@[i].name,
        setup.states@.len() > 0,
{
    let i = choose|i: int| active(setup.states@, value, i);
    assert(active(setup.states@, value, i) && class == setup.states@[i].name);
}

/// The answers to the first work on the labels from `from` on.
pub open spec fn first_events(
    setup: Setup,
    from: int,
    text: spec_fn(int) -> String,
    tooltip: spec_fn(int) -> String,
) -> Seq<Event>
    decreases setup.formats@.len() - from,
{
    if from >= setup.formats@.len() {
        seq![Event::Done] + Seq::empty()
    } else {
        let tail = seq![Event::Done] + first_events(setup, from + 1, text, tooltip);
        seq![Event::Text(text(from))] + if setup.tooltip {
            seq![Event::Text(tooltip(from))] + tail
        } else {
            tail
        }
    }
}

/// The first work on the labels from `from` on: each is rendered, with its own
/// rendering of the tooltip if there is one, and gets an update that leaves
/// the state classes alone. Then the timers start.
pub open spec fn first_log(
    setup: Setup,
    from: int,
    text: spec_fn(int) -> String,
    tooltip: spec_fn(int) -> String,
) -> Seq<Action>
    decreases setup.formats@.len() - from,
{
    if from >= setup.formats@.len() {
        seq![Action::StartTimers] + Seq::empty()
    } else {
        let rest = first_log(setup, from + 1, text, tooltip);
        seq![Action::RenderLabel(from as usize)] + if setup.tooltip {
            seq![Action::RenderTooltip] + (seq![
                Action::PostUpdate((from as usize, text(from), StateChange::Keep, Some(tooltip(from)))),
            ] + rest)
        } else {
            seq![Action::PostUpdate((from as usize, text(from), StateChange::Keep, None))] + rest
        }
    }
}

/// Before the first refresh every label gets one update, in order, and then the
/// timers start, whatever is rendered.
pub proof fn every_label_gets_a_first_update(
    setup: Setup,
    from: int,
    text: spec_fn(int) -> String,
    tooltip: spec_fn(int) -> String,
)
    requires
        0 <= from,
    ensures
        run(setup, setup.first_from(from), first_events(setup, from, text, tooltip)) == Some(
            Phase::Idle,
        ),
        log(setup, setup.first_from(from), first_events(setup, from, text, tooltip)) == first_log(
            setup,
            from,
            text,
            tooltip,
        ),
    decreases setup.formats@.len() - from,
{
    if from >= setup.formats@.len() {
        lemma_step(setup, Phase::Timers, Event::Done, Seq::empty());
    } else {
        assert(setup.formats@.len() == setup.formats.len());
        every_label_gets_a_first_update(setup, from + 1, text, tooltip);
        let label = from as usize;
        let rest = first_events(setup, from + 1, text, tooltip);
        let tail = seq![Event::Done] + rest;
        let shown = if setup.tooltip {
            Some(tooltip(from))
        } else {
            None
        };
        let update = Phase::FirstUpdate { label, text: text(from), tooltip: shown };
        lemma_step(setup, update, Event::Done, rest);
        if setup.tooltip {
            let waiting = Phase::FirstTooltip { label, text: text(from) };
            lemma_step(setup, waiting, Event::Text(tooltip(from)), tail);
            lemma_step(
                setup,
                Phase::FirstText { label },
                Event::Text(text(from)),
                seq![Event::Text(tooltip(from))] + tail,
            );
        } else {
            lemma_step(setup, Phase::FirstText { label }, Event::Text(text(from)), tail);
        }
    }
}

/// Whatever the answers, every action is about a label that there is, from the
/// first update on.
pub proof fn every_action_is_about_a_label(setup: Setup, phase: Phase, events: Seq<Event>)
    requires
        setup.in_range(phase),
    ensures
        setup.in_range(setup.first_from(0)),
        run(setup, phase, events) matches Some(end) ==> setup.in_range(end),
        forall|i: int|
            0 <= i < log(setup, phase, events).len() ==> (label_of(
                #[trigger] log(setup, phase, events)[i],
            ) matches Some(label) ==> label < setup.formats@.len()),
    decreases events.len(),
{
    assert(setup.formats@.len() == setup.formats.len());
    if events.len() > 0 {
        match setup.next(phase, events[0]) {
            Some(next) => {
                lemma_next_in_range(setup, phase, events[0]);
                every_action_is_about_a_label(setup, next, events.drop_first());
                let rest = log(setup, next, events.drop_first());
                assert forall|i: int|
                    0 <= i < log(setup, phase, events).len() implies (label_of(
                    #[trigger] log(setup, phase, events)[i],
                ) matches Some(label) ==> label < setup.formats@.len()) by {
                    if i > 0 {
                        assert(log(setup, phase, events)[i] == rest[i - 1]);
                    }
                }
            },
            None => {},
        }
    }
}

proof fn lemma_next_in_range(setup: Setup, phase: Phase, event: Event)
    requires
        setup.in_range(phase),
        setup.next(phase, event) is Some,
    ensures
        setup.in_range(setup.next(phase, event)->0),
{
    assert(setup.formats@.len() == setup.formats.len());
    match (phase, event) {
        (Phase::Refreshing { refresh }, _) => {
            lemma_next_label(setup, Cycle { refresh, state: StateChange::Keep, tooltip: None }, 0);
        },
        (Phase::Judging { refresh, reading: _ }, Event::Reading(value)) => {
            let state = judgement(setup.states@, value);
            lemma_next_label(setup, Cycle { refresh, state, tooltip: None }, 0);
        },
        (Phase::Tooltip { refresh, state }, Event::Text(tooltip)) => {
            lemma_next_label(setup, Cycle { refresh, state, tooltip: Some(tooltip) }, 0);
        },
        (Phase::Update { cycle, label, text: _ }, _) => {
            lemma_next_label(setup, cycle, label + 1);
        },
        _ => {},
    }
}

/// The update that an action hands over, if any.
pub open spec fn handed_over(action: Action) -> Option<SysInfoUpdate> {
    match action {
        Action::PostUpdate(update) => Some(update),
        Action::SendUpdate(update) => Some(update),
        _ => None,
    }
}

/// Whether no judgement of the state is under way.
pub open spec fn unjudged(phase: Phase) -> bool {
    match phase {
        Phase::Judging { refresh: _, reading: _ } => false,
        Phase::Tooltip { refresh: _, state } => state == StateChange::Keep,
        Phase::Text { cycle, label: _ } => cycle.state == StateChange::Keep,
        Phase::Update { cycle, label: _, text: _ } => cycle.state == StateChange::Keep,
        _ => true,
    }
}

/// Where no refresh calls for a reading, no update ever touches a state class,
/// whatever the answers.
proof fn lemma_unjudged_log(setup: Setup, phase: Phase, events: Seq<Event>)
    requires
        unjudged(phase),
        forall|refresh: RefreshType| #[trigger] setup.wanted_reading(refresh) is None,
    ensures
        forall|i: int|
            0 <= i < log(setup, phase, events).len() ==> (handed_over(
                #[trigger] log(setup, phase, events)[i],
            ) matches Some(update) ==> update.2 == StateChange::Keep),
    decreases events.len(),
{
    if events.len() > 0 {
        match setup.next(phase, events[0]) {
            Some(next) => {
                assert(unjudged(next));
                lemma_unjudged_log(setup, next, events.drop_first());
                let rest = log(setup, next, events.drop_first());
                assert forall|i: int| 0 <= i < log(setup, phase, events).len() implies (
                handed_over(
                    #[trigger] log(setup, phase, events)[i],
                ) matches Some(update) ==> update.2 == StateChange::Keep) by {
                    if i > 0 {
                        assert(log(setup, phase, events)[i] == rest[i - 1]);
                    }
                }
            },
            None => {},
        }
    }
}

/// Without states, or without a metric to judge them by, no update ever touches
/// a state class, whatever the answers.
pub proof fn without_states_no_update_has_a_class(setup: Setup, events: Seq<Event>)
    requires
        setup.states@.len() == 0 || setup.state_metric@.len() == 0,
    ensures
        forall|i: int|
            0 <= i < log(setup, setup.first_from(0), events).len() ==> (handed_over(
                #[trigger] log(setup, setup.first_from(0), events)[i],
            ) matches Some(update) ==> update.2 == StateChange::Keep),
{
    lemma_unjudged_log(setup, setup.first_from(0), events);
}

/// Whether no refresh has anything to show.
pub open spec fn quiet(phase: Phase) -> bool {
    match phase {
        Phase::Judging { refresh: _, reading: _ } => false,
        Phase::Tooltip { refresh: _, state: _ } => false,
        Phase::Text { cycle: _, label: _ } => false,
        Phase::Update { cycle: _, label: _, text: _ } => false,
        _ => true,
    }
}

proof fn lemma_nothing_concerned(setup: Setup, cycle: Cycle, from: int)
    requires
        0 <= from,
        !setup.any_token(),
        cycle.state == StateChange::Keep,
        cycle.tooltip is None,
    ensures
        setup.next_label(cycle, from) is None,
    decreases setup.formats@.len() - from,
{
    if from < setup.formats@.len() {
        let parts = setup.formats@[from]@;
        assert(!has_token(parts));
        metrics_are_refreshed(parts);
        assert(!affected(parts, cycle.refresh));
        lemma_nothing_concerned(setup, cycle, from + 1);
    }
}

proof fn lemma_quiet_log(setup: Setup, phase: Phase, events: Seq<Event>)
    requires
        quiet(phase),
        !setup.any_token(),
        !setup.tooltip,
        setup.states@.len() == 0,
    ensures
        forall|i: int|
            0 <= i < log(setup, phase, events).len() ==> !(#[trigger] log(
                setup,
                phase,
                events,
            )[i] is SendUpdate),
    decreases events.len(),
{
    if events.len() > 0 {
        match setup.next(phase, events[0]) {
            Some(next) => {
                if let Phase::Refreshing { refresh } = phase {
                    lemma_nothing_concerned(
                        setup,
                        Cycle { refresh, state: StateChange::Keep, tooltip: None },
                        0,
                    );
                }
                assert(quiet(next));
                lemma_quiet_log(setup, next, events.drop_first());
                let rest = log(setup, next, events.drop_first());
                assert forall|i: int| 0 <= i < log(setup, phase, events).len() implies !(
                #[trigger] log(setup, phase, events)[i] is SendUpdate) by {
                    if i > 0 {
                        assert(log(setup, phase, events)[i] == rest[i - 1]);
                    }
                }
            },
            None => {},
        }
    }
}

/// Whether the first updates are over and no refresh has anything to show.
pub open spec fn settled(phase: Phase) -> bool {
    phase is Idle || phase is Refreshing || phase is Stopped
}

proof fn lemma_settled_log(setup: Setup, phase: Phase, events: Seq<Event>)
    requires
        settled(phase),
        !setup.any_token(),
        !setup.tooltip,
        setup.states@.len() == 0,
    ensures
        forall|i: int|
            0 <= i < log(setup, phase, events).len() ==> handed_over(
                #[trigger] log(setup, phase, events)[i],
            ) is None,
    decreases events.len(),
{
    if events.len() > 0 {
        match setup.next(phase, events[0]) {
            Some(next) => {
                if let Phase::Refreshing { refresh } = phase {
                    lemma_nothing_concerned(
                        setup,
                        Cycle { refresh, state: StateChange::Keep, tooltip: None },
                        0,
                    );
                }
                assert(settled(next));
                lemma_settled_log(setup, next, events.drop_first());
                let rest = log(setup, next, events.drop_first());
                assert forall|i: int| 0 <= i < log(setup, phase, events).len() implies handed_over(
                    #[trigger] log(setup, phase, events)[i],
                ) is None by {
                    if i > 0 {
                        assert(log(setup, phase, events)[i] == rest[i - 1]);
                    }
                }
            },
            None => {},
        }
    }
}

/// Where no label shows a metric and there are neither a tooltip nor states, no
/// update of any kind is handed over after the first updates, and no refresh ever
/// sends one, whatever the answers.
pub proof fn static_labels_are_left_alone(setup: Setup, events: Seq<Event>)
    requires
        !setup.any_token(),
        !setup.tooltip,
        setup.states@.len() == 0,
    ensures
        forall|i: int|
            0 <= i < log(setup, Phase::Idle, events).len() ==> handed_over(
                #[trigger] log(setup, Phase::Idle, events)[i],
            ) is None,
        forall|i: int|
            0 <= i < log(setup, setup.first_from(0), events).len() ==> !(#[trigger] log(
                setup,
                setup.first_from(0),
                events,
            )[i] is SendUpdate),
{
    lemma_settled_log(setup, Phase::Idle, events);
    lemma_quiet_log(setup, setup.first_from(0), events);
}

/// Once the timers are gone the controller has nothing left to do, and takes no
/// further answer.
pub proof fn a_stopped_controller_stays_stopped(setup: Setup, event: Event)
    ensures
        setup.next(Phase::Idle, Event::Closed) == Some(Phase::Stopped),
        pending(Phase::Stopped) == Action::Stop,
        setup.next(Phase::Stopped, event) is None,
{
}

} // verus!
