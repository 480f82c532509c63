//! What a refresh does, said of the configuration and of the answers alone.

use super::controller::pending;
use super::controller::Action;
use super::controller::Cycle;
use super::controller::Event;
use super::controller::Phase;
use super::controller::Setup;
use super::metric::a_metric_is_read_after_its_refresh;
use super::metric::lemma_metric_names_differ;
use super::metric::Reading;
use super::shown::a_refresh_updates_a_label_once;
use super::shown::names_of;
use super::shown::other_refreshes_keep_the_class;
use super::shown::shown_after;
use super::shown::the_latest_value_determines_the_class;
use super::shown::updates_for;
use super::states::a_highest_reached_state_shows;
use super::states::judgement;
use super::states::resolved;
use super::states::the_highest_reached_threshold_counts;
use super::states::State;
use super::states::StateChange;
use super::token::every_piece_counts;
use super::token::has_token;
use super::token::Part;
use super::token::RefreshType;
use super::trace::a_refresh_does_its_work;
use super::trace::concerned_from;
use super::trace::cycle_events;
use super::trace::cycle_log;
use super::trace::cycle_of;
use super::trace::each_concerned_label_is_updated_once;
use super::trace::every_label_gets_a_first_update;
use super::trace::first_events;
use super::trace::first_log;
use super::trace::label_log;
use super::trace::log;
use super::trace::run;
use super::widget::names_class;
use super::widget::LabelView;
use crate::binary64::Binary64;
use vstd::prelude::*;

verus! {

/// Each action takes exactly the answers that fit it: a rendering its text, a
/// reading its value, a wait a tick or the end of the timers, and all other work
/// the word that it is done. A stopped controller takes none.
pub proof fn an_action_takes_its_answers(setup: Setup, phase: Phase, event: Event)
    ensures
        setup.next(phase, event) is Some <==> match pending(phase) {
            Action::RenderLabel(_) | Action::RenderTooltip => event is Text,
            Action::TakeReading(_) => event is Reading,
            Action::AwaitRefresh => event is Refresh || event is Closed,
            Action::PostUpdate(_) | Action::SendUpdate(_) => event is Done,
            Action::StartTimers | Action::Refresh(_) => event is Done,
            Action::Stop => false,
        },
{
}

/// As soon as one state is configured, the state metric is read after each refresh
/// that renews it: the mean processor use after a refresh of the processor, memory
/// use after a refresh of the memory. Nothing is read otherwise.
pub proof fn a_configured_state_is_judged(setup: Setup, refresh: RefreshType)
    ensures
        setup.wanted_reading(refresh) == Some(Reading::CpuPercent) <==> setup.states@.len() >= 1
            && setup.state_metric@ == "cpu_percent"@ && refresh == RefreshType::Cpu,
        setup.wanted_reading(refresh) == Some(Reading::MemoryPercent) <==> setup.states@.len() >= 1
            && setup.state_metric@ == "memory_percent"@ && refresh == RefreshType::Memory,
{
    lemma_metric_names_differ();
    a_metric_is_read_after_its_refresh(setup.state_metric@, refresh);
}

/// A refresh concerns a label exactly if the label shows a metric of the refreshed
/// group, or the state metric was read, or there is a tooltip while no label shows
/// any metric at all.
pub proof fn a_refresh_concerns_what_it_changes(
    setup: Setup,
    refresh: RefreshType,
    value: Binary64,
    tooltip: String,
    label: int,
)
    requires
        0 <= label < setup.formats@.len(),
    ensures
        setup.concerned(cycle_of(setup, refresh, value, tooltip), label) <==> {
            ||| exists|k: int|
                0 <= k < setup.formats@[label]@.len() && (
                #[trigger] setup.formats@[label]@[k] matches Part::Token(token)
                    && token.token.group() == refresh)
            ||| setup.states@.len() >= 1 && setup.state_metric@ == "cpu_percent"@ && refresh
                == RefreshType::Cpu
            ||| setup.states@.len() >= 1 && setup.state_metric@ == "memory_percent"@ && refresh
                == RefreshType::Memory
            ||| setup.tooltip && forall|i: int, k: int|
                0 <= i < setup.formats@.len() && 0 <= k < setup.formats@[i]@.len()
                    ==> #[trigger] setup.formats@[i]@[k] is Static
        },
{
    let cycle = cycle_of(setup, refresh, value, tooltip);
    a_configured_state_is_judged(setup, refresh);
    the_highest_reached_threshold_counts(setup.states@, value);
    every_piece_counts(setup.formats@[label]@, refresh);
    if setup.any_token() {
        let i = choose|i: int|
            0 <= i < setup.formats@.len() && has_token(#[trigger] setup.formats@[i]@);
        let k = choose|k: int|
            0 <= k < setup.formats@[i]@.len() && #[trigger] setup.formats@[i]@[k] is Token;
        assert(!(setup.formats@[i]@[k] is Static));
    } else {
        assert forall|i: int, k: int|
            0 <= i < setup.formats@.len() && 0 <= k < setup.formats@[i]@.len() implies
            #[trigger] setup.formats@[i]@[k] is Static by {
            assert(!has_token(setup.formats@[i]@));
        }
    }
}

proof fn lemma_label_log(cycle: Cycle, labels: Seq<int>, text: spec_fn(int) -> String)
    ensures
        label_log(cycle, labels, text).len() == 2 * labels.len(),
        forall|m: int|
            #![trigger labels[m]]
            0 <= m < labels.len() ==> {
                &&& label_log(cycle, labels, text)[2 * m] == Action::RenderLabel(
                    labels[m] as usize,
                )
                &&& label_log(cycle, labels, text)[2 * m + 1] == Action::SendUpdate(
                    (labels[m] as usize, text(labels[m]), cycle.state, cycle.tooltip),
                )
            },
    decreases labels.len(),
{
    if labels.len() > 0 {
        let fewer = labels.drop_first();
        lemma_label_log(cycle, fewer, text);
        let rest = label_log(cycle, fewer, text);
        let all = label_log(cycle, labels, text);
        assert forall|m: int| #![trigger labels[m]] 0 <= m < labels.len() implies {
            &&& all[2 * m] == Action::RenderLabel(labels[m] as usize)
            &&& all[2 * m + 1] == Action::SendUpdate(
                (labels[m] as usize, text(labels[m]), cycle.state, cycle.tooltip),
            )
        } by {
            if m > 0 {
                assert(fewer[m - 1] == labels[m]);
                assert(all[2 * m] == rest[2 * (m - 1)]);
                assert(all[2 * m + 1] == rest[2 * (m - 1) + 1]);
            }
        }
    }
}

/// One refresh in full, from the wait for it to the next wait. The group of metrics
/// is refreshed. If a state is configured and the refresh renews the state metric,
/// the metric is read. If there is a tooltip it is rendered, once. Then the labels
/// follow that show a metric of the group, or all of them if the metric was read or
/// if there is a tooltip while no label shows any metric: in ascending order each is
/// rendered and sent the text that came of it, what the reading makes of the state
/// classes, and the tooltip. The result is the labels that follow.
pub proof fn a_refresh_in_full(
    setup: Setup,
    refresh: RefreshType,
    value: Binary64,
    tooltip: String,
    text: spec_fn(int) -> String,
) -> (labels: Seq<int>)
    ensures
        run(setup, Phase::Idle, cycle_events(setup, refresh, value, tooltip, text)) == Some(
            Phase::Idle,
        ),
        forall|i: int, j: int|
            0 <= i < j < labels.len() ==> #[trigger] labels[i] < #[trigger] labels[j],
        forall|label: int| #[trigger]
            labels.contains(label) <==> 0 <= label < setup.formats@.len() && {
                ||| exists|k: int|
                    0 <= k < setup.formats@[label]@.len() && (
                    #[trigger] setup.formats@[label]@[k] matches Part::Token(token)
                        && token.token.group() == refresh)
                ||| setup.states@.len() >= 1 && setup.state_metric@ == "cpu_percent"@ && refresh
                    == RefreshType::Cpu
                ||| setup.states@.len() >= 1 && setup.state_metric@ == "memory_percent"@ && refresh
                    == RefreshType::Memory
                ||| setup.tooltip && forall|i: int, k: int|
                    0 <= i < setup.formats@.len() && 0 <= k < setup.formats@[i]@.len()
                        ==> #[trigger] setup.formats@[i]@[k] is Static
            },
        ({
            let done = log(setup, Phase::Idle, cycle_events(setup, refresh, value, tooltip, text));
            let cpu = setup.states@.len() >= 1 && setup.state_metric@ == "cpu_percent"@ && refresh
                == RefreshType::Cpu;
            let memory = setup.states@.len() >= 1 && setup.state_metric@ == "memory_percent"@
                && refresh == RefreshType::Memory;
            let reading = if cpu {
                seq![Action::TakeReading(Reading::CpuPercent)]
            } else if memory {
                seq![Action::TakeReading(Reading::MemoryPercent)]
            } else {
                Seq::empty()
            };
            let state = if cpu || memory {
                judgement(setup.states@, value)
            } else {
                StateChange::Keep
            };
            let rendering = if setup.tooltip {
                seq![Action::RenderTooltip]
            } else {
                Seq::empty()
            };
            let shown = if setup.tooltip {
                Some(tooltip)
            } else {
                None
            };
            let head = seq![Action::AwaitRefresh, Action::Refresh(refresh)] + reading + rendering;
            &&& done.len() == head.len() + 2 * labels.len()
            &&& done.take(head.len() as int) == head
            &&& forall|m: int|
                #![trigger labels[m]]
                0 <= m < labels.len() ==> {
                    &&& done[head.len() + 2 * m] == Action::RenderLabel(labels[m] as usize)
                    &&& done[head.len() + 2 * m + 1] == Action::SendUpdate(
                        (labels[m] as usize, text(labels[m]), state, shown),
                    )
                }
        }),
{
    let cycle = cycle_of(setup, refresh, value, tooltip);
    let labels = concerned_from(setup, cycle, 0);
    a_refresh_does_its_work(setup, refresh, value, tooltip, text);
    each_concerned_label_is_updated_once(setup, cycle, 0);
    a_configured_state_is_judged(setup, refresh);
    assert forall|label: int| #[trigger] labels.contains(label) <==> 0 <= label
        < setup.formats@.len() && {
        ||| exists|k: int|
            0 <= k < setup.formats@[label]@.len() && (
            #[trigger] setup.formats@[label]@[k] matches Part::Token(token)
                && token.token.group() == refresh)
        ||| setup.states@.len() >= 1 && setup.state_metric@ == "cpu_percent"@ && refresh
            == RefreshType::Cpu
        ||| setup.states@.len() >= 1 && setup.state_metric@ == "memory_percent"@ && refresh
            == RefreshType::Memory
        ||| setup.tooltip && forall|i: int, k: int|
            0 <= i < setup.formats@.len() && 0 <= k < setup.formats@[i]@.len()
                ==> #[trigger] setup.formats@[i]@[k] is Static
    } by {
        if 0 <= label < setup.formats@.len() {
            a_refresh_concerns_what_it_changes(setup, refresh, value, tooltip, label);
        }
    }
    lemma_label_log(cycle, labels, text);
    let done = cycle_log(setup, refresh, value, tooltip, text);
    let tail = label_log(cycle, labels, text);
    let reading = match setup.wanted_reading(refresh) {
        Some(reading) => seq![Action::TakeReading(reading)],
        None => Seq::empty(),
    };
    let rendering = if setup.tooltip {
        seq![Action::RenderTooltip]
    } else {
        Seq::empty()
    };
    let head = seq![Action::AwaitRefresh, Action::Refresh(refresh)] + reading + rendering;
    assert(done =~= head + tail);
    assert(done.take(head.len() as int) =~= head);
    assert forall|m: int| #![trigger labels[m]] 0 <= m < labels.len() implies {
        &&& done[head.len() + 2 * m] == tail[2 * m]
        &&& done[head.len() + 2 * m + 1] == tail[2 * m + 1]
    } by {}
    labels
}

/// Whatever group is refreshed, a label that shows one of its metrics is rendered
/// and sent what came of it, once, and the update carries the tooltip, if any.
pub proof fn a_shown_metric_is_renewed(
    setup: Setup,
    refresh: RefreshType,
    value: Binary64,
    tooltip: String,
    text: spec_fn(int) -> String,
    label: int,
    k: int,
)
    requires
        0 <= label < setup.formats@.len(),
        0 <= k < setup.formats@[label]@.len(),
        setup.formats@[label]@[k] matches Part::Token(token) && token.token.group() == refresh,
    ensures
        ({
            let done = log(setup, Phase::Idle, cycle_events(setup, refresh, value, tooltip, text));
            let updates = updates_for(done, label);
            &&& updates.len() == 1
            &&& updates[0].0 == label
            &&& updates[0].1 == text(label)
            &&& updates[0].3 == if setup.tooltip {
                Some(tooltip)
            } else {
                None
            }
            &&& done.filter(|action: Action| action == Action::RenderLabel(label as usize)).len()
                == 1
            &&& done.filter(
                |action: Action| action matches Action::SendUpdate(update) && update.0 == label,
            ).len() == 1
        }),
{
    a_refresh_does_its_work(setup, refresh, value, tooltip, text);
    a_refresh_updates_a_label_once(setup, refresh, value, tooltip, text, label);
    a_refresh_concerns_what_it_changes(setup, refresh, value, tooltip, label);
    assert(setup.formats@[label]@[k] is Token);
    assert(setup.formats@.len() == setup.formats.len());
    lemma_actions_on_a_label(setup, refresh, value, tooltip, text, label);
}

/// A label that shows no metric of the refreshed group is neither rendered nor sent
/// anything, unless the state metric was read or there is a tooltip while no label
/// shows any metric.
pub proof fn other_labels_are_left_alone(
    setup: Setup,
    refresh: RefreshType,
    value: Binary64,
    tooltip: String,
    text: spec_fn(int) -> String,
    label: int,
)
    requires
        0 <= label < setup.formats@.len(),
        forall|k: int|
            0 <= k < setup.formats@[label]@.len() ==> (
            #[trigger] setup.formats@[label]@[k] matches Part::Token(token)
                ==> token.token.group() != refresh),
        setup.states@.len() >= 1 && setup.state_metric@ == "cpu_percent"@ ==> refresh
            != RefreshType::Cpu,
        setup.states@.len() >= 1 && setup.state_metric@ == "memory_percent"@ ==> refresh
            != RefreshType::Memory,
        setup.tooltip ==> exists|i: int, k: int|
            0 <= i < setup.formats@.len() && 0 <= k < setup.formats@[i]@.len()
                && #[trigger] setup.formats@[i]@[k] is Token,
    ensures
        ({
            let done = log(setup, Phase::Idle, cycle_events(setup, refresh, value, tooltip, text));
            &&& updates_for(done, label).len() == 0
            &&& done.filter(|action: Action| action == Action::RenderLabel(label as usize)).len()
                == 0
        }),
{
    a_refresh_does_its_work(setup, refresh, value, tooltip, text);
    a_refresh_updates_a_label_once(setup, refresh, value, tooltip, text, label);
    a_refresh_concerns_what_it_changes(setup, refresh, value, tooltip, label);
    if setup.tooltip {
        let (i, k) = choose|i: int, k: int|
            0 <= i < setup.formats@.len() && 0 <= k < setup.formats@[i]@.len()
                && #[trigger] setup.formats@[i]@[k] is Token;
        assert(!(setup.formats@[i]@[k] is Static));
    }
    lemma_actions_on_a_label(setup, refresh, value, tooltip, text, label);
}

/// Where there is a tooltip and no label shows any metric, every refresh renders the
/// tooltip anew and sends it to every label.
pub proof fn a_tooltip_is_renewed_on_static_labels(
    setup: Setup,
    refresh: RefreshType,
    value: Binary64,
    tooltip: String,
    text: spec_fn(int) -> String,
    label: int,
)
    requires
        0 <= label < setup.formats@.len(),
        setup.tooltip,
        forall|i: int, k: int|
            0 <= i < setup.formats@.len() && 0 <= k < setup.formats@[i]@.len()
                ==> #[trigger] setup.formats@[i]@[k] is Static,
    ensures
        ({
            let done = log(setup, Phase::Idle, cycle_events(setup, refresh, value, tooltip, text));
            let updates = updates_for(done, label);
            &&& updates.len() == 1
            &&& updates[0].0 == label
            &&& updates[0].1 == text(label)
            &&& updates[0].3 == Some(tooltip)
            &&& done.contains(Action::RenderTooltip)
        }),
{
    a_refresh_does_its_work(setup, refresh, value, tooltip, text);
    a_refresh_updates_a_label_once(setup, refresh, value, tooltip, text, label);
    a_refresh_concerns_what_it_changes(setup, refresh, value, tooltip, label);
    let labels = a_refresh_in_full(setup, refresh, value, tooltip, text);
    a_configured_state_is_judged(setup, refresh);
    let done = log(setup, Phase::Idle, cycle_events(setup, refresh, value, tooltip, text));
    assert(setup.formats@.len() == setup.formats.len());
    let at: int = if setup.wanted_reading(refresh) is Some {
        3
    } else {
        2
    };
    assert(done.take(at + 1)[at] == Action::RenderTooltip);
    assert(done[at] == Action::RenderTooltip);
}

/// The class that the state metric puts in force shows. As soon as one state is
/// configured, a refresh that renews the metric reads it, and after that every label
/// wears the class of a state exactly if the value reaches the state's threshold,
/// no reached threshold is higher, and none as high comes later by name.
pub proof fn the_reached_class_shows(
    setup: Setup,
    refresh: RefreshType,
    value: Binary64,
    tooltip: String,
    text: spec_fn(int) -> String,
    label: int,
    before: LabelView,
    i: int,
)
    requires
        0 <= label < setup.formats@.len(),
        0 <= i < setup.states@.len(),
        forall|j: int, k: int|
            0 <= j < k < setup.states@.len() ==> #[trigger] setup.states@[j].name@
                != #[trigger] setup.states@[k].name@,
        (setup.state_metric@ == "cpu_percent"@ && refresh == RefreshType::Cpu) || (
        setup.state_metric@ == "memory_percent"@ && refresh == RefreshType::Memory),
    ensures
        ({
            let done = log(setup, Phase::Idle, cycle_events(setup, refresh, value, tooltip, text));
            let after = shown_after(
                setup.states@.map_values(|state: State| state.name),
                before,
                updates_for(done, label),
            );
            &&& refresh == RefreshType::Cpu ==> done.contains(
                Action::TakeReading(Reading::CpuPercent),
            )
            &&& refresh == RefreshType::Memory ==> done.contains(
                Action::TakeReading(Reading::MemoryPercent),
            )
            &&& updates_for(done, label).len() == 1
            &&& after.classes.contains(setup.states@[i].name@) <==> {
                &&& value.reaches(setup.states@[i].threshold)
                &&& forall|j: int|
                    0 <= j < setup.states@.len() && value.reaches(
                        #[trigger] setup.states@[j].threshold,
                    ) ==> {
                        &&& setup.states@[i].threshold.reaches(setup.states@[j].threshold)
                        &&& setup.states@[j].threshold.reaches(setup.states@[i].threshold) ==> j
                            <= i
                    }
            }
        }),
{
    let states = setup.states@;
    let names = names_of(states);
    let class = states[i].name@;
    a_configured_state_is_judged(setup, refresh);
    a_refresh_does_its_work(setup, refresh, value, tooltip, text);
    a_refresh_updates_a_label_once(setup, refresh, value, tooltip, text, label);
    a_refresh_concerns_what_it_changes(setup, refresh, value, tooltip, label);
    assert(names[i]@ == class);
    assert(names_class(names, class));
    the_latest_value_determines_the_class(
        setup,
        refresh,
        value,
        tooltip,
        text,
        label,
        before,
        class,
    );
    the_highest_reached_threshold_counts(states, value);
    let highest = value.reaches(states[i].threshold) && forall|j: int|
        0 <= j < states.len() && value.reaches(#[trigger] states[j].threshold) ==> {
            &&& states[i].threshold.reaches(states[j].threshold)
            &&& states[j].threshold.reaches(states[i].threshold) ==> j <= i
        };
    if highest {
        a_highest_reached_state_shows(states, value, i);
    } else if resolved(states, value) is Some {
        let name = resolved(states, value)->0;
        let h = choose|h: int|
            {
                &&& 0 <= h < states.len()
                &&& name == #[trigger] states[h].name
                &&& value.reaches(states[h].threshold)
                &&& forall|j: int|
                    0 <= j < states.len() && value.reaches(#[trigger] states[j].threshold) ==> {
                        &&& states[h].threshold.reaches(states[j].threshold)
                        &&& states[j].threshold.reaches(states[h].threshold) ==> j <= h
                    }
            };
        assert(h != i);
        if h < i {
            assert(states[h].name@ != states[i].name@);
        } else {
            assert(states[i].name@ != states[h].name@);
        }
    }
    let done = log(setup, Phase::Idle, cycle_events(setup, refresh, value, tooltip, text));
    let labels = a_refresh_in_full(setup, refresh, value, tooltip, text);
    assert(done.take(3)[2] == done[2]);
    lemma_metric_names_differ();
    let rendering: int = if setup.tooltip {
        1
    } else {
        0
    };
    assert(done.take(3 + rendering)[2] == done[2]);
    assert(done[2] is TakeReading);
}

/// A refresh that does not renew the state metric, and any refresh where no state or
/// no such metric is configured, reads nothing and changes no class of any label.
pub proof fn no_reading_no_class_change(
    setup: Setup,
    refresh: RefreshType,
    value: Binary64,
    tooltip: String,
    text: spec_fn(int) -> String,
    label: int,
    before: LabelView,
)
    requires
        0 <= label < setup.formats@.len(),
        setup.states@.len() >= 1 && setup.state_metric@ == "cpu_percent"@ ==> refresh
            != RefreshType::Cpu,
        setup.states@.len() >= 1 && setup.state_metric@ == "memory_percent"@ ==> refresh
            != RefreshType::Memory,
    ensures
        shown_after(
            setup.states@.map_values(|state: State| state.name),
            before,
            updates_for(
                log(setup, Phase::Idle, cycle_events(setup, refresh, value, tooltip, text)),
                label,
            ),
        ).classes == before.classes,
{
    a_configured_state_is_judged(setup, refresh);
    a_refresh_does_its_work(setup, refresh, value, tooltip, text);
    match setup.wanted_reading(refresh) {
        Some(reading) => match reading {
            Reading::CpuPercent => {},
            Reading::MemoryPercent => {},
        },
        None => {},
    }
    other_refreshes_keep_the_class(setup, refresh, value, tooltip, text, label, before);
}

proof fn lemma_filter_first(action: Action, rest: Seq<Action>, keep: spec_fn(Action) -> bool)
    ensures
        (seq![action] + rest).filter(keep).len() == rest.filter(keep).len() + if keep(action) {
            1nat
        } else {
            0nat
        },
{
    Seq::filter_distributes_over_add(seq![action], rest, keep);
    reveal(Seq::filter);
    reveal_with_fuel(Seq::filter, 2);
    assert(seq![action].drop_last() =~= Seq::empty());
}

proof fn lemma_label_actions(
    cycle: Cycle,
    labels: Seq<int>,
    text: spec_fn(int) -> String,
    label: int,
    render: spec_fn(Action) -> bool,
    send: spec_fn(Action) -> bool,
)
    requires
        0 <= label <= usize::MAX,
        forall|i: int| 0 <= i < labels.len() ==> 0 <= #[trigger] labels[i] <= usize::MAX,
        forall|i: int, j: int|
            0 <= i < j < labels.len() ==> #[trigger] labels[i] < #[trigger] labels[j],
        forall|action: Action| #[trigger]
            render(action) <==> action == Action::RenderLabel(label as usize),
        forall|action: Action| #[trigger]
            send(action) <==> (action matches Action::SendUpdate(update) && update.0 == label),
    ensures
        label_log(cycle, labels, text).filter(render).len() == if labels.contains(label) {
            1nat
        } else {
            0nat
        },
        label_log(cycle, labels, text).filter(send).len() == if labels.contains(label) {
            1nat
        } else {
            0nat
        },
    decreases labels.len(),
{
    if labels.len() == 0 {
        reveal(Seq::filter);
    } else {
        let first = labels[0];
        let fewer = labels.drop_first();
        assert forall|i: int| 0 <= i < fewer.len() implies 0 <= #[trigger] fewer[i]
            <= usize::MAX by {
            assert(fewer[i] == labels[i + 1]);
        }
        assert forall|i: int, j: int| 0 <= i < j < fewer.len() implies #[trigger] fewer[i]
            < #[trigger] fewer[j] by {
            assert(labels[i + 1] < labels[j + 1]);
        }
        lemma_label_actions(cycle, fewer, text, label, render, send);
        let rendering = Action::RenderLabel(first as usize);
        let sending = Action::SendUpdate(
            (first as usize, text(first), cycle.state, cycle.tooltip),
        );
        let tail = label_log(cycle, fewer, text);
        lemma_filter_first(sending, tail, render);
        lemma_filter_first(sending, tail, send);
        lemma_filter_first(rendering, seq![sending] + tail, render);
        lemma_filter_first(rendering, seq![sending] + tail, send);
        if fewer.contains(label) {
            let k = choose|k: int| 0 <= k < fewer.len() && fewer[k] == label;
            assert(labels[k + 1] == label);
            assert(first < label);
        }
        if labels.contains(label) && label != first {
            let k = choose|k: int| 0 <= k < labels.len() && labels[k] == label;
            assert(fewer[k - 1] == label);
        }
    }
}

/// The actions of one refresh on one label: a rendering and an update if the label is
/// concerned, and none otherwise.
proof fn lemma_actions_on_a_label(
    setup: Setup,
    refresh: RefreshType,
    value: Binary64,
    tooltip: String,
    text: spec_fn(int) -> String,
    label: int,
)
    requires
        0 <= label < setup.formats@.len(),
    ensures
        ({
            let done = cycle_log(setup, refresh, value, tooltip, text);
            let n: nat = if setup.concerned(cycle_of(setup, refresh, value, tooltip), label) {
                1
            } else {
                0
            };
            &&& done.filter(|action: Action| action == Action::RenderLabel(label as usize)).len()
                == n
            &&& done.filter(
                |action: Action| action matches Action::SendUpdate(update) && update.0 == label,
            ).len() == n
        }),
{
    let cycle = cycle_of(setup, refresh, value, tooltip);
    let labels = concerned_from(setup, cycle, 0);
    assert(setup.formats@.len() == setup.formats.len());
    each_concerned_label_is_updated_once(setup, cycle, 0);
    assert forall|i: int| 0 <= i < labels.len() implies 0 <= #[trigger] labels[i]
        <= usize::MAX by {
        assert(labels.contains(labels[i]));
    }
    let render = |action: Action| action == Action::RenderLabel(label as usize);
    let send = |action: Action|
        action matches Action::SendUpdate(update) && update.0 == label;
    lemma_label_actions(cycle, labels, text, label, render, send);
    let tail = label_log(cycle, labels, text);
    lemma_filter_first(Action::RenderTooltip, tail, render);
    lemma_filter_first(Action::RenderTooltip, tail, send);
    let shown = if setup.tooltip {
        seq![Action::RenderTooltip] + tail
    } else {
        tail
    };
    let judged = match setup.wanted_reading(refresh) {
        Some(reading) => {
            lemma_filter_first(Action::TakeReading(reading), shown, render);
            lemma_filter_first(Action::TakeReading(reading), shown, send);
            seq![Action::TakeReading(reading)] + shown
        },
        None => shown,
    };
    lemma_filter_first(Action::Refresh(refresh), judged, render);
    lemma_filter_first(Action::Refresh(refresh), judged, send);
    let rest = seq![Action::Refresh(refresh)] + judged;
    lemma_filter_first(Action::AwaitRefresh, rest, render);
    lemma_filter_first(Action::AwaitRefresh, rest, send);
}

/// The first updates in full. Every label, in order, is rendered; the tooltip, if
/// there is one, is rendered for it; and the label is posted what came of both, with
/// its state classes left alone. Then the timers start, and the wait begins.
pub proof fn the_first_updates_in_full(
    setup: Setup,
    text: spec_fn(int) -> String,
    tooltip: spec_fn(int) -> String,
)
    ensures
        run(setup, setup.first_from(0), first_events(setup, 0, text, tooltip)) == Some(
            Phase::Idle,
        ),
        ({
            let n = setup.formats@.len();
            let done = log(setup, setup.first_from(0), first_events(setup, 0, text, tooltip));
            &&& done.last() == Action::StartTimers
            &&& setup.tooltip ==> {
                &&& done.len() == 3 * n + 1
                &&& forall|label: int|
                    #![trigger text(label)]
                    0 <= label < n ==> {
                        &&& done[3 * label] == Action::RenderLabel(label as usize)
                        &&& done[3 * label + 1] == Action::RenderTooltip
                        &&& done[3 * label + 2] == Action::PostUpdate(
                            (
                                label as usize,
                                text(label),
                                StateChange::Keep,
                                Some(tooltip(label)),
                            ),
                        )
                    }
            }
            &&& !setup.tooltip ==> {
                &&& done.len() == 2 * n + 1
                &&& forall|label: int|
                    #![trigger text(label)]
                    0 <= label < n ==> {
                        &&& done[2 * label] == Action::RenderLabel(label as usize)
                        &&& done[2 * label + 1] == Action::PostUpdate(
                            (label as usize, text(label), StateChange::Keep, None),
                        )
                    }
            }
        }),
{
    every_label_gets_a_first_update(setup, 0, text, tooltip);
    lemma_first_log(setup, 0, text, tooltip);
}

proof fn lemma_first_log(
    setup: Setup,
    from: int,
    text: spec_fn(int) -> String,
    tooltip: spec_fn(int) -> String,
)
    requires
        0 <= from <= setup.formats@.len(),
    ensures
        ({
            let n = setup.formats@.len();
            let done = first_log(setup, from, text, tooltip);
            &&& done.last() == Action::StartTimers
            &&& setup.tooltip ==> {
                &&& done.len() == 3 * (n - from) + 1
                &&& forall|label: int|
                    #![trigger text(label)]
                    from <= label < n ==> {
                        &&& done[3 * (label - from)] == Action::RenderLabel(label as usize)
                        &&& done[3 * (label - from) + 1] == Action::RenderTooltip
                        &&& done[3 * (label - from) + 2] == Action::PostUpdate(
                            (
                                label as usize,
                                text(label),
                                StateChange::Keep,
                                Some(tooltip(label)),
                            ),
                        )
                    }
            }
            &&& !setup.tooltip ==> {
                &&& done.len() == 2 * (n - from) + 1
                &&& forall|label: int|
                    #![trigger text(label)]
                    from <= label < n ==> {
                        &&& done[2 * (label - from)] == Action::RenderLabel(label as usize)
                        &&& done[2 * (label - from) + 1] == Action::PostUpdate(
                            (label as usize, text(label), StateChange::Keep, None),
                        )
                    }
            }
        }),
    decreases setup.formats@.len() - from,
{
    let n = setup.formats@.len();
    if from < n {
        lemma_first_log(setup, from + 1, text, tooltip);
        let rest = first_log(setup, from + 1, text, tooltip);
        let done = first_log(setup, from, text, tooltip);
        assert(done.last() == rest.last());
        if setup.tooltip {
            assert forall|label: int| #![trigger text(label)] from <= label < n implies {
                &&& done[3 * (label - from)] == Action::RenderLabel(label as usize)
                &&& done[3 * (label - from) + 1] == Action::RenderTooltip
                &&& done[3 * (label - from) + 2] == Action::PostUpdate(
                    (label as usize, text(label), StateChange::Keep, Some(tooltip(label))),
                )
            } by {
                if label > from {
                    let at = 3 * (label - (from + 1));
                    assert(done[at + 3] == rest[at]);
                    assert(done[at + 4] == rest[at + 1]);
                    assert(done[at + 5] == rest[at + 2]);
                }
            }
        } else {
            assert forall|label: int| #![trigger text(label)] from <= label < n implies {
                &&& done[2 * (label - from)] == Action::RenderLabel(label as usize)
                &&& done[2 * (label - from) + 1] == Action::PostUpdate(
                    (label as usize, text(label), StateChange::Keep, None),
                )
            } by {
                if label > from {
                    let at = 2 * (label - (from + 1));
                    assert(done[at + 2] == rest[at]);
                    assert(done[at + 3] == rest[at + 1]);
                }
            }
        }
    }
}

} // verus!
