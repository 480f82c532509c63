//! What the labels show after whole stretches of work.

use super::controller::Action;
use super::controller::Cycle;
use super::controller::Setup;
use super::controller::SysInfoUpdate;
use super::states::active;
use super::states::resolved;
use super::states::State;
use super::states::StateChange;
use super::token::RefreshType;
use super::trace::concerned_from;
use super::trace::cycle_log;
use super::trace::cycle_of;
use super::trace::each_concerned_label_is_updated_once;
use super::trace::handed_over;
use super::trace::label_log;
use super::trace::update_of;
use super::widget::an_update_shows;
use super::widget::changed_all;
use super::widget::changes_of;
use super::widget::names_class;
use super::widget::wears;
use super::widget::LabelView;
use crate::binary64::Binary64;
use vstd::prelude::*;

verus! {

/// A label after some updates.
pub open spec fn shown_after(
    state_names: Seq<String>,
    before: LabelView,
    updates: Seq<SysInfoUpdate>,
) -> LabelView
    decreases updates.len(),
{
    if updates.len() == 0 {
        before
    } else {
        changed_all(
            shown_after(state_names, before, updates.drop_last()),
            changes_of(state_names, updates.last()),
        )
    }
}

/// The last judgement of the state that some updates bring; `Keep` if none does.
pub open spec fn last_judgement(updates: Seq<SysInfoUpdate>) -> StateChange
    decreases updates.len(),
{
    if updates.len() == 0 {
        StateChange::Keep
    } else if updates.last().2 != StateChange::Keep {
        updates.last().2
    } else {
        last_judgement(updates.drop_last())
    }
}

/// Of the state classes a label carries what its last judged update brought and
/// nothing else; without such an update its classes are as they were. Other
/// classes never change.
pub proof fn the_last_judgement_shows(
    state_names: Seq<String>,
    before: LabelView,
    updates: Seq<SysInfoUpdate>,
)
    ensures
        match last_judgement(updates) {
            StateChange::Keep => shown_after(state_names, before, updates).classes
                == before.classes,
            state => forall|class: Seq<char>| #[trigger]
                shown_after(state_names, before, updates).classes.contains(class) <==> if names_class(
                    state_names,
                    class,
                ) {
                    wears(state, class)
                } else {
                    before.classes.contains(class)
                },
        },
    decreases updates.len(),
{
    if updates.len() > 0 {
        let fewer = updates.drop_last();
        the_last_judgement_shows(state_names, before, fewer);
        let mid = shown_after(state_names, before, fewer);
        an_update_shows(state_names, updates.last(), mid);
        let after = shown_after(state_names, before, updates);
        if updates.last().2 != StateChange::Keep {
            let state = updates.last().2;
            assert forall|class: Seq<char>| #[trigger] after.classes.contains(class)
                <==> if names_class(state_names, class) {
                wears(state, class)
            } else {
                before.classes.contains(class)
            } by {
                if !names_class(state_names, class) {
                    assert(after.classes.contains(class) <==> mid.classes.contains(class));
                }
            }
        }
    }
}

/// The updates for one label among some actions, in order.
pub open spec fn updates_for(actions: Seq<Action>, label: int) -> Seq<SysInfoUpdate>
    decreases actions.len(),
{
    if actions.len() == 0 {
        Seq::empty()
    } else {
        let rest = updates_for(actions.drop_first(), label);
        match handed_over(actions[0]) {
            Some(update) => if update.0 == label {
                seq![update] + rest
            } else {
                rest
            },
            None => rest,
        }
    }
}

proof fn lemma_first(action: Action, rest: Seq<Action>, label: int)
    ensures
        updates_for(seq![action] + rest, label) == match handed_over(action) {
            Some(update) => if update.0 == label {
                seq![update] + updates_for(rest, label)
            } else {
                updates_for(rest, label)
            },
            None => updates_for(rest, label),
        },
{
    assert((seq![action] + rest).drop_first() =~= rest);
}

proof fn lemma_label_updates(
    cycle: Cycle,
    labels: Seq<int>,
    text: spec_fn(int) -> String,
    label: int,
)
    requires
        forall|i: int| 0 <= i < labels.len() ==> 0 <= #[trigger] labels[i] <= usize::MAX,
        forall|i: int, j: int|
            0 <= i < j < labels.len() ==> #[trigger] labels[i] < #[trigger] labels[j],
    ensures
        updates_for(label_log(cycle, labels, text), label) == if labels.contains(label) {
            seq![update_of(cycle, label, text(label))]
        } else {
            Seq::empty()
        },
    decreases labels.len(),
{
    if labels.len() > 0 {
        let first = labels[0];
        let fewer = labels.drop_first();
        assert forall|i: int| 0 <= i < fewer.len() implies 0 <= #[trigger] fewer[i]
            <= usize::MAX by {
            assert(fewer[i] == labels[i + 1]);
        }
        assert forall|i: int, j: int| 0 <= i < j < fewer.len() implies #[trigger] fewer[i]
            < #[trigger] fewer[j] by {
            assert(labels[i + 1] < labels[j + 1]);
        }
        lemma_label_updates(cycle, fewer, text, label);
        let send = Action::SendUpdate(update_of(cycle, first, text(first)));
        let tail = label_log(cycle, fewer, text);
        lemma_first(send, tail, label);
        lemma_first(Action::RenderLabel(first as usize), seq![send] + tail, label);
        if fewer.contains(label) {
            let k = choose|k: int| 0 <= k < fewer.len() && fewer[k] == label;
            assert(labels[k + 1] == label);
            assert(first < label);
        }
        if labels.contains(label) && label != first {
            let k = choose|k: int| 0 <= k < labels.len() && labels[k] == label;
            assert(fewer[k - 1] == label);
        }
        if label == first {
            assert(labels[0] == label);
            assert(updates_for(tail, label) =~= Seq::empty());
        }
    }
}

/// In one refresh a label gets one update if it is concerned and none otherwise.
pub proof fn a_refresh_updates_a_label_once(
    setup: Setup,
    refresh: RefreshType,
    value: Binary64,
    tooltip: String,
    text: spec_fn(int) -> String,
    label: int,
)
    requires
        0 <= label < setup.formats@.len(),
    ensures
        ({
            let cycle = cycle_of(setup, refresh, value, tooltip);
            updates_for(cycle_log(setup, refresh, value, tooltip, text), label)
                == if setup.concerned(cycle, label) {
                seq![update_of(cycle, label, text(label))]
            } else {
                Seq::empty()
            }
        }),
{
    let cycle = cycle_of(setup, refresh, value, tooltip);
    let labels = concerned_from(setup, cycle, 0);
    assert(setup.formats@.len() == setup.formats.len());
    each_concerned_label_is_updated_once(setup, cycle, 0);
    assert forall|i: int| 0 <= i < labels.len() implies 0 <= #[trigger] labels[i]
        <= usize::MAX by {
        assert(labels.contains(labels[i]));
    }
    lemma_label_updates(cycle, labels, text, label);
    let tail = label_log(cycle, labels, text);
    lemma_first(Action::RenderTooltip, tail, label);
    let shown = if setup.tooltip {
        seq![Action::RenderTooltip] + tail
    } else {
        tail
    };
    let judged = match setup.wanted_reading(refresh) {
        Some(reading) => {
            lemma_first(Action::TakeReading(reading), shown, label);
            seq![Action::TakeReading(reading)] + shown
        },
        None => shown,
    };
    lemma_first(Action::Refresh(refresh), judged, label);
    lemma_first(Action::AwaitRefresh, seq![Action::Refresh(refresh)] + judged, label);
}

/// The class names of some states.
pub open spec fn names_of(states: Seq<State>) -> Seq<String> {
    states.map_values(|state: State| state.name)
}

/// The latest metric value determines the active class. After a refresh that
/// read the value every label has the one state class that the value puts in
/// force, so none whose threshold exceeds it, and no state class at all when the
/// value is below every threshold, whatever the label showed before.
pub proof fn the_latest_value_determines_the_class(
    setup: Setup,
    refresh: RefreshType,
    value: Binary64,
    tooltip: String,
    text: spec_fn(int) -> String,
    label: int,
    before: LabelView,
    class: Seq<char>,
)
    requires
        setup.wanted_reading(refresh) is Some,
        0 <= label < setup.formats@.len(),
    ensures
        ({
            let names = names_of(setup.states@);
            let after = shown_after(
                names,
                before,
                updates_for(cycle_log(setup, refresh, value, tooltip, text), label),
            );
            &&& names_class(names, class) ==> {
                &&& after.classes.contains(class) <==> (resolved(
                    setup.states@,
                    value,
                ) matches Some(name) && name@ == class)
                &&& after.classes.contains(class) ==> exists|i: int|
                    #[trigger] active(setup.states@, value, i) && setup.states@[i].name@ == class
            }
            &&& !names_class(names, class) ==> (after.classes.contains(class)
                <==> before.classes.contains(class))
        }),
{
    let names = names_of(setup.states@);
    let cycle = cycle_of(setup, refresh, value, tooltip);
    let updates = updates_for(cycle_log(setup, refresh, value, tooltip, text), label);
    a_refresh_updates_a_label_once(setup, refresh, value, tooltip, text, label);
    assert(updates.last() == update_of(cycle, label, text(label)));
    the_last_judgement_shows(names, before, updates);
    assert(last_judgement(updates) == cycle.state);
    let after = shown_after(names, before, updates);
    assert(after.classes.contains(class) <==> if names_class(names, class) {
        wears(cycle.state, class)
    } else {
        before.classes.contains(class)
    });
    if names_class(names, class) && after.classes.contains(class) {
        let i = choose|i: int| active(setup.states@, value, i);
        assert(active(setup.states@, value, i) && setup.states@[i].name@ == class);
    }
}

/// A refresh that does not read the state metric changes no class of any label.
pub proof fn other_refreshes_keep_the_class(
    setup: Setup,
    refresh: RefreshType,
    value: Binary64,
    tooltip: String,
    text: spec_fn(int) -> String,
    label: int,
    before: LabelView,
)
    requires
        setup.wanted_reading(refresh) is None,
        0 <= label < setup.formats@.len(),
    ensures
        shown_after(
            names_of(setup.states@),
            before,
            updates_for(cycle_log(setup, refresh, value, tooltip, text), label),
        ).classes == before.classes,
{
    let updates = updates_for(cycle_log(setup, refresh, value, tooltip, text), label);
    a_refresh_updates_a_label_once(setup, refresh, value, tooltip, text, label);
    the_last_judgement_shows(names_of(setup.states@), before, updates);
    if updates.len() > 0 {
        assert(updates.drop_last() =~= Seq::empty());
        assert(last_judgement(updates.drop_last()) == StateChange::Keep);
    }
}

/// One refresh: the value that the state metric has at the time, and what the
/// tooltip and the labels render to.
pub struct Tick {
    pub refresh: RefreshType,
    pub value: Binary64,
    pub tooltip: String,
    pub text: spec_fn(int) -> String,
}

/// A label after some refreshes.
pub open spec fn shown_after_ticks(
    setup: Setup,
    label: int,
    before: LabelView,
    ticks: Seq<Tick>,
) -> LabelView
    decreases ticks.len(),
{
    if ticks.len() == 0 {
        before
    } else {
        let tick = ticks.last();
        shown_after(
            names_of(setup.states@),
            shown_after_ticks(setup, label, before, ticks.drop_last()),
            updates_for(
                cycle_log(setup, tick.refresh, tick.value, tick.tooltip, tick.text),
                label,
            ),
        )
    }
}

/// The value of the state metric that was read last in some refreshes, if any.
pub open spec fn latest_value(setup: Setup, ticks: Seq<Tick>) -> Option<Binary64>
    decreases ticks.len(),
{
    if ticks.len() == 0 {
        None
    } else if setup.wanted_reading(ticks.last().refresh) is Some {
        Some(ticks.last().value)
    } else {
        latest_value(setup, ticks.drop_last())
    }
}

/// After any number of refreshes a label has the state class that the value read
/// last puts in force, and no other; before the first reading its classes are as
/// they were.
pub proof fn the_active_class_follows_the_metric(
    setup: Setup,
    label: int,
    before: LabelView,
    ticks: Seq<Tick>,
)
    requires
        0 <= label < setup.formats@.len(),
    ensures
        match latest_value(setup, ticks) {
            Some(value) => forall|class: Seq<char>| #[trigger]
                names_class(names_of(setup.states@), class) ==> (shown_after_ticks(
                    setup,
                    label,
                    before,
                    ticks,
                ).classes.contains(class) <==> (resolved(setup.states@, value) matches Some(name)
                    && name@ == class)),
            None => shown_after_ticks(setup, label, before, ticks).classes == before.classes,
        },
    decreases ticks.len(),
{
    if ticks.len() > 0 {
        let tick = ticks.last();
        let fewer = ticks.drop_last();
        let mid = shown_after_ticks(setup, label, before, fewer);
        if setup.wanted_reading(tick.refresh) is Some {
            assert forall|class: Seq<char>| #[trigger]
                names_class(names_of(setup.states@), class) implies (shown_after_ticks(
                setup,
                label,
                before,
                ticks,
            ).classes.contains(class) <==> (resolved(setup.states@, tick.value) matches Some(name)
                && name@ == class)) by {
                the_latest_value_determines_the_class(
                    setup,
                    tick.refresh,
                    tick.value,
                    tick.tooltip,
                    tick.text,
                    label,
                    mid,
                    class,
                );
            }
        } else {
            the_active_class_follows_the_metric(setup, label, before, fewer);
            other_refreshes_keep_the_class(
                setup,
                tick.refresh,
                tick.value,
                tick.tooltip,
                tick.text,
                label,
                mid,
            );
        }
    }
}

} // verus!
