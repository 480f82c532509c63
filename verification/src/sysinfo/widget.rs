//! What the labels look like and how an update changes them.

use super::controller::SysInfoUpdate;
use super::module::ModuleOrientation;
use super::module::SysInfoModule;
use super::states::ascending;
use super::states::lemma_names_differ;
use super::states::State;
use super::states::StateChange;
use vstd::prelude::*;

verus! {

/// Pixels between two labels.
pub const LABEL_SPACING: i32 = 10;

/// A change to a label.
#[derive(Debug)]
pub enum LabelChange {
    /// Show this text, with markup characters escaped.
    SetText(String),
    SetTooltip(String),
    AddClass(String),
    RemoveClass(String),
}

/// What a new label is like.
#[derive(Debug)]
pub struct LabelStyle {
    /// The class that it has from the start.
    pub class: String,
    /// Whether its text is read as markup.
    pub markup: bool,
    /// Whether it stands in the centre, both across and along.
    pub centred: bool,
}

/// The box of labels.
#[derive(Debug)]
pub struct SysInfoWidget {
    pub orientation: ModuleOrientation,
    pub spacing: i32,
    /// How many labels there are, one for each format string, in order.
    pub labels: usize,
    /// What each of the labels is like.
    pub style: LabelStyle,
    /// Whether a popup comes with the box.
    pub popup: bool,
    /// The classes that a label can take on to show a state.
    pub state_names: Vec<String>,
}

impl<L, C> SysInfoModule<L, C> {
    /// The way the labels are laid out: the module's own, else the one that its
    /// layout options give, else horizontal.
    pub open spec fn orientation(self, layout: Option<ModuleOrientation>) -> ModuleOrientation {
        match (self.direction, layout) {
            (Some(orientation), _) => orientation,
            (None, Some(orientation)) => orientation,
            (None, None) => ModuleOrientation::Horizontal,
        }
    }

    /// The box of labels, one for each format string. What the layout options
    /// say of the orientation is given as `layout`.
    pub fn into_widget(self, layout: Option<ModuleOrientation>) -> (widget: SysInfoWidget)
        ensures
            widget.orientation == self.orientation(layout),
            self.direction matches Some(own) ==> widget.orientation == own,
            self.direction is None ==> (layout matches Some(given) ==> widget.orientation == given),
            self.direction is None && layout is None ==> widget.orientation
                == ModuleOrientation::Horizontal,
            widget.spacing == 10,
            widget.labels == self.format@.len(),
            widget.style.class@ == "item"@,
            widget.style.markup,
            widget.style.centred,
            !widget.popup,
            widget.state_names@ == self.states@.map_values(|state: State| state.name),
            ascending(self.states@),
    {
        SysInfoWidget {
            orientation: match self.direction {
                Some(orientation) => orientation,
                None => layout.unwrap_or(ModuleOrientation::Horizontal),
            },
            spacing: LABEL_SPACING,
            labels: self.format.len(),
            style: LabelStyle { class: "item".to_owned(), markup: true, centred: true },
            popup: false,
            state_names: self.states.names(),
        }
    }
}

/// Whether a change of state puts a class on.
pub open spec fn wears(state: StateChange, class: Seq<char>) -> bool {
    state matches StateChange::Show(shown) && shown@ == class
}

/// What a judgement of the state makes of one state class.
pub open spec fn class_change(name: String, state: StateChange) -> LabelChange {
    if wears(state, name@) {
        LabelChange::AddClass(name)
    } else {
        LabelChange::RemoveClass(name)
    }
}

/// The changes that an update makes to its label: the text; the tooltip if one
/// came; and if the state was judged, the class to show on and every other state
/// class off.
pub open spec fn changes_of(state_names: Seq<String>, update: SysInfoUpdate) -> Seq<LabelChange> {
    let tooltip = match update.3 {
        Some(tooltip) => seq![LabelChange::SetTooltip(tooltip)],
        None => Seq::empty(),
    };
    let classes = match update.2 {
        StateChange::Keep => Seq::empty(),
        StateChange::Clear => state_names.map_values(|name: String| LabelChange::RemoveClass(name)),
        StateChange::Show(_) => state_names.map_values(
            |name: String| class_change(name, update.2),
        ),
    };
    seq![LabelChange::SetText(update.1)] + tooltip + classes
}

/// Clearing the state is a judgement that shows no class.
proof fn lemma_clear(state_names: Seq<String>)
    ensures
        state_names.map_values(|name: String| LabelChange::RemoveClass(name))
            == state_names.map_values(|name: String| class_change(name, StateChange::Clear)),
{
    assert(state_names.map_values(|name: String| LabelChange::RemoveClass(name))
        =~= state_names.map_values(|name: String| class_change(name, StateChange::Clear)));
}

impl SysInfoWidget {
    /// The changes to make to the label that an update is for.
    pub fn receive(&self, update: SysInfoUpdate) -> (changes: Vec<LabelChange>)
        requires
            update.0 < self.labels,
        ensures
            changes@ == changes_of(self.state_names@, update),
            changes@[0] == LabelChange::SetText(update.1),
            update.3 matches Some(tooltip) ==> changes@[1] == LabelChange::SetTooltip(tooltip),
    {
        proof {
            the_changes_in_full(self.state_names@, update);
        }
        let (_, text, state, tooltip) = update;
        let mut changes: Vec<LabelChange> = Vec::new();
        changes.push(LabelChange::SetText(text));
        if let Some(tooltip) = tooltip {
            changes.push(LabelChange::SetTooltip(tooltip));
        }
        let ghost head = changes@;
        match state {
            StateChange::Keep => {},
            StateChange::Clear => {
                let ghost all = self.state_names@.map_values(
                    |name: String| LabelChange::RemoveClass(name),
                );
                for i in 0..self.state_names.len()
                    invariant
                        all == self.state_names@.map_values(
                            |name: String| LabelChange::RemoveClass(name),
                        ),
                        changes@ =~= head + all.take(i as int),
                {
                    changes.push(LabelChange::RemoveClass(self.state_names[i].clone()));
                }
                assert(all.take(all.len() as int) =~= all);
            },
            StateChange::Show(class) => {
                let ghost all = self.state_names@.map_values(
                    |name: String| class_change(name, update.2),
                );
                for i in 0..self.state_names.len()
                    invariant
                        update.2 == StateChange::Show(class),
                        all == self.state_names@.map_values(
                            |name: String| class_change(name, update.2),
                        ),
                        changes@ =~= head + all.take(i as int),
                {
                    let name: String = self.state_names[i].clone();
                    if name == class {
                        changes.push(LabelChange::AddClass(name));
                    } else {
                        changes.push(LabelChange::RemoveClass(name));
                    }
                }
                assert(all.take(all.len() as int) =~= all);
            },
        }
        assert(changes@ =~= changes_of(self.state_names@, update));
        changes
    }
}

/// What a label shows.
pub struct LabelView {
    pub text: Seq<char>,
    pub tooltip: Option<Seq<char>>,
    pub classes: Set<Seq<char>>,
}

/// A label after one change.
pub open spec fn changed(label: LabelView, change: LabelChange) -> LabelView {
    match change {
        LabelChange::SetText(text) => LabelView { text: text@, ..label },
        LabelChange::SetTooltip(tooltip) => LabelView { tooltip: Some(tooltip@), ..label },
        LabelChange::AddClass(class) => LabelView {
            classes: label.classes.insert(class@),
            ..label
        },
        LabelChange::RemoveClass(class) => LabelView {
            classes: label.classes.remove(class@),
            ..label
        },
    }
}

/// A label after some changes.
pub open spec fn changed_all(label: LabelView, changes: Seq<LabelChange>) -> LabelView
    decreases changes.len(),
{
    if changes.len() == 0 {
        label
    } else {
        changed(changed_all(label, changes.drop_last()), changes.last())
    }
}

proof fn lemma_changed_push(label: LabelView, changes: Seq<LabelChange>, change: LabelChange)
    ensures
        changed_all(label, changes.push(change)) == changed(changed_all(label, changes), change),
{
    assert(changes.push(change).drop_last() =~= changes);
}

/// Whether a class is among the state classes.
pub open spec fn names_class(state_names: Seq<String>, class: Seq<char>) -> bool {
    exists|i: int| 0 <= i < state_names.len() && #[trigger] state_names[i]@ == class
}

proof fn lemma_class_changes(
    label: LabelView,
    head: Seq<LabelChange>,
    names: Seq<String>,
    state: StateChange,
)
    ensures
        ({
            let before = changed_all(label, head);
            let after = changed_all(
                label,
                head + names.map_values(|name: String| class_change(name, state)),
            );
            &&& after.text == before.text
            &&& after.tooltip == before.tooltip
            &&& forall|other: Seq<char>| #[trigger]
                after.classes.contains(other) <==> if names_class(names, other) {
                    wears(state, other)
                } else {
                    before.classes.contains(other)
                }
        }),
    decreases names.len(),
{
    let f = |name: String| class_change(name, state);
    let changes = head + names.map_values(f);
    if names.len() == 0 {
        assert(changes =~= head);
    } else {
        let fewer = names.drop_last();
        lemma_class_changes(label, head, fewer, state);
        let last = names.last();
        assert(changes =~= (head + fewer.map_values(f)).push(f(last)));
        lemma_changed_push(label, head + fewer.map_values(f), f(last));
        let before = changed_all(label, head);
        let mid = changed_all(label, head + fewer.map_values(f));
        let after = changed_all(label, changes);
        assert forall|other: Seq<char>| #[trigger]
            after.classes.contains(other) <==> if names_class(names, other) {
                wears(state, other)
            } else {
                before.classes.contains(other)
            } by {
            assert(mid.classes.contains(other) <==> if names_class(fewer, other) {
                wears(state, other)
            } else {
                before.classes.contains(other)
            });
            if names_class(fewer, other) {
                let i = choose|i: int| 0 <= i < fewer.len() && #[trigger] fewer[i]@ == other;
                assert(names[i]@ == other);
            }
            assert(names[names.len() - 1]@ == last@);
            if names_class(names, other) && other != last@ {
                let i = choose|i: int| 0 <= i < names.len() && #[trigger] names[i]@ == other;
                assert(fewer[i]@ == other);
            }
        }
    }
}

/// After an update a label shows its text, and its tooltip if one came. If the
/// state was judged, the label has the state class to show, if any, and no other
/// one; all classes that are no state classes stay as they were. If the state
/// was not judged, no class changes.
pub proof fn an_update_shows(state_names: Seq<String>, update: SysInfoUpdate, before: LabelView)
    ensures
        ({
            let after = changed_all(before, changes_of(state_names, update));
            &&& after.text == update.1@
            &&& after.tooltip == match update.3 {
                Some(tooltip) => Some(tooltip@),
                None => before.tooltip,
            }
            &&& match update.2 {
                StateChange::Keep => after.classes == before.classes,
                state => forall|other: Seq<char>| #[trigger]
                    after.classes.contains(other) <==> if names_class(state_names, other) {
                        wears(state, other)
                    } else {
                        before.classes.contains(other)
                    },
            }
        }),
{
    let text = seq![LabelChange::SetText(update.1)];
    let none = Seq::<LabelChange>::empty();
    assert(text =~= none.push(LabelChange::SetText(update.1)));
    lemma_changed_push(before, none, LabelChange::SetText(update.1));
    let head = match update.3 {
        Some(tooltip) => {
            let change = LabelChange::SetTooltip(tooltip);
            assert(text + seq![change] =~= text.push(change));
            lemma_changed_push(before, text, change);
            text + seq![change]
        },
        None => {
            assert(text + none =~= text);
            text
        },
    };
    match update.2 {
        StateChange::Keep => {
            assert(head + none =~= head);
        },
        state => {
            lemma_clear(state_names);
            lemma_class_changes(before, head, state_names, state);
        },
    }
}

/// An update that brings a configured state leaves exactly that one state class
/// on the label.
pub proof fn exactly_one_state_class_shows(
    states: Seq<State>,
    i: int,
    j: int,
    update: SysInfoUpdate,
    before: LabelView,
)
    requires
        ascending(states),
        0 <= i < states.len(),
        0 <= j < states.len(),
        update.2 == StateChange::Show(states[i].name),
    ensures
        changed_all(
            before,
            changes_of(states.map_values(|state: State| state.name), update),
        ).classes.contains(states[j].name@) <==> i == j,
{
    let names = states.map_values(|state: State| state.name);
    an_update_shows(names, update, before);
    assert(names[j]@ == states[j].name@);
    assert(names_class(names, states[j].name@));
    if i != j {
        lemma_names_differ(states, i, j);
    }
}

/// The module's own direction counts before that of the layout options, and that
/// before the default, which is horizontal.
pub proof fn the_own_direction_comes_first<L, C>(
    module: SysInfoModule<L, C>,
    layout: Option<ModuleOrientation>,
)
    ensures
        module.direction matches Some(own) ==> module.orientation(layout) == own,
        module.direction is None ==> (layout matches Some(given) ==> module.orientation(layout)
            == given),
        module.direction is None && layout is None ==> module.orientation(layout)
            == ModuleOrientation::Horizontal,
{
}

/// The changes of an update in full, in order: the text; the tooltip, if one came;
/// and if the state was judged, one change for each state class, which puts on the
/// class to show and takes off all others.
pub proof fn the_changes_in_full(state_names: Seq<String>, update: SysInfoUpdate)
    ensures
        ({
            let changes = changes_of(state_names, update);
            let head: int = if update.3 is Some {
                2
            } else {
                1
            };
            &&& changes[0] == LabelChange::SetText(update.1)
            &&& update.3 matches Some(tooltip) ==> changes[1] == LabelChange::SetTooltip(tooltip)
            &&& update.2 == StateChange::Keep ==> changes.len() == head
            &&& update.2 != StateChange::Keep ==> changes.len() == head + state_names.len()
            &&& update.2 == StateChange::Clear ==> forall|i: int|
                0 <= i < state_names.len() ==> changes[head + i] == LabelChange::RemoveClass(
                    #[trigger] state_names[i],
                )
            &&& update.2 matches StateChange::Show(class) ==> forall|i: int|
                0 <= i < state_names.len() ==> changes[head + i] == if (
                #[trigger] state_names[i])@ == class@ {
                    LabelChange::AddClass(state_names[i])
                } else {
                    LabelChange::RemoveClass(state_names[i])
                }
        }),
{
}

/// After an update a label shows its text, and its tooltip if one came, else the one
/// it had. Where the state was judged it wears, of the state classes, the one to show
/// and no other; every other class stays. Where it was not, no class changes.
pub proof fn a_label_wears_what_is_shown(
    state_names: Seq<String>,
    update: SysInfoUpdate,
    before: LabelView,
    class: Seq<char>,
)
    ensures
        ({
            let after = changed_all(before, changes_of(state_names, update));
            let is_state = exists|i: int|
                0 <= i < state_names.len() && #[trigger] state_names[i]@ == class;
            &&& after.text == update.1@
            &&& update.3 matches Some(tooltip) ==> after.tooltip == Some(tooltip@)
            &&& update.3 is None ==> after.tooltip == before.tooltip
            &&& update.2 == StateChange::Keep ==> after.classes == before.classes
            &&& !is_state ==> after.classes.contains(class) == before.classes.contains(class)
            &&& is_state && update.2 == StateChange::Clear ==> !after.classes.contains(class)
            &&& is_state ==> (update.2 matches StateChange::Show(shown) ==> after.classes.contains(
                class,
            ) == (shown@ == class))
        }),
{
    an_update_shows(state_names, update, before);
    let after = changed_all(before, changes_of(state_names, update));
    if update.2 != StateChange::Keep {
        assert(after.classes.contains(class) <==> if names_class(state_names, class) {
            wears(update.2, class)
        } else {
            before.classes.contains(class)
        });
    }
}

} // verus!
