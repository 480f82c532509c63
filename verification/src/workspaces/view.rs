//! What a workspace button shows once its actions are performed.

use super::button::build_actions;
use super::button::icon_actions;
use super::button::icon_of;
use super::button::makes_button;
use super::button::open_state_actions;
use super::button::press_actions;
use super::button::setup_actions;
use super::button::toggled;
use super::button::workspace_actions;
use super::button::BoxStyle;
use super::button::Button;
use super::button::ButtonAction;
use super::button::ButtonClass;
use super::button::ClickHalf;
use super::button::GesturePhase;
use super::button::GestureStyle;
use super::button::Icon;
use super::button::PressAction;
use super::open_state::OpenState;
use super::open_state::Stage;
use vstd::prelude::*;

verus! {

/// The content of a button.
pub enum Content {
    Nothing,
    /// The label alone.
    Label,
    /// The row of label and icon box.
    Row,
}

/// A widget in the row of a button.
pub enum RowPart {
    Label,
    IconBox,
}

/// A box inside a button.
pub struct BoxView {
    pub class: Seq<char>,
    pub horizontal: bool,
    pub spacing: int,
}

/// An icon in the icon box.
pub struct IconView {
    /// What was looked up: window class, size and scale factor.
    pub lookup: (Seq<char>, i32, i32),
    pub pixel_size: i32,
    pub class: Seq<char>,
}

/// The widgets of a button, as far as the actions reach.
pub struct ButtonView {
    pub name: Seq<char>,
    pub label: Seq<char>,
    pub label_centred: bool,
    /// The icon size that the button was made with.
    pub icon_size: i32,
    pub classes: Set<ButtonClass>,
    /// The click gesture.
    pub gesture: Option<GestureStyle>,
    /// Whether the gesture is on the button.
    pub gesture_attached: bool,
    /// The workspaces that the gesture focuses, one for each connected handler.
    pub handlers: Seq<i64>,
    pub content: Content,
    pub row: Option<BoxView>,
    /// The widgets in the row, in order.
    pub row_parts: Seq<RowPart>,
    pub icon_box: Option<BoxView>,
    /// The icons in the icon box, in order.
    pub icons: Seq<IconView>,
    /// The scale factor that the icon box has.
    pub scale_factor: i32,
    /// The scale factor that was noted last.
    pub noted_scale: i32,
}

/// A box made in a style.
pub open spec fn box_of(style: BoxStyle) -> BoxView {
    BoxView {
        class: style.class.css_name(),
        horizontal: style.horizontal,
        spacing: style.spacing as int,
    }
}

/// An icon looked up for a scale factor.
pub open spec fn looked_up(icon: Icon, scale: i32) -> IconView {
    IconView {
        lookup: (icon.window_class@, icon.size, scale),
        pixel_size: icon.pixel_size,
        class: icon.class.css_name(),
    }
}

/// The widgets after one action.
pub open spec fn performed(view: ButtonView, action: ButtonAction) -> ButtonView {
    match action {
        ButtonAction::Create { label, icon_size } => ButtonView {
            label: label@,
            label_centred: false,
            icon_size,
            classes: Set::empty(),
            content: Content::Label,
            row: None,
            row_parts: Seq::empty(),
            icon_box: None,
            icons: Seq::empty(),
            ..view
        },
        ButtonAction::SetName(name) => ButtonView { name: name@, ..view },
        ButtonAction::AddClass(class) => ButtonView { classes: view.classes.insert(class), ..view },
        ButtonAction::RemoveClass(class) => ButtonView {
            classes: view.classes.remove(class),
            ..view
        },
        ButtonAction::SetLabel(label) => ButtonView { label: label@, ..view },
        ButtonAction::CentreLabel => ButtonView { label_centred: true, ..view },
        ButtonAction::CreateGesture(style) => ButtonView {
            gesture: Some(style),
            gesture_attached: false,
            handlers: Seq::empty(),
            ..view
        },
        ButtonAction::AttachGesture => ButtonView { gesture_attached: true, ..view },
        ButtonAction::Connect(id) => ButtonView { handlers: view.handlers.push(id), ..view },
        ButtonAction::Disconnect => ButtonView { handlers: view.handlers.drop_last(), ..view },
        ButtonAction::MakeRow(style) => ButtonView {
            row: Some(box_of(style)),
            row_parts: Seq::empty(),
            ..view
        },
        ButtonAction::MakeIconBox(style) => ButtonView {
            icon_box: Some(box_of(style)),
            icons: Seq::empty(),
            ..view
        },
        ButtonAction::ClearContent => ButtonView { content: Content::Nothing, ..view },
        ButtonAction::AppendLabel => ButtonView {
            row_parts: view.row_parts.push(RowPart::Label),
            ..view
        },
        ButtonAction::AppendIconBox => ButtonView {
            row_parts: view.row_parts.push(RowPart::IconBox),
            ..view
        },
        ButtonAction::ShowRow => ButtonView { content: Content::Row, ..view },
        ButtonAction::ClearIcons => ButtonView { icons: Seq::empty(), ..view },
        ButtonAction::MeasureScale => ButtonView { noted_scale: view.scale_factor, ..view },
        ButtonAction::AppendIcon(icon) => ButtonView {
            icons: view.icons.push(looked_up(icon, view.noted_scale)),
            ..view
        },
    }
}

/// The widgets after some actions.
pub open spec fn performed_all(view: ButtonView, actions: Seq<ButtonAction>) -> ButtonView
    decreases actions.len(),
{
    if actions.len() == 0 {
        view
    } else {
        performed(performed_all(view, actions.drop_last()), actions.last())
    }
}

/// Whether the content of the button is a row of class `button-contents` that
/// holds the label and behind it the icon box, of class `window-icons`.
pub open spec fn has_icon_row(view: ButtonView) -> bool {
    &&& view.content is Row
    &&& view.row == Some(BoxView { class: "button-contents"@, horizontal: true, spacing: 0 })
    &&& view.row_parts == seq![RowPart::Label, RowPart::IconBox]
    &&& view.icon_box == Some(BoxView { class: "window-icons"@, horizontal: true, spacing: 2 })
}

/// Whether the widgets are those of a button: its gesture acts on presses in the
/// capture phase and has one handler, which focuses the button's workspace, and
/// the icon container is there exactly when the button counts on it.
pub open spec fn belongs_to(view: ButtonView, button: Button) -> bool {
    &&& view.gesture == Some(
        GestureStyle { phase: GesturePhase::Capture, acts_on: ClickHalf::Press },
    )
    &&& view.gesture_attached
    &&& view.handlers == seq![button.workspace()]
    &&& if button.has_icon_container() {
        has_icon_row(view)
    } else {
        view.content is Label && view.icon_box is None
    }
}

proof fn lemma_push(view: ButtonView, actions: Seq<ButtonAction>, action: ButtonAction)
    ensures
        performed_all(view, actions.push(action)) == performed(
            performed_all(view, actions),
            action,
        ),
{
    assert(actions.push(action).drop_last() =~= actions);
}

proof fn lemma_concat(view: ButtonView, a: Seq<ButtonAction>, b: Seq<ButtonAction>)
    ensures
        performed_all(view, a + b) == performed_all(performed_all(view, a), b),
    decreases b.len(),
{
    if b.len() == 0 {
        assert(a + b =~= a);
    } else {
        lemma_concat(view, a, b.drop_last());
        assert((a + b).drop_last() =~= a + b.drop_last());
    }
}

/// Showing an open state sets the classes for visible, focused and inactive to
/// what it says, whatever was shown before, and touches nothing else.
pub proof fn an_open_state_shows(view: ButtonView, open_state: OpenState)
    ensures
        ({
            let after = performed_all(view, open_state_actions(open_state));
            &&& after.classes.contains(ButtonClass::Visible) == open_state.visible
            &&& after.classes.contains(ButtonClass::Focused) == (open_state.stage
                == Stage::Focused)
            &&& after.classes.contains(ButtonClass::Inactive) == (open_state.stage
                == Stage::Closed)
            &&& after.classes.contains(ButtonClass::Item) == view.classes.contains(
                ButtonClass::Item,
            )
            &&& after.classes.contains(ButtonClass::Urgent) == view.classes.contains(
                ButtonClass::Urgent,
            )
            &&& after == ButtonView { classes: after.classes, ..view }
        }),
{
    let actions = open_state_actions(open_state);
    reveal_with_fuel(performed_all, 4);
    assert(actions.drop_last().last() == actions[1]);
    assert(actions.drop_last().drop_last().last() == actions[0]);
}

/// No button is shown both focused and inactive.
pub proof fn focus_excludes_inactive(view: ButtonView, open_state: OpenState)
    ensures
        ({
            let classes = performed_all(view, open_state_actions(open_state)).classes;
            !(classes.contains(ButtonClass::Focused) && classes.contains(ButtonClass::Inactive))
        }),
{
    an_open_state_shows(view, open_state);
}

/// Only the last open state counts.
pub proof fn the_last_open_state_counts(view: ButtonView, first: OpenState, last: OpenState)
    ensures
        performed_all(
            performed_all(view, open_state_actions(first)),
            open_state_actions(last),
        ) == performed_all(view, open_state_actions(last)),
{
    let mid = performed_all(view, open_state_actions(first));
    let one = performed_all(mid, open_state_actions(last));
    let two = performed_all(view, open_state_actions(last));
    an_open_state_shows(view, first);
    an_open_state_shows(mid, last);
    an_open_state_shows(view, last);
    assert forall|class: ButtonClass| one.classes.contains(class) == two.classes.contains(
        class,
    ) by {
        match class {
            ButtonClass::Item => {},
            ButtonClass::Visible => {},
            ButtonClass::Focused => {},
            ButtonClass::Inactive => {},
            ButtonClass::Urgent => {},
        }
    }
    assert(one.classes =~= two.classes);
}

/// Urgency and the open state are shown independently of each other: the order
/// in which they are set makes no difference.
pub proof fn urgency_is_independent(view: ButtonView, urgent: bool, open_state: OpenState)
    ensures
        performed_all(
            performed(view, toggled(ButtonClass::Urgent, urgent)),
            open_state_actions(open_state),
        ) == performed(
            performed_all(view, open_state_actions(open_state)),
            toggled(ButtonClass::Urgent, urgent),
        ),
        performed(view, toggled(ButtonClass::Urgent, urgent)).classes.contains(ButtonClass::Urgent)
            == urgent,
{
    let first = performed(view, toggled(ButtonClass::Urgent, urgent));
    let one = performed_all(first, open_state_actions(open_state));
    let mid = performed_all(view, open_state_actions(open_state));
    let two = performed(mid, toggled(ButtonClass::Urgent, urgent));
    an_open_state_shows(first, open_state);
    an_open_state_shows(view, open_state);
    assert forall|class: ButtonClass| one.classes.contains(class) == two.classes.contains(
        class,
    ) by {
        match class {
            ButtonClass::Item => {},
            ButtonClass::Visible => {},
            ButtonClass::Focused => {},
            ButtonClass::Inactive => {},
            ButtonClass::Urgent => {},
        }
    }
    assert(one.classes =~= two.classes);
}

/// A new button is an item, is not urgent, shows its open state, bears its name
/// and its label in the centre, shows no icons, and has widgets in line with it.
pub proof fn a_new_button_shows(
    view: ButtonView,
    button: Button,
    actions: Seq<ButtonAction>,
    id: i64,
    name: Seq<char>,
    label: Seq<char>,
    open_state: OpenState,
    icon_size: i32,
)
    requires
        button.workspace() == id,
        !button.has_icon_container(),
        makes_button(actions, id, name, label, open_state, icon_size),
    ensures
        ({
            let after = performed_all(view, actions);
            &&& after.name == name
            &&& after.label == label
            &&& after.label_centred
            &&& after.icon_size == icon_size
            &&& belongs_to(after, button)
            &&& after.icons == Seq::<IconView>::empty()
            &&& after.classes.contains(ButtonClass::Item)
            &&& !after.classes.contains(ButtonClass::Urgent)
            &&& after.classes.contains(ButtonClass::Visible) == open_state.visible
            &&& after.classes.contains(ButtonClass::Focused) == (open_state.stage
                == Stage::Focused)
            &&& after.classes.contains(ButtonClass::Inactive) == (open_state.stage
                == Stage::Closed)
        }),
{
    let head = actions.take(7);
    assert(actions =~= head + open_state_actions(open_state)) by {
        assert(actions =~= actions.take(2) + actions.skip(2));
        assert(head =~= actions.take(2) + setup_actions(id, open_state).take(5));
        assert(setup_actions(id, open_state).skip(5) =~= open_state_actions(open_state));
    }
    lemma_concat(view, head, open_state_actions(open_state));
    let setup = setup_actions(id, open_state);
    assert forall|i: int| 2 <= i < 10 implies #[trigger] actions[i] == setup[i - 2] by {
        assert(actions.skip(2)[i - 2] == actions[i]);
    }
    let none = Seq::<ButtonAction>::empty();
    assert(head =~= none.push(actions[0]).push(actions[1]).push(actions[2]).push(actions[3]).push(
        actions[4],
    ).push(actions[5]).push(actions[6]));
    let a1 = none.push(actions[0]);
    let a2 = a1.push(actions[1]);
    let a3 = a2.push(actions[2]);
    let a4 = a3.push(actions[3]);
    let a5 = a4.push(actions[4]);
    let a6 = a5.push(actions[5]);
    lemma_push(view, none, actions[0]);
    lemma_push(view, a1, actions[1]);
    lemma_push(view, a2, actions[2]);
    lemma_push(view, a3, actions[3]);
    lemma_push(view, a4, actions[4]);
    lemma_push(view, a5, actions[5]);
    lemma_push(view, a6, actions[6]);
    an_open_state_shows(performed_all(view, head), open_state);
    assert(performed_all(view, head).handlers =~= seq![id]);
}

/// Giving a button another workspace leaves exactly one handler, for that
/// workspace, and touches nothing else.
pub proof fn a_new_workspace_replaces_the_old(view: ButtonView, old_id: i64, id: i64)
    requires
        view.handlers == seq![old_id],
    ensures
        performed_all(view, workspace_actions(id)) == (ButtonView { handlers: seq![id], ..view }),
{
    let none = Seq::<ButtonAction>::empty();
    let one = none.push(ButtonAction::Disconnect);
    assert(workspace_actions(id) =~= one.push(
        ButtonAction::Connect(id),
    ));
    lemma_push(view, none, ButtonAction::Disconnect);
    lemma_push(view, one, ButtonAction::Connect(id));
    assert(view.handlers.drop_last().push(id) =~= seq![id]);
}

proof fn lemma_icons(view: ButtonView, classes: Seq<String>, size: i32)
    ensures
        performed_all(view, icon_actions(classes, size)) == (ButtonView {
            icons: classes.map_values(
                |class: String| looked_up(icon_of(class, size), view.scale_factor),
            ),
            noted_scale: view.scale_factor,
            ..view
        }),
    decreases classes.len(),
{
    let f = |class: String| ButtonAction::AppendIcon(icon_of(class, size));
    let g = |class: String| looked_up(icon_of(class, size), view.scale_factor);
    if classes.len() == 0 {
        let none = Seq::<ButtonAction>::empty();
        let one = none.push(ButtonAction::ClearIcons);
        assert(icon_actions(classes, size) =~= one.push(ButtonAction::MeasureScale));
        lemma_push(view, none, ButtonAction::ClearIcons);
        lemma_push(view, one, ButtonAction::MeasureScale);
        assert(classes.map_values(g) =~= Seq::empty());
    } else {
        let fewer = classes.drop_last();
        lemma_icons(view, fewer, size);
        assert(icon_actions(classes, size) =~= icon_actions(fewer, size).push(f(classes.last())));
        lemma_push(view, icon_actions(fewer, size), f(classes.last()));
        assert(classes.map_values(g) =~= fewer.map_values(g).push(g(classes.last())));
    }
}

proof fn lemma_build(view: ButtonView)
    ensures
        performed_all(view, build_actions()) == (ButtonView {
            content: Content::Row,
            row: Some(BoxView { class: "button-contents"@, horizontal: true, spacing: 0 }),
            row_parts: seq![RowPart::Label, RowPart::IconBox],
            icon_box: Some(BoxView { class: "window-icons"@, horizontal: true, spacing: 2 }),
            icons: Seq::empty(),
            ..view
        }),
{
    let build = build_actions();
    let a0 = Seq::<ButtonAction>::empty();
    let a1 = a0.push(build[0]);
    let a2 = a1.push(build[1]);
    let a3 = a2.push(build[2]);
    let a4 = a3.push(build[3]);
    let a5 = a4.push(build[4]);
    assert(build =~= a5.push(build[5]));
    lemma_push(view, a0, build[0]);
    lemma_push(view, a1, build[1]);
    lemma_push(view, a2, build[2]);
    lemma_push(view, a3, build[3]);
    lemma_push(view, a4, build[4]);
    lemma_push(view, a5, build[5]);
    assert(performed_all(view, build).row_parts =~= seq![RowPart::Label, RowPart::IconBox]);
}

/// A button without an icon container gets a row of class `button-contents` with
/// the label as it was and an empty icon box of class `window-icons`, and nothing
/// else is touched. A button that has one keeps it, with its icons.
pub proof fn the_icon_container_is_there(view: ButtonView, button: Button)
    requires
        belongs_to(view, button),
    ensures
        ({
            let after = performed_all(view, button.container_actions());
            &&& has_icon_row(after)
            &&& button.has_icon_container() ==> after == view
            &&& !button.has_icon_container() ==> after == (ButtonView {
                content: after.content,
                row: after.row,
                row_parts: after.row_parts,
                icon_box: after.icon_box,
                icons: Seq::empty(),
                ..view
            })
        }),
{
    if !button.has_icon_container() {
        lemma_build(view);
    }
}

/// Asking for the icon container twice is the same as asking for it once:
/// whatever icons it holds by then, the second time nothing is done.
pub proof fn the_icon_container_is_built_once(
    view: ButtonView,
    button: Button,
    again: Button,
    later: ButtonView,
)
    requires
        belongs_to(view, button),
        again.has_icon_container(),
    ensures
        again.container_actions() == Seq::<ButtonAction>::empty(),
        performed_all(later, again.container_actions()) == later,
        performed_all(view, button.container_actions() + again.container_actions())
            == performed_all(view, button.container_actions()),
{
    assert(button.container_actions() + again.container_actions() =~= button.container_actions());
}

/// Setting the window icons leaves exactly one icon for each of the given classes,
/// in order, whatever icons there were. Each is looked up in the button's size
/// for the scale factor of the icon box, is shown in that size, and is of class
/// `window-icon`. The icon container is there, and nothing else is touched.
pub proof fn the_given_icons_show(view: ButtonView, button: Button, classes: Seq<String>)
    requires
        belongs_to(view, button),
    ensures
        ({
            let after = performed_all(view, button.window_icon_actions(classes));
            &&& after.icons == classes.map_values(
                |class: String|
                    IconView {
                        lookup: (class@, button.size(), view.scale_factor),
                        pixel_size: button.size(),
                        class: "window-icon"@,
                    },
            )
            &&& has_icon_row(after)
            &&& after == (ButtonView {
                content: after.content,
                row: after.row,
                row_parts: after.row_parts,
                icon_box: after.icon_box,
                icons: after.icons,
                noted_scale: view.scale_factor,
                ..view
            })
        }),
{
    let size = button.size();
    the_icon_container_is_there(view, button);
    lemma_concat(view, button.container_actions(), icon_actions(classes, size));
    let mid = performed_all(view, button.container_actions());
    lemma_icons(mid, classes, size);
    let after = performed_all(view, button.window_icon_actions(classes));
    assert(after.icons =~= classes.map_values(
        |class: String|
            IconView {
                lookup: (class@, size, view.scale_factor),
                pixel_size: size,
                class: "window-icon"@,
            },
    ));
}

/// What connected handlers do: each acts in turn.
pub open spec fn handled(handlers: Seq<i64>) -> Seq<PressAction>
    decreases handlers.len(),
{
    if handlers.len() == 0 {
        Seq::empty()
    } else {
        handled(handlers.drop_last()) + press_actions(handlers.last())
    }
}

/// What a press on the button does: the handlers act where the gesture is on the
/// button and acts on presses.
pub open spec fn pressed(view: ButtonView) -> Seq<PressAction> {
    match view.gesture {
        Some(style) if view.gesture_attached && style.acts_on == ClickHalf::Press => handled(
            view.handlers,
        ),
        _ => Seq::empty(),
    }
}

/// A press on a button focuses the workspace that it stands for, once, and no
/// other.
pub proof fn a_press_focuses_the_workspace(view: ButtonView, button: Button)
    requires
        belongs_to(view, button),
    ensures
        pressed(view) == press_actions(button.workspace()),
        pressed(view) == seq![PressAction::Claim, PressAction::Focus(button.workspace())],
{
    let handlers = seq![button.workspace()];
    assert(handlers.drop_last() =~= Seq::<i64>::empty());
    assert(handled(handlers.drop_last()) =~= Seq::<PressAction>::empty());
    assert(handled(handlers) =~= press_actions(button.workspace()));
}

/// A call of a method of a button that changes its widgets.
pub enum ButtonCall {
    EnsureIconContainer,
    SetWindowIcons(Seq<String>),
    SetLabel(String),
    SetOpenState(OpenState),
    SetUrgent(bool),
    SetWorkspaceId(i64),
}

/// The actions that a call gives.
pub open spec fn call_actions(button: Button, call: ButtonCall) -> Seq<ButtonAction> {
    match call {
        ButtonCall::EnsureIconContainer => button.container_actions(),
        ButtonCall::SetWindowIcons(classes) => button.window_icon_actions(classes),
        ButtonCall::SetLabel(label) => seq![ButtonAction::SetLabel(label)],
        ButtonCall::SetOpenState(open_state) => open_state_actions(open_state),
        ButtonCall::SetUrgent(urgent) => seq![toggled(ButtonClass::Urgent, urgent)],
        ButtonCall::SetWorkspaceId(id) => workspace_actions(id),
    }
}

/// Whether a call can make one button into the other.
pub open spec fn becomes(before: Button, call: ButtonCall, after: Button) -> bool {
    &&& after.size() == before.size()
    &&& after.workspace() == match call {
        ButtonCall::SetWorkspaceId(id) => id,
        _ => before.workspace(),
    }
    &&& after.has_icon_container() == match call {
        ButtonCall::EnsureIconContainer | ButtonCall::SetWindowIcons(_) => true,
        _ => before.has_icon_container(),
    }
}

/// Whether each call makes a button into the next.
pub open spec fn history(buttons: Seq<Button>, calls: Seq<ButtonCall>) -> bool {
    &&& buttons.len() == calls.len() + 1
    &&& forall|i: int|
        0 <= i < calls.len() ==> becomes(buttons[i], #[trigger] calls[i], buttons[i + 1])
}

/// The widgets after some calls, all their actions performed.
pub open spec fn replayed(
    view: ButtonView,
    buttons: Seq<Button>,
    calls: Seq<ButtonCall>,
) -> ButtonView
    decreases calls.len(),
{
    if calls.len() == 0 {
        view
    } else {
        let n = calls.len() - 1;
        performed_all(
            replayed(view, buttons.drop_last(), calls.drop_last()),
            call_actions(buttons[n], calls[n]),
        )
    }
}

/// The workspace set last by some calls, else the one to begin with.
pub open spec fn last_workspace(first: i64, calls: Seq<ButtonCall>) -> i64
    decreases calls.len(),
{
    if calls.len() == 0 {
        first
    } else {
        match calls.last() {
            ButtonCall::SetWorkspaceId(id) => id,
            _ => last_workspace(first, calls.drop_last()),
        }
    }
}

/// Whether the button is shown both focused and inactive.
pub open spec fn contradictory(view: ButtonView) -> bool {
    view.classes.contains(ButtonClass::Focused) && view.classes.contains(ButtonClass::Inactive)
}

/// Whichever method of a button is called, its widgets stay its own, and it does
/// not come to be shown both focused and inactive.
pub proof fn widgets_stay_in_line(
    view: ButtonView,
    before: Button,
    call: ButtonCall,
    after: Button,
)
    requires
        belongs_to(view, before),
        becomes(before, call, after),
    ensures
        belongs_to(performed_all(view, call_actions(before, call)), after),
        !contradictory(view) ==> !contradictory(
            performed_all(view, call_actions(before, call)),
        ),
{
    let none = Seq::<ButtonAction>::empty();
    match call {
        ButtonCall::EnsureIconContainer => {
            the_icon_container_is_there(view, before);
        },
        ButtonCall::SetWindowIcons(classes) => {
            the_given_icons_show(view, before, classes);
        },
        ButtonCall::SetLabel(label) => {
            let action = ButtonAction::SetLabel(label);
            assert(seq![action] =~= none.push(action));
            lemma_push(view, none, action);
        },
        ButtonCall::SetOpenState(open_state) => {
            an_open_state_shows(view, open_state);
        },
        ButtonCall::SetUrgent(urgent) => {
            let action = toggled(ButtonClass::Urgent, urgent);
            assert(seq![action] =~= none.push(action));
            lemma_push(view, none, action);
        },
        ButtonCall::SetWorkspaceId(id) => {
            a_new_workspace_replaces_the_old(view, before.workspace(), id);
        },
    }
}

proof fn lemma_history(view: ButtonView, buttons: Seq<Button>, calls: Seq<ButtonCall>)
    requires
        history(buttons, calls),
        belongs_to(view, buttons[0]),
        !contradictory(view),
    ensures
        belongs_to(replayed(view, buttons, calls), buttons.last()),
        !contradictory(replayed(view, buttons, calls)),
        buttons.last().workspace() == last_workspace(buttons[0].workspace(), calls),
    decreases calls.len(),
{
    if calls.len() > 0 {
        let n = calls.len() - 1;
        let earlier = buttons.drop_last();
        let fewer = calls.drop_last();
        assert forall|i: int| 0 <= i < fewer.len() implies becomes(
            earlier[i],
            #[trigger] fewer[i],
            earlier[i + 1],
        ) by {
            assert(becomes(buttons[i], calls[i], buttons[i + 1]));
        }
        lemma_history(view, earlier, fewer);
        assert(becomes(buttons[n], calls[n], buttons[n + 1]));
        assert(earlier.last() == buttons[n]);
        widgets_stay_in_line(
            replayed(view, earlier, fewer),
            buttons[n],
            calls[n],
            buttons[n + 1],
        );
    }
}

/// Whatever methods of a new button are called, in whatever order: its widgets
/// stay its own, it is never shown both focused and inactive, and a press focuses
/// the workspace that was set last.
pub proof fn a_button_stays_in_line(
    view: ButtonView,
    actions: Seq<ButtonAction>,
    id: i64,
    name: Seq<char>,
    label: Seq<char>,
    open_state: OpenState,
    buttons: Seq<Button>,
    calls: Seq<ButtonCall>,
)
    requires
        history(buttons, calls),
        buttons[0].workspace() == id,
        !buttons[0].has_icon_container(),
        makes_button(actions, id, name, label, open_state, buttons[0].size()),
    ensures
        ({
            let after = replayed(performed_all(view, actions), buttons, calls);
            &&& belongs_to(after, buttons.last())
            &&& !contradictory(after)
            &&& pressed(after) == press_actions(last_workspace(id, calls))
            &&& pressed(after) == seq![
                PressAction::Claim,
                PressAction::Focus(last_workspace(id, calls)),
            ]
        }),
{
    let size = buttons[0].size();
    a_new_button_shows(view, buttons[0], actions, id, name, label, open_state, size);
    let made = performed_all(view, actions);
    lemma_history(made, buttons, calls);
    a_press_focuses_the_workspace(replayed(made, buttons, calls), buttons.last());
}

} // verus!
