//! A workspace button: what it stands for, and the actions that bring its
//! widgets in line.

use super::open_state::OpenState;
use super::open_state::Stage;
use vstd::prelude::*;

verus! {

/// A style class of a workspace button.
#[derive(Debug, Clone, Copy, PartialEq, Eq, Structural)]
pub enum ButtonClass {
    /// Every button of the list.
    Item,
    /// The workspace can be seen.
    Visible,
    /// The workspace has the focus.
    Focused,
    /// The workspace is not open.
    Inactive,
    /// A window on the workspace asks for attention.
    Urgent,
}

impl ButtonClass {
    /// The name of the class in style sheets.
    pub open spec fn css_name(self) -> Seq<char> {
        match self {
            ButtonClass::Item => "item"@,
            ButtonClass::Visible => "visible"@,
            ButtonClass::Focused => "focused"@,
            ButtonClass::Inactive => "inactive"@,
            ButtonClass::Urgent => "urgent"@,
        }
    }

    /// The name of the class in style sheets.
    pub fn name(self) -> (name: String)
        ensures
            name@ == self.css_name(),
            self is Item ==> name@ == "item"@,
            self is Visible ==> name@ == "visible"@,
            self is Focused ==> name@ == "focused"@,
            self is Inactive ==> name@ == "inactive"@,
            self is Urgent ==> name@ == "urgent"@,
    {
        match self {
            ButtonClass::Item => "item".to_owned(),
            ButtonClass::Visible => "visible".to_owned(),
            ButtonClass::Focused => "focused".to_owned(),
            ButtonClass::Inactive => "inactive".to_owned(),
            ButtonClass::Urgent => "urgent".to_owned(),
        }
    }
}

/// Different classes have different names.
pub proof fn class_names_differ(a: ButtonClass, b: ButtonClass)
    requires
        a != b,
    ensures
        a.css_name() != b.css_name(),
{
    reveal_strlit("item");
    reveal_strlit("visible");
    reveal_strlit("focused");
    reveal_strlit("inactive");
    reveal_strlit("urgent");
    assert("item"@.len() == 4);
    assert("urgent"@.len() == 6);
    assert("visible"@.len() == 7);
    assert("focused"@.len() == 7);
    assert("inactive"@.len() == 8);
    assert("visible"@[0] != "focused"@[0]);
}

/// A style class of a widget inside a button.
#[derive(Debug, Clone, Copy, PartialEq, Eq, Structural)]
pub enum ChildClass {
    /// The row of label and icons.
    ButtonContents,
    /// The box of icons.
    WindowIcons,
    /// An icon.
    WindowIcon,
}

impl ChildClass {
    /// The name of the class in style sheets.
    pub open spec fn css_name(self) -> Seq<char> {
        match self {
            ChildClass::ButtonContents => "button-contents"@,
            ChildClass::WindowIcons => "window-icons"@,
            ChildClass::WindowIcon => "window-icon"@,
        }
    }

    /// The name of the class in style sheets.
    pub fn name(self) -> (name: String)
        ensures
            name@ == self.css_name(),
            self is ButtonContents ==> name@ == "button-contents"@,
            self is WindowIcons ==> name@ == "window-icons"@,
            self is WindowIcon ==> name@ == "window-icon"@,
    {
        match self {
            ChildClass::ButtonContents => "button-contents".to_owned(),
            ChildClass::WindowIcons => "window-icons".to_owned(),
            ChildClass::WindowIcon => "window-icon".to_owned(),
        }
    }
}

/// What a box inside a button is like.
#[derive(Debug, Clone, Copy, PartialEq, Eq, Structural)]
pub struct BoxStyle {
    pub class: ChildClass,
    /// Whether it lays its content out from left to right.
    pub horizontal: bool,
    /// Pixels between two of its widgets.
    pub spacing: i32,
}

/// An icon to show for a window.
#[derive(Debug)]
pub struct Icon {
    /// The window class that the icon is looked up for.
    pub window_class: String,
    /// The size that the icon is looked up in.
    pub size: i32,
    /// The size that the icon is shown in.
    pub pixel_size: i32,
    pub class: ChildClass,
}

/// When a gesture gets to see an event on its way through the widgets.
#[derive(Debug, Clone, Copy, PartialEq, Eq, Structural)]
pub enum GesturePhase {
    /// On the way down to the widget that the event is for.
    Capture,
    /// On the way back up.
    Bubble,
}

/// Which half of a click a gesture acts on.
#[derive(Debug, Clone, Copy, PartialEq, Eq, Structural)]
pub enum ClickHalf {
    Press,
    Release,
}

/// What a click gesture is like.
#[derive(Debug, Clone, Copy, PartialEq, Eq, Structural)]
pub struct GestureStyle {
    pub phase: GesturePhase,
    pub acts_on: ClickHalf,
}

/// Something to do to the widgets of a button.
#[derive(Debug)]
pub enum ButtonAction {
    /// Make the button with a label and an icon size.
    Create { label: String, icon_size: i32 },
    /// Give the button its widget name.
    SetName(String),
    AddClass(ButtonClass),
    RemoveClass(ButtonClass),
    /// Centre the label both ways.
    CentreLabel,
    /// Show this text on the label, with markup characters escaped.
    SetLabel(String),
    /// Make the click gesture.
    CreateGesture(GestureStyle),
    /// Have the gesture focus this workspace.
    Connect(i64),
    /// Have the gesture no longer focus the workspace it did.
    Disconnect,
    /// Put the gesture on the button.
    AttachGesture,
    /// Make the row for the label and the icon box, with nothing in it.
    MakeRow(BoxStyle),
    /// Make the icon box, with nothing in it.
    MakeIconBox(BoxStyle),
    /// Take the content out of the button, so that it can go elsewhere.
    ClearContent,
    /// Put the label at the end of the row.
    AppendLabel,
    /// Put the icon box at the end of the row.
    AppendIconBox,
    /// Make the row the content of the button.
    ShowRow,
    /// Remove all icons from the icon box.
    ClearIcons,
    /// Note the scale factor of the icon box: icons are looked up for it from
    /// then on.
    MeasureScale,
    /// Look up an icon for the noted scale factor and put it at the end of the
    /// icon box.
    AppendIcon(Icon),
}

/// Something to do when a button is pressed.
#[derive(Debug, Clone, Copy, PartialEq, Eq, Structural)]
pub enum PressAction {
    /// Keep the press from other gestures.
    Claim,
    /// Ask for the focus of this workspace.
    Focus(i64),
}

/// What a press does while its gesture is connected to a workspace.
pub open spec fn press_actions(workspace_id: i64) -> Seq<PressAction> {
    seq![PressAction::Claim, PressAction::Focus(workspace_id)]
}

/// What a press does while its gesture is connected to a workspace.
pub fn press(workspace_id: i64) -> (actions: Vec<PressAction>)
    ensures
        actions@ == press_actions(workspace_id),
        actions@ == seq![PressAction::Claim, PressAction::Focus(workspace_id)],
{
    let mut actions: Vec<PressAction> = Vec::new();
    actions.push(PressAction::Claim);
    actions.push(PressAction::Focus(workspace_id));
    actions
}

/// Puts a class on or takes it off.
pub open spec fn toggled(class: ButtonClass, on: bool) -> ButtonAction {
    if on {
        ButtonAction::AddClass(class)
    } else {
        ButtonAction::RemoveClass(class)
    }
}

fn toggle(class: ButtonClass, on: bool) -> (action: ButtonAction)
    ensures
        action == toggled(class, on),
{
    if on {
        ButtonAction::AddClass(class)
    } else {
        ButtonAction::RemoveClass(class)
    }
}

/// The actions that show an open state.
pub open spec fn open_state_actions(open_state: OpenState) -> Seq<ButtonAction> {
    seq![
        toggled(ButtonClass::Visible, open_state.visible),
        toggled(ButtonClass::Focused, open_state.stage == Stage::Focused),
        toggled(ButtonClass::Inactive, open_state.stage == Stage::Closed),
    ]
}

/// The click gesture of a button. It acts on presses, in the capture phase, so
/// that taps register on touchscreens, where the release of a gesture is not
/// reliably delivered.
pub open spec fn focus_gesture() -> GestureStyle {
    GestureStyle { phase: GesturePhase::Capture, acts_on: ClickHalf::Press }
}

/// The actions on a new button after it was made and named.
pub open spec fn setup_actions(id: i64, open_state: OpenState) -> Seq<ButtonAction> {
    seq![
        ButtonAction::AddClass(ButtonClass::Item),
        ButtonAction::CentreLabel,
        ButtonAction::CreateGesture(focus_gesture()),
        ButtonAction::Connect(id),
        ButtonAction::AttachGesture,
    ] + open_state_actions(open_state)
}

/// Whether these are the actions that make a button: it is made with its label
/// and icon size, named, and then set up.
pub open spec fn makes_button(
    actions: Seq<ButtonAction>,
    id: i64,
    name: Seq<char>,
    label: Seq<char>,
    open_state: OpenState,
    icon_size: i32,
) -> bool {
    &&& actions.len() == 10
    &&& (actions[0] matches ButtonAction::Create { label: text, icon_size: size } && text@ == label
        && size == icon_size)
    &&& (actions[1] matches ButtonAction::SetName(text) && text@ == name)
    &&& actions.skip(2) == setup_actions(id, open_state)
}

/// The actions that build the icon container: a row with the label first and an
/// empty icon box behind it becomes the content of the button.
pub open spec fn build_actions() -> Seq<ButtonAction> {
    seq![
        ButtonAction::MakeRow(
            (BoxStyle { class: ChildClass::ButtonContents, horizontal: true, spacing: 0 }),
        ),
        ButtonAction::MakeIconBox(
            (BoxStyle { class: ChildClass::WindowIcons, horizontal: true, spacing: 2 }),
        ),
        ButtonAction::ClearContent,
        ButtonAction::AppendLabel,
        ButtonAction::AppendIconBox,
        ButtonAction::ShowRow,
    ]
}

/// The icon for a window class in a size.
pub open spec fn icon_of(window_class: String, size: i32) -> Icon {
    Icon { window_class, size, pixel_size: size, class: ChildClass::WindowIcon }
}

/// The actions that replace the icons on a button.
pub open spec fn icon_actions(classes: Seq<String>, size: i32) -> Seq<ButtonAction> {
    seq![ButtonAction::ClearIcons, ButtonAction::MeasureScale] + classes.map_values(
        |class: String| ButtonAction::AppendIcon(icon_of(class, size)),
    )
}

/// The actions that make presses focus another workspace.
pub open spec fn workspace_actions(id: i64) -> Seq<ButtonAction> {
    seq![ButtonAction::Disconnect, ButtonAction::Connect(id)]
}

/// A button that shows a workspace and focuses it when pressed.
#[derive(Debug)]
pub struct Button {
    icon_container: bool,
    icon_size: i32,
    workspace_id: i64,
}

impl Button {
    /// Whether the button has its icon container.
    pub closed spec fn has_icon_container(self) -> bool {
        self.icon_container
    }

    /// The size of the icons on the button.
    pub closed spec fn size(self) -> i32 {
        self.icon_size
    }

    /// The workspace that the button stands for.
    pub closed spec fn workspace(self) -> i64 {
        self.workspace_id
    }

    /// The actions that give the button its icon container if it has none yet.
    pub open spec fn container_actions(self) -> Seq<ButtonAction> {
        if self.has_icon_container() {
            Seq::empty()
        } else {
            build_actions()
        }
    }

    /// The actions that show icons on the button.
    pub open spec fn window_icon_actions(self, classes: Seq<String>) -> Seq<ButtonAction> {
        self.container_actions() + icon_actions(classes, self.size())
    }

    /// A button for a workspace, and the actions that make it.
    pub fn new(id: i64, name: &str, label: &str, open_state: OpenState, icon_size: i32) -> (result:
        (Button, Vec<ButtonAction>))
        ensures
            result.0.workspace() == id,
            result.0.size() == icon_size,
            !result.0.has_icon_container(),
            makes_button(result.1@, id, name@, label@, open_state, icon_size),
            result.1@.len() == 10,
            result.1@[0] matches ButtonAction::Create { label: text, icon_size: size } && text@
                == label@ && size == icon_size,
            result.1@[1] matches ButtonAction::SetName(text) && text@ == name@,
            result.1@[2] == ButtonAction::AddClass(ButtonClass::Item),
            result.1@[3] == ButtonAction::CentreLabel,
            result.1@[4] == ButtonAction::CreateGesture(
                (GestureStyle { phase: GesturePhase::Capture, acts_on: ClickHalf::Press }),
            ),
            result.1@[5] == ButtonAction::Connect(id),
            result.1@[6] == ButtonAction::AttachGesture,
    {
        proof {
            a_new_button_is_set_up(id, open_state);
        }
        let button = Button { icon_container: false, icon_size, workspace_id: id };
        let mut actions: Vec<ButtonAction> = Vec::new();
        actions.push(ButtonAction::Create { label: label.to_owned(), icon_size });
        actions.push(ButtonAction::SetName(name.to_owned()));
        actions.push(ButtonAction::AddClass(ButtonClass::Item));
        actions.push(ButtonAction::CentreLabel);
        actions.push(
            ButtonAction::CreateGesture(
                GestureStyle { phase: GesturePhase::Capture, acts_on: ClickHalf::Press },
            ),
        );
        actions.push(ButtonAction::Connect(id));
        actions.push(ButtonAction::AttachGesture);
        let mut shown: Vec<ButtonAction> = button.set_open_state(open_state);
        actions.append(&mut shown);
        assert(actions@.skip(2) =~= setup_actions(id, open_state));
        (button, actions)
    }

    /// Gives the button its icon container if it has none yet.
    pub fn ensure_icon_container(&mut self) -> (actions: Vec<ButtonAction>)
        ensures
            final(self).has_icon_container(),
            final(self).size() == old(self).size(),
            final(self).workspace() == old(self).workspace(),
            actions@ == old(self).container_actions(),
            old(self).has_icon_container() ==> actions@.len() == 0,
            !old(self).has_icon_container() ==> actions@.len() == 6,
    {
        let mut actions: Vec<ButtonAction> = Vec::new();
        if self.icon_container {
            return actions;
        }
        actions.push(
            ButtonAction::MakeRow(
                BoxStyle { class: ChildClass::ButtonContents, horizontal: true, spacing: 0 },
            ),
        );
        actions.push(
            ButtonAction::MakeIconBox(
                BoxStyle { class: ChildClass::WindowIcons, horizontal: true, spacing: 2 },
            ),
        );
        actions.push(ButtonAction::ClearContent);
        actions.push(ButtonAction::AppendLabel);
        actions.push(ButtonAction::AppendIconBox);
        actions.push(ButtonAction::ShowRow);
        self.icon_container = true;
        actions
    }

    /// Shows the icons of these window classes, in order, and no others.
    pub fn set_window_icons(&mut self, classes: &[String]) -> (actions: Vec<ButtonAction>)
        ensures
            final(self).has_icon_container(),
            final(self).size() == old(self).size(),
            final(self).workspace() == old(self).workspace(),
            actions@ == old(self).window_icon_actions(classes@),
            actions@.len() == classes@.len() + if old(self).has_icon_container() {
                2int
            } else {
                8int
            },
    {
        let mut actions: Vec<ButtonAction> = self.ensure_icon_container();
        let ghost head = actions@;
        actions.push(ButtonAction::ClearIcons);
        actions.push(ButtonAction::MeasureScale);
        let size: i32 = self.icon_size;
        for i in 0..classes.len()
            invariant
                actions@ =~= head + icon_actions(classes@.take(i as int), size),
        {
            actions.push(
                ButtonAction::AppendIcon(
                    Icon {
                        window_class: classes[i].clone(),
                        size,
                        pixel_size: size,
                        class: ChildClass::WindowIcon,
                    },
                ),
            );
        }
        assert(classes@.take(classes@.len() as int) =~= classes@);
        actions
    }

    /// Shows a text on the label.
    pub fn set_label(&self, label: &str) -> (action: ButtonAction)
        ensures
            action matches ButtonAction::SetLabel(text) && text@ == label@,
    {
        ButtonAction::SetLabel(label.to_owned())
    }

    /// Shows how far the workspace is open.
    pub fn set_open_state(&self, open_state: OpenState) -> (actions: Vec<ButtonAction>)
        ensures
            actions@ == open_state_actions(open_state),
            actions@.len() == 3,
            open_state.visible ==> actions@[0] == ButtonAction::AddClass(ButtonClass::Visible),
            !open_state.visible ==> actions@[0] == ButtonAction::RemoveClass(ButtonClass::Visible),
            open_state.stage is Focused ==> actions@[1] == ButtonAction::AddClass(
                ButtonClass::Focused,
            ),
            !(open_state.stage is Focused) ==> actions@[1] == ButtonAction::RemoveClass(
                ButtonClass::Focused,
            ),
            open_state.stage is Closed ==> actions@[2] == ButtonAction::AddClass(
                ButtonClass::Inactive,
            ),
            !(open_state.stage is Closed) ==> actions@[2] == ButtonAction::RemoveClass(
                ButtonClass::Inactive,
            ),
    {
        let mut actions: Vec<ButtonAction> = Vec::new();
        actions.push(toggle(ButtonClass::Visible, open_state.is_visible()));
        actions.push(toggle(ButtonClass::Focused, open_state.stage == Stage::Focused));
        actions.push(toggle(ButtonClass::Inactive, open_state.stage == Stage::Closed));
        actions
    }

    /// Shows whether the workspace asks for attention.
    pub fn set_urgent(&self, urgent: bool) -> (action: ButtonAction)
        ensures
            action == toggled(ButtonClass::Urgent, urgent),
            urgent ==> action == ButtonAction::AddClass(ButtonClass::Urgent),
            !urgent ==> action == ButtonAction::RemoveClass(ButtonClass::Urgent),
    {
        toggle(ButtonClass::Urgent, urgent)
    }

    /// The workspace that the button stands for.
    pub fn workspace_id(&self) -> (id: i64)
        ensures
            id == self.workspace(),
    {
        self.workspace_id
    }

    /// Makes the button stand for another workspace.
    pub fn set_workspace_id(&mut self, id: i64) -> (actions: Vec<ButtonAction>)
        ensures
            final(self).workspace() == id,
            final(self).size() == old(self).size(),
            final(self).has_icon_container() == old(self).has_icon_container(),
            actions@ == workspace_actions(id),
            actions@ == seq![ButtonAction::Disconnect, ButtonAction::Connect(id)],
    {
        self.workspace_id = id;
        let mut actions: Vec<ButtonAction> = Vec::new();
        actions.push(ButtonAction::Disconnect);
        actions.push(ButtonAction::Connect(id));
        actions
    }
}

/// The names that style sheets know the classes by.
pub proof fn classes_have_their_names(class: ButtonClass, child: ChildClass)
    ensures
        class is Item ==> class.css_name() == "item"@,
        class is Visible ==> class.css_name() == "visible"@,
        class is Focused ==> class.css_name() == "focused"@,
        class is Inactive ==> class.css_name() == "inactive"@,
        class is Urgent ==> class.css_name() == "urgent"@,
        child is ButtonContents ==> child.css_name() == "button-contents"@,
        child is WindowIcons ==> child.css_name() == "window-icons"@,
        child is WindowIcon ==> child.css_name() == "window-icon"@,
{
}

/// A press keeps itself from other gestures and asks for the focus of the workspace
/// that it is for, whichever that is, once; so presses for two workspaces ask for
/// different ones.
pub proof fn a_press_asks_for_its_workspace(id: i64, other: i64)
    ensures
        press_actions(id) == seq![PressAction::Claim, PressAction::Focus(id)],
        press_actions(id) == press_actions(other) <==> id == other,
{
    assert(press_actions(id)[1] == PressAction::Focus(id));
    assert(press_actions(other)[1] == PressAction::Focus(other));
}

/// A class is put on where it is to be on, and taken off where it is to be off; and
/// the three classes of an open state are each set by it: visible where the workspace
/// can be seen, focused where it has the focus, inactive where it is not open.
pub proof fn an_open_state_sets_its_classes(open_state: OpenState, class: ButtonClass)
    ensures
        toggled(class, true) == ButtonAction::AddClass(class),
        toggled(class, false) == ButtonAction::RemoveClass(class),
        open_state_actions(open_state).len() == 3,
        open_state.visible ==> open_state_actions(open_state)[0] == ButtonAction::AddClass(
            ButtonClass::Visible,
        ),
        !open_state.visible ==> open_state_actions(open_state)[0] == ButtonAction::RemoveClass(
            ButtonClass::Visible,
        ),
        open_state.stage is Focused ==> open_state_actions(open_state)[1]
            == ButtonAction::AddClass(ButtonClass::Focused),
        !(open_state.stage is Focused) ==> open_state_actions(open_state)[1]
            == ButtonAction::RemoveClass(ButtonClass::Focused),
        open_state.stage is Closed ==> open_state_actions(open_state)[2] == ButtonAction::AddClass(
            ButtonClass::Inactive,
        ),
        !(open_state.stage is Closed) ==> open_state_actions(open_state)[2]
            == ButtonAction::RemoveClass(ButtonClass::Inactive),
{
}

/// A new button becomes an item with a centred label; its gesture, which acts on
/// presses in the capture phase, is connected to the workspace before it is put on the
/// button; and last its open state is shown.
pub proof fn a_new_button_is_set_up(id: i64, open_state: OpenState)
    ensures
        setup_actions(id, open_state).take(5) == seq![
            ButtonAction::AddClass(ButtonClass::Item),
            ButtonAction::CentreLabel,
            ButtonAction::CreateGesture(
                (GestureStyle { phase: GesturePhase::Capture, acts_on: ClickHalf::Press }),
            ),
            ButtonAction::Connect(id),
            ButtonAction::AttachGesture,
        ],
        setup_actions(id, open_state).skip(5) == open_state_actions(open_state),
        setup_actions(id, open_state).len() == 8,
{
}

/// Which actions make a button: it is made with the given label and icon size, given
/// its name, and set up.
pub proof fn a_button_is_made_as_told(
    actions: Seq<ButtonAction>,
    id: i64,
    name: Seq<char>,
    label: Seq<char>,
    open_state: OpenState,
    icon_size: i32,
)
    requires
        makes_button(actions, id, name, label, open_state, icon_size),
    ensures
        actions.len() == 10,
        actions[0] matches ButtonAction::Create { label: text, icon_size: size } && text@ == label
            && size == icon_size,
        actions[1] matches ButtonAction::SetName(text) && text@ == name,
        forall|i: int| 0 <= i < 8 ==> #[trigger] actions[i + 2] == setup_actions(id, open_state)[i],
{
    assert forall|i: int| 0 <= i < 8 implies #[trigger] actions[i + 2] == setup_actions(
        id,
        open_state,
    )[i] by {
        assert(actions.skip(2)[i] == actions[i + 2]);
    }
}

/// How the icon container is built: a horizontal row without gaps and a horizontal
/// icon box with gaps of two pixels are made, the content is taken out of the button,
/// the label and behind it the icon box are put into the row, and the row into the
/// button. A button that has its container is left alone.
pub proof fn the_icon_container_is_built_in_order(button: Button)
    ensures
        button.has_icon_container() ==> button.container_actions() == Seq::<ButtonAction>::empty(),
        !button.has_icon_container() ==> button.container_actions() == seq![
            ButtonAction::MakeRow(
                (BoxStyle { class: ChildClass::ButtonContents, horizontal: true, spacing: 0 }),
            ),
            ButtonAction::MakeIconBox(
                (BoxStyle { class: ChildClass::WindowIcons, horizontal: true, spacing: 2 }),
            ),
            ButtonAction::ClearContent,
            ButtonAction::AppendLabel,
            ButtonAction::AppendIconBox,
            ButtonAction::ShowRow,
        ],
{
}

/// How icons are replaced: the container is built if need be, the old icons go, the
/// scale factor is measured, and then one icon is added for each window class, in
/// order, looked up and shown in the button's size.
pub proof fn icons_are_replaced_in_order(button: Button, classes: Seq<String>)
    ensures
        ({
            let actions = button.window_icon_actions(classes);
            let built = button.container_actions().len() as int;
            &&& actions.len() == built + 2 + classes.len()
            &&& actions.take(built) == button.container_actions()
            &&& actions[built] == ButtonAction::ClearIcons
            &&& actions[built + 1] == ButtonAction::MeasureScale
            &&& forall|i: int|
                0 <= i < classes.len() ==> actions[built + 2 + i] == ButtonAction::AppendIcon(
                    (Icon {
                        window_class: #[trigger] classes[i],
                        size: button.size(),
                        pixel_size: button.size(),
                        class: ChildClass::WindowIcon,
                    }),
                )
        }),
{
}

/// A button is given another workspace by disconnecting its gesture from the old one
/// and connecting it to the new one.
pub proof fn a_workspace_is_exchanged(id: i64)
    ensures
        workspace_actions(id) == seq![ButtonAction::Disconnect, ButtonAction::Connect(id)],
{
}

} // verus!
