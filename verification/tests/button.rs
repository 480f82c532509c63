use ironbar::workspaces::button::press;
use ironbar::workspaces::button::BoxStyle;
use ironbar::workspaces::button::Button;
use ironbar::workspaces::button::ButtonAction;
use ironbar::workspaces::button::ButtonClass;
use ironbar::workspaces::button::ClickHalf;
use ironbar::workspaces::button::GesturePhase;
use ironbar::workspaces::button::GestureStyle;
use ironbar::workspaces::button::PressAction;
use ironbar::workspaces::open_state::OpenState;
use ironbar::workspaces::open_state::Stage;

fn text(action: &ButtonAction) -> String {
    match action {
        ButtonAction::Create { label, icon_size } => format!("create {} {}", label, icon_size),
        ButtonAction::SetName(name) => format!("name {}", name),
        ButtonAction::AddClass(class) => format!("+{}", class.name()),
        ButtonAction::RemoveClass(class) => format!("-{}", class.name()),
        ButtonAction::CentreLabel => "centre".to_string(),
        ButtonAction::SetLabel(label) => format!("label {}", label),
        ButtonAction::CreateGesture(style) => {
            format!("gesture {:?} {:?}", style.phase, style.acts_on)
        }
        ButtonAction::Connect(id) => format!("connect {}", id),
        ButtonAction::Disconnect => "disconnect".to_string(),
        ButtonAction::AttachGesture => "attach".to_string(),
        ButtonAction::MakeRow(style) => boxed("row", style),
        ButtonAction::MakeIconBox(style) => boxed("icon box", style),
        ButtonAction::ClearContent => "empty".to_string(),
        ButtonAction::AppendLabel => "row label".to_string(),
        ButtonAction::AppendIconBox => "row icon box".to_string(),
        ButtonAction::ShowRow => "show row".to_string(),
        ButtonAction::ClearIcons => "clear".to_string(),
        ButtonAction::MeasureScale => "measure".to_string(),
        ButtonAction::AppendIcon(icon) => {
            assert_eq!(icon.pixel_size, icon.size);
            assert_eq!(icon.class.name(), "window-icon");
            format!("icon {} {}", icon.window_class, icon.size)
        }
    }
}

fn boxed(kind: &str, style: &BoxStyle) -> String {
    assert!(style.horizontal);
    format!("{} {} {}", kind, style.class.name(), style.spacing)
}

fn texts(actions: &[ButtonAction]) -> Vec<String> {
    actions.iter().map(text).collect()
}

const FOCUSED: OpenState = OpenState { stage: Stage::Focused, visible: true };
const HIDDEN: OpenState = OpenState { stage: Stage::Open, visible: false };
const CLOSED: OpenState = OpenState { stage: Stage::Closed, visible: false };

fn button() -> Button {
    Button::new(7, "web", "7: web", HIDDEN, 24).0
}

#[test]
fn new_button() {
    let (button, actions) = Button::new(7, "web", "7: web", FOCUSED, 24);
    assert_eq!(button.workspace_id(), 7);
    assert_eq!(
        texts(&actions),
        vec![
            "create 7: web 24",
            "name web",
            "+item",
            "centre",
            "gesture Capture Press",
            "connect 7",
            "attach",
            "+visible",
            "+focused",
            "-inactive"
        ]
    );
}

#[test]
fn open_states() {
    let shown = |state| texts(&button().set_open_state(state));
    assert_eq!(shown(FOCUSED), vec!["+visible", "+focused", "-inactive"]);
    assert_eq!(shown(HIDDEN), vec!["-visible", "-focused", "-inactive"]);
    assert_eq!(shown(CLOSED), vec!["-visible", "-focused", "+inactive"]);
    let visible = OpenState { stage: Stage::Open, visible: true };
    assert_eq!(shown(visible), vec!["+visible", "-focused", "-inactive"]);
    assert!(visible.is_visible());
    assert!(!CLOSED.is_visible());
}

#[test]
fn urgency() {
    assert_eq!(text(&button().set_urgent(true)), "+urgent");
    assert_eq!(text(&button().set_urgent(false)), "-urgent");
}

#[test]
fn class_names() {
    let classes = [
        ButtonClass::Item,
        ButtonClass::Visible,
        ButtonClass::Focused,
        ButtonClass::Inactive,
        ButtonClass::Urgent,
    ];
    let names: Vec<String> = classes.iter().map(|class| class.name()).collect();
    assert_eq!(names, vec!["item", "visible", "focused", "inactive", "urgent"]);
}

#[test]
fn label() {
    assert_eq!(text(&button().set_label("<b>")), "label <b>");
}

#[test]
fn window_icons() {
    let mut button = button();
    let classes = vec!["firefox".to_string(), "foot".to_string()];
    assert_eq!(
        texts(&button.set_window_icons(&classes)),
        vec![
            "row button-contents 0",
            "icon box window-icons 2",
            "empty",
            "row label",
            "row icon box",
            "show row",
            "clear",
            "measure",
            "icon firefox 24",
            "icon foot 24"
        ]
    );
    // The icon box stays.
    assert_eq!(
        texts(&button.set_window_icons(&classes[1..])),
        vec!["clear", "measure", "icon foot 24"]
    );
    assert_eq!(texts(&button.set_window_icons(&[])), vec!["clear", "measure"]);
    assert_eq!(button.workspace_id(), 7);
}

#[test]
fn icon_container_is_built_once() {
    let mut button = button();
    assert_eq!(button.ensure_icon_container().len(), 6);
    assert!(button.ensure_icon_container().is_empty());
    assert_eq!(texts(&button.set_window_icons(&[])), vec!["clear", "measure"]);
}

#[test]
fn workspace_changes() {
    let mut button = button();
    assert_eq!(texts(&button.set_workspace_id(-3)), vec!["disconnect", "connect -3"]);
    assert_eq!(button.workspace_id(), -3);
}

#[test]
fn press_focuses_the_workspace() {
    assert_eq!(press(7), vec![PressAction::Claim, PressAction::Focus(7)]);
}

#[test]
fn one_handler_stays_connected() {
    let (mut button, mut actions) = Button::new(1, "a", "a", CLOSED, 16);
    actions.extend(button.set_workspace_id(2));
    actions.extend(button.set_window_icons(&["x".to_string()]));
    actions.extend(button.set_workspace_id(3));
    let mut handlers: Vec<i64> = Vec::new();
    for action in &actions {
        match action {
            ButtonAction::Connect(id) => handlers.push(*id),
            ButtonAction::Disconnect => {
                handlers.pop();
            }
            _ => {}
        }
    }
    assert_eq!(handlers, vec![button.workspace_id()]);
}

#[test]
fn a_button_stays_in_line() {
    let (mut button, mut actions) = Button::new(1, "a", "a", FOCUSED, 16);
    actions.extend(button.set_open_state(CLOSED));
    actions.extend(button.set_workspace_id(2));
    actions.extend(button.ensure_icon_container());
    actions.push(button.set_urgent(true));
    actions.extend(button.set_open_state(FOCUSED));
    actions.push(button.set_label("b"));
    actions.extend(button.set_workspace_id(-9));
    actions.extend(button.set_window_icons(&["x".to_string()]));
    let mut classes: Vec<String> = Vec::new();
    let mut handlers: Vec<i64> = Vec::new();
    for action in &actions {
        match action {
            ButtonAction::AddClass(class) => classes.push(class.name()),
            ButtonAction::RemoveClass(class) => classes.retain(|name| *name != class.name()),
            ButtonAction::Connect(id) => handlers.push(*id),
            ButtonAction::Disconnect => {
                handlers.pop();
            }
            _ => {}
        }
    }
    assert!(classes.contains(&"focused".to_string()));
    assert!(!classes.contains(&"inactive".to_string()));
    assert!(classes.contains(&"urgent".to_string()));
    let done: Vec<PressAction> = handlers.iter().flat_map(|id| press(*id)).collect();
    assert_eq!(done, vec![PressAction::Claim, PressAction::Focus(-9)]);
}

#[test]
fn gesture_sees_presses_first() {
    let (_, actions) = Button::new(7, "web", "7: web", HIDDEN, 24);
    let styles: Vec<GestureStyle> = actions
        .iter()
        .filter_map(|action| match action {
            ButtonAction::CreateGesture(style) => Some(*style),
            _ => None,
        })
        .collect();
    let wanted = GestureStyle { phase: GesturePhase::Capture, acts_on: ClickHalf::Press };
    assert_eq!(styles, vec![wanted]);
}
