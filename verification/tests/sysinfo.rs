use ironbar::binary64::Binary64;
use ironbar::sysinfo::controller::Action;
use ironbar::sysinfo::controller::Event;
use ironbar::sysinfo::controller::SysInfoController;
use ironbar::sysinfo::controller::SysInfoUpdate;
use ironbar::sysinfo::interval::Interval;
use ironbar::sysinfo::interval::Intervals;
use ironbar::sysinfo::metric::detect_metric;
use ironbar::sysinfo::metric::get_state_reading;
use ironbar::sysinfo::metric::Reading;
use ironbar::sysinfo::module::ModuleOrientation;
use ironbar::sysinfo::module::SysInfoModule;
use ironbar::sysinfo::states::StateChange;
use ironbar::sysinfo::token::changed_by;
use ironbar::sysinfo::token::names_metric;
use ironbar::sysinfo::token::Part;
use ironbar::sysinfo::token::RefreshType;
use ironbar::sysinfo::token::Token;
use ironbar::sysinfo::token::TokenType;
use ironbar::sysinfo::widget::LabelChange;
use ironbar::sysinfo::widget::SysInfoWidget;
use std::collections::BTreeSet;

type Module = SysInfoModule<u8, u16>;

const ALL: [RefreshType; 6] = [
    RefreshType::Memory,
    RefreshType::Cpu,
    RefreshType::Temps,
    RefreshType::Disks,
    RefreshType::Network,
    RefreshType::System,
];

fn of(value: f64) -> Binary64 {
    Binary64 { bits: value.to_bits() }
}

fn token(token: TokenType) -> Part {
    Part::Token(Token { token })
}

/// Reads "cpu", "mem" and "net" as metrics and any other word as text; fails on
/// a word that starts with an exclamation mark.
fn parse(text: &str) -> Result<Vec<Part>, String> {
    text.split(' ')
        .map(|word| match word {
            "cpu" => Ok(token(TokenType::CpuPercent)),
            "mem" => Ok(token(TokenType::MemoryPercent)),
            "net" => Ok(token(TokenType::NetDown)),
            _ if word.starts_with('!') => Err(word.to_string()),
            _ => Ok(Part::Static),
        })
        .collect()
}

fn module(format: &[&str], tooltip: Option<&str>) -> Module {
    Module {
        format: format.iter().map(|text| text.to_string()).collect(),
        tooltip_format: tooltip.map(|text| text.to_string()),
        ..Module::default()
    }
}

/// Performs actions until the next wait; returns what was done and the updates
/// made on the way. Labels render to their index, the tooltip to "tip".
fn work(controller: &mut SysInfoController, value: f64) -> (Vec<String>, Vec<SysInfoUpdate>) {
    let mut seen = Vec::new();
    let mut updates = Vec::new();
    loop {
        let action = controller.action();
        let event = match action {
            Action::RenderLabel(label) => {
                seen.push(format!("label {}", label));
                Event::Text(format!("text {}", label))
            }
            Action::RenderTooltip => {
                seen.push("tooltip".to_string());
                Event::Text("tip".to_string())
            }
            Action::PostUpdate(update) => {
                seen.push(format!("post {}", update.0));
                updates.push(update);
                Event::Done
            }
            Action::SendUpdate(update) => {
                seen.push(format!("send {}", update.0));
                updates.push(update);
                Event::Done
            }
            Action::StartTimers => {
                seen.push("timers".to_string());
                Event::Done
            }
            Action::Refresh(refresh) => {
                seen.push(format!("refresh {:?}", refresh));
                Event::Done
            }
            Action::TakeReading(reading) => {
                seen.push(format!("read {:?}", reading));
                Event::Reading(of(value))
            }
            Action::AwaitRefresh | Action::Stop => return (seen, updates),
        };
        assert!(controller.answer(event));
    }
}

fn refresh(
    controller: &mut SysInfoController,
    refresh: RefreshType,
    value: f64,
) -> (Vec<String>, Vec<SysInfoUpdate>) {
    assert!(controller.answer(Event::Refresh(refresh)));
    work(controller, value)
}

fn started(module: &Module) -> SysInfoController {
    let mut controller = module.controller(parse).unwrap();
    work(&mut controller, 0.0);
    controller
}

#[test]
fn default_intervals() {
    let intervals = Intervals::default();
    assert_eq!(
        [
            intervals.memory,
            intervals.cpu,
            intervals.temps,
            intervals.disks,
            intervals.networks,
            intervals.system
        ],
        [5; 6]
    );
    assert!(matches!(Interval::default(), Interval::All(5)));
}

#[test]
fn individual_intervals() {
    let interval = Interval::Individual(Intervals {
        memory: 1,
        cpu: 2,
        temps: 3,
        disks: 4,
        networks: 6,
        system: 7,
    });
    assert_eq!(interval.memory(), 1);
    assert_eq!(interval.cpu(), 2);
    assert_eq!(interval.temps(), 3);
    assert_eq!(interval.disks(), 4);
    assert_eq!(interval.networks(), 6);
    assert_eq!(interval.system(), 7);
    assert_eq!(
        interval.timers(),
        vec![
            (RefreshType::Memory, 1),
            (RefreshType::Cpu, 2),
            (RefreshType::Temps, 3),
            (RefreshType::Disks, 4),
            (RefreshType::Network, 6),
            (RefreshType::System, 7),
        ]
    );
}

#[test]
fn global_interval() {
    let interval = Interval::All(30);
    assert_eq!(interval.disks(), 30);
    assert_eq!(interval.networks(), 30);
    assert!(interval.timers().iter().all(|timer| timer.1 == 30));
    let groups: Vec<RefreshType> = interval.timers().iter().map(|timer| timer.0).collect();
    assert_eq!(groups, ALL);
}

#[test]
fn each_metric_has_one_refresh() {
    let groups = [
        (TokenType::CpuFrequency, RefreshType::Cpu),
        (TokenType::CpuPercent, RefreshType::Cpu),
        (TokenType::MemoryFree, RefreshType::Memory),
        (TokenType::MemoryAvailable, RefreshType::Memory),
        (TokenType::MemoryTotal, RefreshType::Memory),
        (TokenType::MemoryUsed, RefreshType::Memory),
        (TokenType::MemoryPercent, RefreshType::Memory),
        (TokenType::SwapFree, RefreshType::Memory),
        (TokenType::SwapTotal, RefreshType::Memory),
        (TokenType::SwapUsed, RefreshType::Memory),
        (TokenType::SwapPercent, RefreshType::Memory),
        (TokenType::TempC, RefreshType::Temps),
        (TokenType::TempF, RefreshType::Temps),
        (TokenType::DiskFree, RefreshType::Disks),
        (TokenType::DiskTotal, RefreshType::Disks),
        (TokenType::DiskUsed, RefreshType::Disks),
        (TokenType::DiskPercent, RefreshType::Disks),
        (TokenType::DiskRead, RefreshType::Disks),
        (TokenType::DiskWrite, RefreshType::Disks),
        (TokenType::NetDown, RefreshType::Network),
        (TokenType::NetUp, RefreshType::Network),
        (TokenType::LoadAverage1, RefreshType::System),
        (TokenType::LoadAverage5, RefreshType::System),
        (TokenType::LoadAverage15, RefreshType::System),
        (TokenType::Uptime, RefreshType::System),
    ];
    for (metric, group) in groups {
        for refresh in ALL {
            assert_eq!(metric.is_affected_by(refresh), refresh == group);
        }
    }
}

#[test]
fn format_strings_and_refreshes() {
    let parts = vec![Part::Static, token(TokenType::TempC)];
    assert!(names_metric(&parts));
    assert!(changed_by(&parts, RefreshType::Temps));
    assert!(!changed_by(&parts, RefreshType::Cpu));
    let text = vec![Part::Static];
    assert!(!names_metric(&text));
    assert!(ALL.iter().all(|refresh| !changed_by(&text, *refresh)));
}

#[test]
fn detected_metrics() {
    let with = |cpu: u64, memory: u64| {
        detect_metric(Interval::Individual(Intervals { cpu, memory, ..Intervals::default() }))
    };
    assert_eq!(with(1, 5), "cpu_percent");
    assert_eq!(with(1, 1), "cpu_percent");
    assert_eq!(with(5, 1), "memory_percent");
    assert_eq!(with(5, 5), "");
    assert_eq!(detect_metric(Interval::All(1)), "");
}

#[test]
fn configured_metric_comes_first() {
    let mut module = module(&[], None);
    module.interval = Interval::Individual(Intervals { cpu: 1, ..Intervals::default() });
    assert_eq!(module.metric(), "cpu_percent");
    module.state_metric = Some("memory_percent".to_string());
    assert_eq!(module.metric(), "memory_percent");
    module.state_metric = Some(String::new());
    assert_eq!(module.metric(), "");
}

#[test]
fn readings() {
    let reading = |metric: &str, refresh| get_state_reading(&metric.to_string(), refresh);
    assert_eq!(reading("cpu_percent", RefreshType::Cpu), Some(Reading::CpuPercent));
    assert_eq!(reading("cpu_percent", RefreshType::Memory), None);
    assert_eq!(reading("memory_percent", RefreshType::Memory), Some(Reading::MemoryPercent));
    assert_eq!(reading("memory_percent", RefreshType::Cpu), None);
    assert_eq!(reading("swap_percent", RefreshType::Memory), None);
    assert_eq!(reading("", RefreshType::Cpu), None);
}

#[test]
fn default_module() {
    let module = Module::default();
    assert!(module.format.is_empty());
    assert!(matches!(module.interval, Interval::All(5)));
    assert!(module.direction.is_none());
    assert!(module.states.is_empty());
    assert!(module.state_metric.is_none());
    assert!(module.tooltip_format.is_none());
    assert_eq!(module.layout, 0);
    assert_eq!(module.common, Some(0));
}

#[test]
fn first_parse_error_is_reported() {
    let error = |format: &[&str], tooltip| module(format, tooltip).controller(parse).err();
    assert_eq!(error(&["cpu", "!a", "!b"], Some("!c")).as_deref(), Some("!a"));
    assert_eq!(error(&["cpu", "mem"], Some("!c")).as_deref(), Some("!c"));
    assert_eq!(error(&["cpu", "mem"], Some("c")), None);
    assert_eq!(error(&[], None), None);
}

#[test]
fn every_label_is_posted_first() {
    let mut controller = module(&["cpu", "text"], Some("mem")).controller(parse).unwrap();
    let (seen, updates) = work(&mut controller, 0.0);
    assert_eq!(
        seen,
        vec!["label 0", "tooltip", "post 0", "label 1", "tooltip", "post 1", "timers"]
    );
    let tip = Some("tip".to_string());
    assert_eq!(
        updates,
        vec![
            (0, "text 0".to_string(), StateChange::Keep, tip.clone()),
            (1, "text 1".to_string(), StateChange::Keep, tip),
        ]
    );
}

#[test]
fn no_labels_start_the_timers() {
    let mut controller = module(&[], None).controller(parse).unwrap();
    assert_eq!(work(&mut controller, 0.0).0, vec!["timers"]);
}

#[test]
fn affected_labels_are_sent() {
    let mut controller = started(&module(&["cpu", "mem", "net cpu", "text"], None));
    let (seen, updates) = refresh(&mut controller, RefreshType::Cpu, 0.0);
    assert_eq!(seen, vec!["refresh Cpu", "label 0", "send 0", "label 2", "send 2"]);
    assert_eq!(
        updates,
        vec![
            (0, "text 0".to_string(), StateChange::Keep, None),
            (2, "text 2".to_string(), StateChange::Keep, None),
        ]
    );
    let (seen, _) = refresh(&mut controller, RefreshType::Disks, 0.0);
    assert_eq!(seen, vec!["refresh Disks"]);
}

#[test]
fn tooltip_is_rendered_once_for_a_refresh() {
    let mut controller = started(&module(&["cpu", "cpu"], Some("mem")));
    let (seen, updates) = refresh(&mut controller, RefreshType::Cpu, 0.0);
    assert_eq!(seen, vec!["refresh Cpu", "tooltip", "label 0", "send 0", "label 1", "send 1"]);
    assert!(updates.iter().all(|update| update.3.as_deref() == Some("tip")));
    // A tooltip alone updates no label while some label shows a metric.
    let (seen, _) = refresh(&mut controller, RefreshType::Memory, 0.0);
    assert_eq!(seen, vec!["refresh Memory", "tooltip"]);
}

#[test]
fn tooltip_is_renewed_where_no_label_shows_a_metric() {
    let mut controller = started(&module(&["a", "b"], Some("mem")));
    let (seen, _) = refresh(&mut controller, RefreshType::Disks, 0.0);
    assert_eq!(seen, vec!["refresh Disks", "tooltip", "label 0", "send 0", "label 1", "send 1"]);
    let mut controller = started(&module(&["a", "b"], None));
    let (seen, _) = refresh(&mut controller, RefreshType::Disks, 0.0);
    assert_eq!(seen, vec!["refresh Disks"]);
}

fn high_and_low(format: &[&str]) -> Module {
    let mut module = module(format, None);
    module.states.insert("high".to_string(), of(80.0));
    module.states.insert("low".to_string(), of(10.0));
    module.state_metric = Some("cpu_percent".to_string());
    module
}

#[test]
fn a_judgement_reaches_every_label() {
    let mut controller = started(&high_and_low(&["cpu", "text"]));
    let all = vec!["refresh Cpu", "read CpuPercent", "label 0", "send 0", "label 1", "send 1"];
    let (seen, updates) = refresh(&mut controller, RefreshType::Cpu, 85.0);
    assert_eq!(seen, all);
    assert!(updates.iter().all(|update| update.2 == StateChange::Show("high".to_string())));
    // Below every threshold the class goes.
    let (seen, updates) = refresh(&mut controller, RefreshType::Cpu, 5.0);
    assert_eq!(seen, all);
    assert!(updates.iter().all(|update| update.2 == StateChange::Clear));
    // Another refresh does not read the metric.
    let (seen, _) = refresh(&mut controller, RefreshType::Memory, 85.0);
    assert_eq!(seen, vec!["refresh Memory"]);
}

/// The classes of each label after an update for it.
fn show(widget: &SysInfoWidget, classes: &mut [BTreeSet<String>], updates: Vec<SysInfoUpdate>) {
    for update in updates {
        let label = update.0;
        for change in widget.receive(update) {
            match change {
                LabelChange::AddClass(class) => {
                    classes[label].insert(class);
                }
                LabelChange::RemoveClass(class) => {
                    classes[label].remove(&class);
                }
                _ => {}
            }
        }
    }
}

#[test]
fn the_active_class_follows_the_metric() {
    let module = high_and_low(&["cpu mem", "text"]);
    let mut controller = started(&module);
    let widget = module.clone().into_widget(None);
    let mut classes = vec![BTreeSet::from([widget.style.class.clone()]); 2];
    let ticks = [
        (RefreshType::Memory, 99.0, vec!["item"]),
        (RefreshType::Cpu, 85.0, vec!["high", "item"]),
        (RefreshType::Memory, 5.0, vec!["high", "item"]),
        (RefreshType::Cpu, 50.0, vec!["item", "low"]),
        (RefreshType::Cpu, 5.0, vec!["item"]),
        (RefreshType::Cpu, 80.0, vec!["high", "item"]),
        (RefreshType::Cpu, 0.0, vec!["item"]),
    ];
    for (group, value, expected) in ticks {
        let (_, updates) = refresh(&mut controller, group, value);
        show(&widget, &mut classes, updates);
        for label in &classes {
            assert_eq!(label.iter().map(String::as_str).collect::<Vec<_>>(), expected);
        }
    }
}

#[test]
fn no_states_no_reading() {
    let mut module = module(&["cpu"], None);
    module.state_metric = Some("cpu_percent".to_string());
    let mut controller = started(&module);
    let (seen, updates) = refresh(&mut controller, RefreshType::Cpu, 85.0);
    assert_eq!(seen, vec!["refresh Cpu", "label 0", "send 0"]);
    assert_eq!(updates[0].2, StateChange::Keep);
}

#[test]
fn no_metric_no_reading() {
    let mut module = high_and_low(&["cpu"]);
    module.state_metric = None;
    let mut controller = started(&module);
    let (seen, updates) = refresh(&mut controller, RefreshType::Cpu, 85.0);
    assert_eq!(seen, vec!["refresh Cpu", "label 0", "send 0"]);
    assert_eq!(updates[0].2, StateChange::Keep);
}

#[test]
fn static_labels_are_left_alone() {
    let mut controller = started(&module(&["a", "b"], None));
    for group in ALL {
        let (seen, _) = refresh(&mut controller, group, 85.0);
        assert_eq!(seen, vec![format!("refresh {:?}", group)]);
    }
}

#[test]
fn other_answers_are_refused() {
    let mut controller = module(&["cpu"], None).controller(parse).unwrap();
    assert!(!controller.answer(Event::Done));
    assert!(!controller.answer(Event::Refresh(RefreshType::Cpu)));
    assert!(!controller.answer(Event::Closed));
    assert!(matches!(controller.action(), Action::RenderLabel(0)));
    work(&mut controller, 0.0);
    assert!(!controller.answer(Event::Reading(of(1.0))));
    assert!(controller.answer(Event::Closed));
    assert!(matches!(controller.action(), Action::Stop));
    assert!(!controller.answer(Event::Refresh(RefreshType::Cpu)));
}

fn names(changes: &[LabelChange]) -> Vec<String> {
    changes
        .iter()
        .map(|change| match change {
            LabelChange::SetText(text) => format!("text {}", text),
            LabelChange::SetTooltip(text) => format!("tooltip {}", text),
            LabelChange::AddClass(class) => format!("+{}", class),
            LabelChange::RemoveClass(class) => format!("-{}", class),
        })
        .collect()
}

#[test]
fn an_update_changes_its_label() {
    let mut module = module(&["cpu", "mem"], None);
    for name in ["warning", "critical", "normal"] {
        module.states.insert(name.to_string(), of(0.0));
    }
    let widget = module.into_widget(None);
    assert_eq!(widget.labels, 2);
    let text = "now".to_string();
    let tooltip = Some("more".to_string());
    let keep = StateChange::Keep;
    assert_eq!(names(&widget.receive((1, text.clone(), keep.clone(), None))), vec!["text now"]);
    assert_eq!(
        names(&widget.receive((0, text.clone(), keep, tooltip.clone()))),
        vec!["text now", "tooltip more"]
    );
    assert_eq!(
        names(&widget.receive((0, text.clone(), StateChange::Show("normal".to_string()), tooltip))),
        vec!["text now", "tooltip more", "-critical", "+normal", "-warning"]
    );
    assert_eq!(
        names(&widget.receive((0, text, StateChange::Clear, None))),
        vec!["text now", "-critical", "-normal", "-warning"]
    );
}

#[test]
fn style_of_the_labels() {
    let widget = module(&["cpu"], None).into_widget(None);
    assert_eq!(widget.style.class, "item");
    assert!(widget.style.markup);
    assert!(widget.style.centred);
    assert!(!widget.popup);
}

#[test]
fn orientation_of_the_box() {
    let of = |direction, layout| {
        let module = Module { direction, ..Module::default() };
        let widget = module.into_widget(layout);
        assert_eq!(widget.spacing, 10);
        widget.orientation
    };
    let (horizontal, vertical) = (ModuleOrientation::Horizontal, ModuleOrientation::Vertical);
    assert_eq!(of(Some(vertical), Some(horizontal)), vertical);
    assert_eq!(of(Some(horizontal), Some(vertical)), horizontal);
    assert_eq!(of(None, Some(vertical)), vertical);
    assert_eq!(of(None, None), horizontal);
}
