use ironbar::binary64::Binary64;
use ironbar::sysinfo::states::judge;
use ironbar::sysinfo::states::resolve_state;
use ironbar::sysinfo::states::StateChange;
use ironbar::sysinfo::states::States;

fn of(value: f64) -> Binary64 {
    Binary64 { bits: value.to_bits() }
}

fn states(entries: &[(&str, f64)]) -> States {
    let mut states = States::new();
    for (name, threshold) in entries {
        states.insert(name.to_string(), of(*threshold));
    }
    states
}

fn resolve(entries: &[(&str, f64)], value: f64) -> Option<String> {
    resolve_state(&states(entries), of(value))
}

#[test]
fn highest_reached_threshold_wins() {
    let entries = [("critical", 90.0), ("normal", 0.0), ("warning", 70.0)];
    assert_eq!(resolve(&entries, 10.0).as_deref(), Some("normal"));
    assert_eq!(resolve(&entries, 69.9).as_deref(), Some("normal"));
    assert_eq!(resolve(&entries, 70.0).as_deref(), Some("warning"));
    assert_eq!(resolve(&entries, 89.9).as_deref(), Some("warning"));
    assert_eq!(resolve(&entries, 90.0).as_deref(), Some("critical"));
    assert_eq!(resolve(&entries, 250.0).as_deref(), Some("critical"));
}

#[test]
fn no_threshold_reached() {
    assert_eq!(resolve(&[("warning", 70.0)], 69.0), None);
    assert_eq!(resolve(&[], 69.0), None);
}

#[test]
fn last_name_wins_among_equal_thresholds() {
    assert_eq!(resolve(&[("b", 50.0), ("a", 50.0)], 50.0).as_deref(), Some("b"));
    assert_eq!(resolve(&[("b", -0.0), ("a", 0.0)], 0.0).as_deref(), Some("b"));
}

#[test]
fn nan_is_never_reached() {
    assert_eq!(resolve(&[("a", f64::NAN)], 100.0), None);
    assert_eq!(resolve(&[("a", 0.0)], f64::NAN), None);
    assert_eq!(resolve(&[("a", 0.0), ("b", f64::NAN)], 1.0).as_deref(), Some("a"));
}

#[test]
fn rising_value_keeps_or_raises_the_state() {
    let entries = [("a", 80.0), ("b", 20.0), ("c", 50.0)];
    let mut last = 0.0;
    for value in 20..=100 {
        let name = resolve(&entries, value as f64).unwrap();
        let threshold = entries.iter().find(|entry| entry.0 == name).unwrap().1;
        assert!(threshold >= last);
        last = threshold;
    }
    assert_eq!(last, 80.0);
}

#[test]
fn names_come_in_order() {
    let states = states(&[("warn", 1.0), ("é", 2.0), ("a", 3.0), ("", 4.0), ("ab", 5.0), ("Z", 6.0)]);
    let names = states.names();
    let mut sorted = names.clone();
    sorted.sort();
    assert_eq!(names, sorted);
    assert_eq!(names, vec!["", "Z", "a", "ab", "warn", "é"]);
}

#[test]
fn inserting_again_replaces_the_threshold() {
    let entries = [("a", 10.0), ("b", 20.0), ("a", 30.0)];
    assert_eq!(states(&entries).names(), vec!["a", "b"]);
    assert_eq!(resolve(&entries, 15.0), None);
    assert_eq!(resolve(&entries, 25.0).as_deref(), Some("b"));
    assert_eq!(resolve(&entries, 30.0).as_deref(), Some("a"));
}

#[test]
fn emptiness() {
    assert!(States::new().is_empty());
    assert!(!states(&[("a", 1.0)]).is_empty());
}

#[test]
fn a_clone_resolves_alike() {
    let states = states(&[("a", 1.0), ("b", 2.0)]);
    let clone = states.clone();
    assert_eq!(clone.names(), states.names());
    assert_eq!(resolve_state(&clone, of(2.5)).as_deref(), Some("b"));
}

#[test]
fn judgements() {
    let states = states(&[("high", 80.0), ("low", 10.0)]);
    assert_eq!(judge(&states, of(85.0)), StateChange::Show("high".to_string()));
    assert_eq!(judge(&states, of(10.0)), StateChange::Show("low".to_string()));
    assert_eq!(judge(&states, of(9.9)), StateChange::Clear);
    assert_eq!(judge(&states, of(f64::NAN)), StateChange::Clear);
    assert_eq!(StateChange::Clear.clone(), StateChange::Clear);
    assert_eq!(StateChange::Keep.clone(), StateChange::Keep);
}
