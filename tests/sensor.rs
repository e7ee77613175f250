use doorbell::sensor::{
    level_is_active, replay, transition_of, Level, Polarity, SensorMonitor, SensorState,
    Transition,
};

fn t(from: bool, to: bool) -> Option<Transition> {
    Some(Transition { from, to })
}

#[test]
fn active_low_scenario_transitions_at_third_and_fifth_sample() {
    let samples = vec![Level::High, Level::High, Level::Low, Level::Low, Level::High];
    let r = replay(false, &samples, Polarity::ActiveLow);
    assert_eq!(r, vec![None, None, t(false, true), None, t(true, false)]);
}

#[test]
fn active_high_scenario_transitions_on_every_change() {
    let samples = vec![Level::High, Level::High, Level::Low, Level::Low, Level::High];
    let r = replay(false, &samples, Polarity::ActiveHigh);
    assert_eq!(r, vec![t(false, true), None, t(true, false), None, t(false, true)]);
}

#[test]
fn repeated_samples_never_transition() {
    let samples = vec![Level::Low; 6];
    let r = replay(false, &samples, Polarity::ActiveLow);
    assert_eq!(r[0], t(false, true));
    assert!(r[1..].iter().all(|x| x.is_none()));
}

#[test]
fn empty_sample_run_has_no_transitions() {
    let r = replay(true, &Vec::new(), Polarity::ActiveLow);
    assert!(r.is_empty());
}

#[test]
fn polarity_decides_activeness() {
    assert!(level_is_active(Level::Low, Polarity::ActiveLow));
    assert!(!level_is_active(Level::High, Polarity::ActiveLow));
    assert!(level_is_active(Level::High, Polarity::ActiveHigh));
    assert!(!level_is_active(Level::Low, Polarity::ActiveHigh));
}

#[test]
fn transition_only_when_level_differs_from_stored() {
    assert_eq!(transition_of(false, Level::Low, Polarity::ActiveLow), t(false, true));
    assert_eq!(transition_of(true, Level::Low, Polarity::ActiveLow), None);
    assert_eq!(transition_of(true, Level::High, Polarity::ActiveLow), t(true, false));
    assert_eq!(transition_of(false, Level::High, Polarity::ActiveLow), None);
}

#[test]
fn monitor_publishes_changes_to_shared_state() {
    let shared = SensorState::new();
    let reader = shared.share();
    let mut monitor = SensorMonitor::new(Polarity::ActiveLow, shared);
    assert!(!monitor.state());
    assert!(!reader.is_triggered());
    assert_eq!(monitor.sample(Level::High), None);
    assert_eq!(monitor.sample(Level::Low), t(false, true));
    assert!(monitor.state());
    assert!(reader.is_triggered());
    assert_eq!(monitor.sample(Level::Low), None);
    assert!(reader.is_triggered());
    assert_eq!(monitor.sample(Level::High), t(true, false));
    assert!(!reader.is_triggered());
}

#[test]
fn shared_state_set_and_read() {
    let s = SensorState::new();
    assert!(!s.is_triggered());
    s.set(true);
    assert!(s.is_triggered());
    assert!(s.share().is_triggered());
}
