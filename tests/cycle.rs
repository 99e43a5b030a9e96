use wg_ddns::monitor::{diverged, restart_needed, Action, Event, Monitor, Phase};

fn monitor() -> Monitor {
    Monitor::new("wg0".to_string(), "vpn.example.com".to_string(), 5)
}

fn is_sleep(a: &Action, secs: u64) -> bool {
    matches!(a, Action::Sleep(s) if *s == secs)
}

fn probe(m: &mut Monitor, status: &str) -> Action {
    assert!(matches!(m.step(Event::Wake), Action::QueryStatus));
    m.step(Event::Status(status.to_string()))
}

#[test]
fn divergence_compares_exactly() {
    assert!(diverged(&"203.0.113.5".to_string(), &"203.0.113.9".to_string()));
    assert!(!diverged(&"203.0.113.5".to_string(), &"203.0.113.5".to_string()));
}

#[test]
fn restart_needs_both_sides() {
    let a = Some("203.0.113.5".to_string());
    let b = Some("203.0.113.9".to_string());
    assert!(restart_needed(&a, &b));
    assert!(!restart_needed(&a, &a));
    assert!(!restart_needed(&None, &b));
    assert!(!restart_needed(&a, &None));
    assert!(!restart_needed(&None, &None));
}

#[test]
fn drift_restarts_down_then_up() {
    let mut m = monitor();
    match probe(&mut m, "...endpoint 203.0.113.5:51820...") {
        Action::Resolve(d) => assert_eq!(d, "vpn.example.com"),
        _ => panic!("expected a resolution"),
    }
    match m.step(Event::Resolved(Some("203.0.113.9".to_string()))) {
        Action::BringDown { tunnel, current, resolved } => {
            assert_eq!(tunnel, "wg0");
            assert_eq!(current, "203.0.113.5");
            assert_eq!(resolved, "203.0.113.9");
        }
        _ => panic!("expected a teardown"),
    }
    match m.step(Event::Exited(Some(1))) {
        Action::BringUp(t) => assert_eq!(t, "wg0"),
        _ => panic!("expected a bring-up"),
    }
    assert!(is_sleep(&m.step(Event::Exited(Some(0))), 5));
    assert!(matches!(m.phase, Phase::Idle));
}

#[test]
fn teardown_without_exit_code_still_brings_up() {
    let mut m = monitor();
    probe(&mut m, "endpoint: 203.0.113.5:51820");
    m.step(Event::Resolved(Some("203.0.113.9".to_string())));
    assert!(matches!(m.step(Event::Exited(None)), Action::BringUp(_)));
}

#[test]
fn same_address_takes_no_action() {
    let mut m = monitor();
    probe(&mut m, "...endpoint 203.0.113.5:51820...");
    assert!(is_sleep(&m.step(Event::Resolved(Some("203.0.113.5".to_string()))), 5));
    assert!(matches!(m.phase, Phase::Idle));
}

#[test]
fn failed_resolution_takes_no_action() {
    let mut m = monitor();
    probe(&mut m, "...endpoint 203.0.113.5:51820...");
    assert!(is_sleep(&m.step(Event::Resolved(None)), 5));
}

#[test]
fn missing_endpoint_skips_the_cycle() {
    let mut m = monitor();
    assert!(is_sleep(&probe(&mut m, "interface: wg0\n"), 5));
    assert!(matches!(m.phase, Phase::Idle));
}

#[test]
fn earlier_drift_is_not_carried_over() {
    let mut m = monitor();
    probe(&mut m, "endpoint 203.0.113.5:51820");
    m.step(Event::Resolved(Some("203.0.113.9".to_string())));
    m.step(Event::Exited(Some(0)));
    m.step(Event::Exited(Some(0)));
    probe(&mut m, "endpoint 203.0.113.5:51820");
    assert!(is_sleep(&m.step(Event::Resolved(None)), 5));
    assert!(is_sleep(&probe(&mut m, "no tag here"), 5));
}

#[test]
fn interval_is_configurable() {
    let mut m = Monitor::new("wg1".to_string(), "d.example".to_string(), 120);
    assert!(is_sleep(&probe(&mut m, ""), 120));
}

#[test]
fn unexpected_event_ends_the_cycle() {
    let mut m = monitor();
    m.step(Event::Wake);
    assert!(is_sleep(&m.step(Event::Wake), 5));
    assert!(matches!(m.phase, Phase::Idle));
}
