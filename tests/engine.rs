use network_watchdog::{
    poll_rounds, Action, ConnectStrategy, Event, FailureReason, RecoveryOutcome, RecoveryPass,
};

/// A scripted platform: per interface its saved profiles and visible names.
struct Platform {
    session_ok: bool,
    interfaces: Vec<(Option<Vec<&'static str>>, Option<Vec<&'static str>>)>,
    interfaces_after_enable: usize,
    adapter_ok: bool,
    accepts: fn(&str) -> bool,
    links: fn(&str) -> bool,
    reachable_via: fn(&str) -> bool,
}

struct Trace {
    outcome: RecoveryOutcome,
    attempts: Vec<String>,
    polls: usize,
    probes: usize,
    waits: Vec<u64>,
    adapter_tries: usize,
}

fn strings(v: &[&str]) -> Vec<String> {
    v.iter().map(|s| s.to_string()).collect()
}

fn drive(p: &Platform, strategy: ConnectStrategy) -> Trace {
    let mut pass = RecoveryPass::new(strategy);
    let mut trace = Trace {
        outcome: RecoveryOutcome::Failure { reason: FailureReason::NoSession, attempted: 0 },
        attempts: Vec::new(),
        polls: 0,
        probes: 0,
        waits: Vec::new(),
        adapter_tries: 0,
    };
    let mut enabled = false;
    let mut current = String::new();
    let mut event = Event::Start;
    for _ in 0..10_000 {
        let action = pass.step(event);
        event = match action {
            Action::OpenSession => Event::SessionOpened(p.session_ok),
            Action::ListInterfaces => Event::Interfaces(Some(if enabled {
                p.interfaces_after_enable
            } else {
                p.interfaces.len()
            })),
            Action::EnableAdapter => {
                trace.adapter_tries += 1;
                enabled = p.adapter_ok;
                Event::AdapterEnabled(p.adapter_ok)
            }
            Action::Wait(secs) => {
                trace.waits.push(secs);
                Event::Waited
            }
            Action::ListSavedProfiles(i) => {
                Event::SavedProfiles(p.interfaces[i].0.as_ref().map(|v| strings(v)))
            }
            Action::ListVisibleNetworks { iface, trigger_scan, settle_secs } => {
                assert!(trigger_scan);
                trace.waits.push(settle_secs);
                Event::VisibleNetworks(p.interfaces[iface].1.as_ref().map(|v| strings(v)))
            }
            Action::Connect { profile, .. } => {
                trace.attempts.push(profile.clone());
                current = profile;
                Event::ConnectRequested((p.accepts)(&current))
            }
            Action::PollState { wait_secs, .. } => {
                assert_eq!(wait_secs, 2);
                trace.polls += 1;
                Event::StateObserved((p.links)(&current))
            }
            Action::Probe => {
                trace.probes += 1;
                Event::Probed((p.reachable_via)(&current))
            }
            Action::Finish(outcome) => {
                trace.outcome = outcome;
                assert_eq!(pass.step(Event::Probed(true)), Action::Idle);
                return trace;
            }
            Action::Idle => panic!("pass stalled"),
        };
    }
    panic!("pass did not end");
}

fn yes(_: &str) -> bool {
    true
}

fn no(_: &str) -> bool {
    false
}

fn one_interface(saved: Vec<&'static str>, visible: Vec<&'static str>) -> Platform {
    Platform {
        session_ok: true,
        interfaces: vec![(Some(saved), Some(visible))],
        interfaces_after_enable: 0,
        adapter_ok: false,
        accepts: yes,
        links: yes,
        reachable_via: no,
    }
}

#[test]
fn success_on_home_stops_the_pass() {
    let mut p = one_interface(vec!["Office", "Home", "Guest"], vec!["Office", "Home", "Guest"]);
    p.reachable_via = |s| s == "Home";
    let t = drive(&p, ConnectStrategy::ScanOnly);
    assert_eq!(t.outcome, RecoveryOutcome::Success("Home".to_string()));
    assert_eq!(t.attempts, vec!["Office", "Home"]);
    assert_eq!(t.probes, 2);
}

#[test]
fn no_interface_and_adapter_fails() {
    let p = Platform {
        session_ok: true,
        interfaces: Vec::new(),
        interfaces_after_enable: 0,
        adapter_ok: false,
        accepts: yes,
        links: yes,
        reachable_via: yes,
    };
    let t = drive(&p, ConnectStrategy::All);
    assert_eq!(
        t.outcome,
        RecoveryOutcome::Failure { reason: FailureReason::NoInterface, attempted: 0 }
    );
    assert!(t.attempts.is_empty());
    assert_eq!(t.adapter_tries, 1);
}

#[test]
fn enabled_adapter_still_without_interface_fails() {
    let p = Platform {
        session_ok: true,
        interfaces: Vec::new(),
        interfaces_after_enable: 0,
        adapter_ok: true,
        accepts: yes,
        links: yes,
        reachable_via: yes,
    };
    let t = drive(&p, ConnectStrategy::All);
    assert_eq!(
        t.outcome,
        RecoveryOutcome::Failure { reason: FailureReason::NoInterface, attempted: 0 }
    );
    assert_eq!(t.waits, vec![3]);
    assert_eq!(t.adapter_tries, 1);
}

#[test]
fn polling_is_bounded_per_profile() {
    let mut p = one_interface(vec!["A", "B"], vec![]);
    p.links = no;
    let t = drive(&p, ConnectStrategy::All);
    assert_eq!(t.outcome, RecoveryOutcome::Failure { reason: FailureReason::Exhausted, attempted: 2 });
    assert_eq!(t.polls, 2 * 15);
    assert_eq!(t.probes, 0);
}

#[test]
fn end_to_end_guest_restores_network() {
    let mut p = one_interface(vec!["Office", "Home", "Guest"], vec!["Home", "Guest"]);
    p.links = |s| s == "Guest";
    p.reachable_via = |s| s == "Guest";
    let t = drive(&p, ConnectStrategy::ScanOnly);
    assert_eq!(t.outcome, RecoveryOutcome::Success("Guest".to_string()));
    assert_eq!(t.attempts, vec!["Home", "Guest"]);
    assert_eq!(t.polls, 15 + 1);
    assert_eq!(t.probes, 1);
    assert_eq!(t.waits, vec![2]);
}

#[test]
fn session_failure_ends_pass() {
    let mut p = one_interface(vec!["Home"], vec!["Home"]);
    p.session_ok = false;
    let t = drive(&p, ConnectStrategy::All);
    assert_eq!(t.outcome, RecoveryOutcome::Failure { reason: FailureReason::NoSession, attempted: 0 });
}

#[test]
fn interface_query_failure_ends_pass() {
    let mut pass = RecoveryPass::new(ConnectStrategy::All);
    assert_eq!(pass.step(Event::Start), Action::OpenSession);
    assert_eq!(pass.step(Event::SessionOpened(true)), Action::ListInterfaces);
    assert_eq!(
        pass.step(Event::Interfaces(None)),
        Action::Finish(RecoveryOutcome::Failure {
            reason: FailureReason::InterfaceQuery,
            attempted: 0
        })
    );
}

#[test]
fn no_candidates_anywhere() {
    let p = one_interface(vec!["Office"], vec!["Cafe"]);
    let t = drive(&p, ConnectStrategy::ScanOnly);
    assert_eq!(
        t.outcome,
        RecoveryOutcome::Failure { reason: FailureReason::NoCandidates, attempted: 0 }
    );
}

#[test]
fn failed_interface_queries_are_skipped() {
    let p = Platform {
        session_ok: true,
        interfaces: vec![
            (None, None),
            (Some(vec!["Office"]), None),
            (Some(vec!["Office", "Home"]), Some(vec!["Home"])),
        ],
        interfaces_after_enable: 0,
        adapter_ok: false,
        accepts: yes,
        links: yes,
        reachable_via: yes,
    };
    let t = drive(&p, ConnectStrategy::ScanOnly);
    assert_eq!(t.outcome, RecoveryOutcome::Success("Home".to_string()));
    assert_eq!(t.attempts, vec!["Home"]);
}

#[test]
fn rejected_connect_moves_to_next_profile() {
    let mut p = one_interface(vec!["Office", "Home"], vec![]);
    p.accepts = |s| s != "Office";
    p.reachable_via = yes;
    let t = drive(&p, ConnectStrategy::All);
    assert_eq!(t.outcome, RecoveryOutcome::Success("Home".to_string()));
    assert_eq!(t.attempts, vec!["Office", "Home"]);
    assert_eq!(t.polls, 1);
}

#[test]
fn explicit_strategy_does_not_scan() {
    let mut p = one_interface(vec!["Office", "Home"], vec![]);
    p.reachable_via = yes;
    let t = drive(&p, ConnectStrategy::Explicit(strings(&["Home"])));
    assert_eq!(t.outcome, RecoveryOutcome::Success("Home".to_string()));
    assert!(t.waits.is_empty());
}

#[test]
fn interfaces_found_after_enabling_adapter() {
    let p = Platform {
        session_ok: true,
        interfaces: vec![(Some(vec!["Home"]), Some(vec!["Home"]))],
        interfaces_after_enable: 1,
        adapter_ok: true,
        accepts: yes,
        links: yes,
        reachable_via: yes,
    };
    let mut pass = RecoveryPass::new(ConnectStrategy::All);
    assert_eq!(pass.step(Event::Start), Action::OpenSession);
    assert_eq!(pass.step(Event::SessionOpened(true)), Action::ListInterfaces);
    assert_eq!(pass.step(Event::Interfaces(Some(0))), Action::EnableAdapter);
    assert_eq!(pass.step(Event::AdapterEnabled(true)), Action::Wait(3));
    assert_eq!(pass.step(Event::Waited), Action::ListInterfaces);
    assert_eq!(pass.step(Event::Interfaces(Some(1))), Action::ListSavedProfiles(0));
    let t = drive(&p, ConnectStrategy::All);
    assert_eq!(t.outcome, RecoveryOutcome::Success("Home".to_string()));
}

#[test]
fn unexpected_event_is_ignored() {
    let mut pass = RecoveryPass::new(ConnectStrategy::All);
    assert_eq!(pass.step(Event::Probed(true)), Action::Idle);
    assert_eq!(pass.step(Event::Start), Action::OpenSession);
    assert_eq!(pass.step(Event::Waited), Action::Idle);
    assert_eq!(pass.step(Event::SessionOpened(true)), Action::ListInterfaces);
}

#[test]
fn poll_rounds_values() {
    assert_eq!(poll_rounds(30, 2), 15);
    assert_eq!(poll_rounds(31, 2), 15);
    assert_eq!(poll_rounds(1, 2), 1);
    assert_eq!(poll_rounds(0, 5), 1);
}
