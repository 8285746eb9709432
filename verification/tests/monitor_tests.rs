use ccheck::adapters::{CCheckChat, CCheckPlayer, CCheckResponse, ProbeError};
use ccheck::condition::{Actor, CompiledRegex, Condition, ConditionType, Conditions};
use ccheck::mode::monitor::Monitor;
use ccheck::pool::Target;

fn chat(text: &str) -> CCheckChat {
    CCheckChat {
        text: text.to_string(),
        bold: false,
        italic: false,
        underlined: false,
        strikethrough: false,
        obfuscated: false,
        color: None,
        extra: Vec::new(),
    }
}

fn resp(version: &str) -> CCheckResponse {
    CCheckResponse {
        version: version.to_string(),
        protocol: 758,
        max_players: 20,
        online_players: 2,
        sample: Some(vec![
            CCheckPlayer { name: "alpha".to_string(), id: "a-1".to_string() },
            CCheckPlayer { name: "beta".to_string(), id: "b-2".to_string() },
        ]),
        description: chat("the motd"),
        favicon: None,
    }
}

fn monitor(conditions: Conditions) -> Monitor {
    Monitor {
        rate: 10,
        timeout_ms: 1000,
        conditions,
        addrs: vec![
            Target { host: "one".to_string(), port: 25565 },
            Target { host: "two".to_string(), port: 25565 },
        ],
        webhook_url: None,
    }
}

fn accept_all() -> Conditions {
    Conditions { conditions: Vec::new() }
}

fn accept_version(v: &str) -> Conditions {
    Conditions {
        conditions: vec![Condition {
            values: vec![v.to_string()],
            values_regex: Vec::new(),
            conditon_type: ConditionType::Include,
            actor: Actor::Version,
        }],
    }
}

#[test]
fn spawn_delay_paces_at_the_configured_rate() {
    let m = monitor(accept_all());
    assert_eq!(m.spawn_delay_micros(), 100_000);
    let mut m2 = monitor(accept_all());
    m2.rate = 1;
    assert_eq!(m2.spawn_delay_micros(), 1_000_000);
}

#[test]
fn evaluate_builds_the_alert_payload() {
    let m = monitor(accept_all());
    let r = resp("1.19");
    let p = m.evaluate(&m.addrs[0], &r).expect("accepted");
    assert_eq!(p.address, "one:25565");
    assert_eq!(p.version, "1.19");
    assert_eq!(p.players, "beta, alpha, ");
    assert_eq!(p.motd, "the motd");
}

#[test]
fn evaluate_rejects_when_conditions_fail() {
    let m = monitor(accept_version("1.8.9"));
    let r = resp("1.19");
    assert!(m.evaluate(&m.addrs[0], &r).is_none());
}

#[test]
fn exit_on_success_stops_after_the_full_round() {
    let m = monitor(accept_all());
    // Round 1 accepts both targets; a second round is supplied but must not
    // run.
    let rounds = vec![
        vec![Ok(resp("1.19")), Ok(resp("1.18"))],
        vec![Ok(resp("1.17")), Ok(resp("1.16"))],
    ];
    let report = m.run(true, &rounds);
    assert_eq!(report.rounds_run, 1);
    // The round completed: both acceptances of round 1 are reported, not
    // just the first.
    assert_eq!(report.alerts.len(), 2);
    assert_eq!(report.alerts[0].address, "one:25565");
    assert_eq!(report.alerts[1].address, "two:25565");
}

#[test]
fn without_exit_on_success_every_round_runs() {
    let m = monitor(accept_all());
    let rounds = vec![
        vec![Ok(resp("1.19")), Err(ProbeError::TimedOut)],
        vec![Err(ProbeError::ConnectFailed), Ok(resp("1.18"))],
    ];
    let report = m.run(false, &rounds);
    assert_eq!(report.rounds_run, 2);
    assert_eq!(report.alerts.len(), 2);
}

#[test]
fn rounds_without_acceptance_keep_running() {
    let m = monitor(accept_version("1.8.9"));
    let rounds = vec![
        vec![Ok(resp("1.19")), Err(ProbeError::TimedOut)],
        vec![Ok(resp("1.18")), Ok(resp("1.17"))],
        vec![Ok(resp("1.8.9")), Err(ProbeError::ProtocolError)],
    ];
    let report = m.run(true, &rounds);
    assert_eq!(report.rounds_run, 3);
    assert_eq!(report.alerts.len(), 1);
    assert_eq!(report.alerts[0].version, "1.8.9");
}

#[test]
fn probe_failures_never_abort_a_round() {
    let m = monitor(accept_all());
    let rounds = vec![vec![Err(ProbeError::ConnectFailed), Ok(resp("1.18"))]];
    let report = m.run(true, &rounds);
    assert_eq!(report.rounds_run, 1);
    assert_eq!(report.alerts.len(), 1);
    assert_eq!(report.alerts[0].address, "two:25565");
}
