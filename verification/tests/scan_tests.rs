use ccheck::adapters::{CCheckChat, CCheckResponse, ProbeError};
use ccheck::condition::Conditions;
use ccheck::format::ccheck::CCheckFileHandler;
use ccheck::format::masscan::{MasscanFormat, MasscanPort, MasscanServer};
use ccheck::mode::scanner::Scanner;
use ccheck::pool::{Target, TargetPool};

fn chat(text: &str) -> CCheckChat {
    CCheckChat {
        text: text.to_string(),
        bold: false,
        italic: false,
        underlined: false,
        strikethrough: false,
        obfuscated: false,
        color: None,
        extra: Vec::new(),
    }
}

fn resp(version: &str) -> CCheckResponse {
    CCheckResponse {
        version: version.to_string(),
        protocol: 758,
        max_players: 20,
        online_players: 0,
        sample: None,
        description: chat("motd"),
        favicon: None,
    }
}

fn target(host: &str, port: u16) -> Target {
    Target { host: host.to_string(), port }
}

fn scanner(targets: Vec<Target>) -> Scanner {
    Scanner {
        addrs: TargetPool::new(targets),
        conditions: Conditions { conditions: Vec::new() },
        timeout_ms: 1000,
        progress_bar: false,
    }
}

#[test]
fn pool_pops_in_reverse_order_and_empties() {
    let mut pool = TargetPool::new(vec![target("a", 1), target("b", 2), target("c", 3)]);
    assert_eq!(pool.len(), 3);
    assert_eq!(pool.pop().unwrap().host, "c");
    assert_eq!(pool.pop().unwrap().host, "b");
    assert_eq!(pool.pop().unwrap().host, "a");
    assert!(pool.pop().is_none());
    assert_eq!(pool.len(), 0);
}

#[test]
fn pool_snapshot_reads_without_draining() {
    let pool = TargetPool::new(vec![target("a", 1), target("b", 2)]);
    let snap = pool.snapshot();
    assert_eq!(snap.len(), 2);
    assert_eq!(snap[0].host, "a");
    assert_eq!(snap[1].port, 2);
    assert_eq!(pool.len(), 2);
}

#[test]
fn drain_attempts_every_target_exactly_once() {
    let names = ["a", "b", "c", "d", "e"];
    let mut pool = TargetPool::new(names.iter().map(|n| target(n, 25565)).collect());
    let mut attempted: Vec<String> = Vec::new();
    while let Some(t) = pool.pop() {
        attempted.push(t.host);
    }
    attempted.sort();
    let mut expected: Vec<String> = names.iter().map(|n| n.to_string()).collect();
    expected.sort();
    assert_eq!(attempted, expected);
}

#[test]
fn scan_with_two_successes_persists_two_records() {
    let mut s = scanner(vec![target("a", 25565), target("b", 25565)]);
    let mut out = CCheckFileHandler::new();
    let outcomes = vec![Ok(resp("1.19")), Ok(resp("1.18"))];
    let (accepted, total) = s.run(outcomes, &mut out);
    assert_eq!(accepted, 2);
    assert_eq!(total, 2);
    assert_eq!(out.count, 2);
    out.done();
    let text: String = out.buf.iter().collect();
    let v: serde_json::Value = serde_json::from_str(&text).expect("stream must parse");
    let arr = v.as_array().expect("stream must be an array");
    assert_eq!(arr.len(), 2);
    let mut hosts: Vec<&str> =
        arr.iter().map(|r| r["ip"][0].as_str().expect("host string")).collect();
    hosts.sort();
    assert_eq!(hosts, vec!["a", "b"]);
}

#[test]
fn timed_out_probe_yields_no_record_but_run_completes() {
    let mut s = scanner(vec![target("a", 1), target("c", 2), target("b", 3)]);
    let mut out = CCheckFileHandler::new();
    let outcomes = vec![Ok(resp("1.19")), Err(ProbeError::TimedOut), Ok(resp("1.18"))];
    let (accepted, total) = s.run(outcomes, &mut out);
    assert_eq!(accepted, 2);
    assert_eq!(total, 3);
    out.done();
    let text: String = out.buf.iter().collect();
    let v: serde_json::Value = serde_json::from_str(&text).expect("stream must parse");
    let arr = v.as_array().expect("array");
    assert_eq!(arr.len(), 2);
    for rec in arr {
        assert_ne!(rec["ip"][0].as_str().unwrap(), "c");
    }
}

#[test]
fn all_probes_failing_leaves_an_empty_stream() {
    let mut s = scanner(vec![target("a", 1), target("b", 2)]);
    let mut out = CCheckFileHandler::new();
    let outcomes = vec![
        Err(ProbeError::ConnectFailed),
        Err(ProbeError::ProtocolError),
    ];
    let (accepted, total) = s.run(outcomes, &mut out);
    assert_eq!(accepted, 0);
    assert_eq!(total, 2);
    out.done();
    let text: String = out.buf.iter().collect();
    let v: serde_json::Value = serde_json::from_str(&text).expect("stream must parse");
    assert_eq!(v.as_array().unwrap().len(), 0);
}

#[test]
fn masscan_get_ips_takes_each_first_port() {
    let fmt = MasscanFormat {
        servers: vec![
            MasscanServer {
                ip: "203.0.113.7".to_string(),
                timestamp: "0".to_string(),
                ports: vec![MasscanPort {
                    port: 25565,
                    proto: "tcp".to_string(),
                    status: None,
                    reason: None,
                    service: None,
                    ttl: None,
                }],
            },
            MasscanServer {
                ip: "203.0.113.8".to_string(),
                timestamp: "0".to_string(),
                ports: vec![
                    MasscanPort {
                        port: 1025,
                        proto: "tcp".to_string(),
                        status: None,
                        reason: None,
                        service: None,
                        ttl: None,
                    },
                    MasscanPort {
                        port: 2048,
                        proto: "tcp".to_string(),
                        status: None,
                        reason: None,
                        service: None,
                        ttl: None,
                    },
                ],
            },
        ],
    };
    let ips = fmt.get_ips();
    assert_eq!(ips.len(), 2);
    assert_eq!(ips[0].host, "203.0.113.7");
    assert_eq!(ips[0].port, 25565);
    assert_eq!(ips[1].port, 1025);
}
