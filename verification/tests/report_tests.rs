use server_status::config::ServerConfiguration;
use server_status::query::{outcome_of_response, QueryOutcome, TransportError};
use server_status::report::{build_report, entry_for, format_line};

fn descriptor(name: &str, ip: &str, port: u16) -> ServerConfiguration {
    ServerConfiguration { name: name.to_string(), ip: ip.to_string(), port }
}

fn reply_buffer(name: &str, map: &str, players: u8, max_players: u8) -> Vec<u8> {
    let mut buf: Vec<u8> = vec![0xff, 0xff, 0xff, 0xff, 0x49, 17];
    buf.extend_from_slice(name.as_bytes());
    buf.push(0);
    buf.extend_from_slice(map.as_bytes());
    buf.push(0);
    buf.extend_from_slice(b"folder\0game\0");
    buf.extend_from_slice(&[10, 0]);
    buf.push(players);
    buf.push(max_players);
    buf
}

#[test]
fn format_line_exact() {
    let line = format_line("de_dust2", 5, 10, "203.0.113.5:27015");
    assert_eq!(line, "| de_dust2 | 5/10 | Join: steam://connect/203.0.113.5:27015 |");
}

#[test]
fn scenario_two_descriptors() {
    let descriptors = vec![
        descriptor("Alpha", "203.0.113.5", 27015),
        descriptor("Beta", "203.0.113.9", 27015),
    ];
    let alpha_reply = reply_buffer("Alpha Server", "de_dust2", 5, 10);
    let outcomes = vec![
        outcome_of_response("Alpha", Ok(alpha_reply)),
        outcome_of_response("Beta", Err(TransportError::Timeout)),
    ];
    let report = build_report(&descriptors, outcomes);
    assert_eq!(report.len(), 2);
    assert_eq!(report[0].0, "Alpha Server");
    assert_eq!(report[0].1, "| de_dust2 | 5/10 | Join: steam://connect/203.0.113.5:27015 |");
    assert_eq!(report[1].0, "Beta");
    assert_eq!(report[1].1, "Offline");
}

#[test]
fn order_is_preserved_under_mixed_outcomes() {
    let descriptors = vec![
        descriptor("One", "198.51.100.1", 1111),
        descriptor("Two", "198.51.100.2", 2222),
        descriptor("Three", "198.51.100.3", 3333),
        descriptor("Four", "198.51.100.4", 4444),
    ];
    let outcomes = vec![
        outcome_of_response("One", Err(TransportError::ResolutionFailed)),
        outcome_of_response("Two", Ok(reply_buffer("Two Online", "alpha_map", 1, 2))),
        outcome_of_response("Three", Err(TransportError::SendFailed)),
        outcome_of_response("Four", Ok(reply_buffer("Four Online", "beta_map", 3, 4))),
    ];
    let report = build_report(&descriptors, outcomes);
    let labels: Vec<&str> = report.iter().map(|e| e.0.as_str()).collect();
    assert_eq!(labels, vec!["One", "Two Online", "Three", "Four Online"]);
    assert_eq!(report[0].1, "Offline");
    assert_eq!(report[2].1, "Offline");
}

#[test]
fn total_failure_yields_complete_report() {
    let descriptors = vec![
        descriptor("A", "192.0.2.1", 27015),
        descriptor("B", "192.0.2.2", 27016),
        descriptor("C", "192.0.2.3", 27017),
    ];
    let outcomes = vec![
        outcome_of_response("A", Err(TransportError::Timeout)),
        outcome_of_response("B", Err(TransportError::ReceiveFailed)),
        outcome_of_response("C", Ok(vec![0x00, 0x01])), // malformed reply
    ];
    let report = build_report(&descriptors, outcomes);
    assert_eq!(report.len(), 3);
    for (i, expected) in ["A", "B", "C"].iter().enumerate() {
        assert_eq!(report[i].0, *expected);
        assert_eq!(report[i].1, "Offline");
    }
}

#[test]
fn empty_input_yields_empty_report() {
    let report = build_report(&vec![], vec![]);
    assert!(report.is_empty());
}

#[test]
fn empty_reported_name_falls_back_to_display_name() {
    let outcome = outcome_of_response("Configured Name", Ok(reply_buffer("", "de_inferno", 2, 16)));
    match outcome {
        QueryOutcome::Online(reply) => assert_eq!(reply.reported_name, "Configured Name"),
        QueryOutcome::Unreachable => panic!("a well-formed reply must be Online"),
    }
}

#[test]
fn reported_name_wins_when_present() {
    let outcome = outcome_of_response("Configured Name", Ok(reply_buffer("Announced", "cp_dust", 0, 0)));
    match outcome {
        QueryOutcome::Online(reply) => assert_eq!(reply.reported_name, "Announced"),
        QueryOutcome::Unreachable => panic!("a well-formed reply must be Online"),
    }
}

#[test]
fn every_transport_failure_is_unreachable() {
    for err in [
        TransportError::ResolutionFailed,
        TransportError::SendFailed,
        TransportError::ReceiveFailed,
        TransportError::Timeout,
    ] {
        match outcome_of_response("X", Err(err)) {
            QueryOutcome::Unreachable => {},
            QueryOutcome::Online(_) => panic!("{:?} must be Unreachable", err),
        }
    }
}

#[test]
fn entry_for_offline_uses_display_name() {
    let d = descriptor("Gamma", "203.0.113.7", 27015);
    let entry = entry_for(&d, QueryOutcome::Unreachable);
    assert_eq!(entry.0, "Gamma");
    assert_eq!(entry.1, "Offline");
}
