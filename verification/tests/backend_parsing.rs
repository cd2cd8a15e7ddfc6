//! Tests of the backend response decoding: heartbeat commands, time
//! fields, and server URLs.

use spoolbuddy::backend::{
    heartbeat_command, parse_backend_time, parse_server_url, HeartbeatCommand, ServerAddr,
};

#[test]
fn heartbeat_detects_update_command() {
    let body = b"{\"command\":\"update\"}".to_vec();
    assert_eq!(heartbeat_command(&body), HeartbeatCommand::Update);
    let spaced = b"{\"command\": \"update\"}".to_vec();
    assert_eq!(heartbeat_command(&spaced), HeartbeatCommand::Update);
}

#[test]
fn heartbeat_detects_reboot_command() {
    let body = b"{\"command\":\"reboot\"}".to_vec();
    assert_eq!(heartbeat_command(&body), HeartbeatCommand::Reboot);
    let spaced = b"{\"command\": \"reboot\"}".to_vec();
    assert_eq!(heartbeat_command(&spaced), HeartbeatCommand::Reboot);
}

#[test]
fn heartbeat_update_wins_over_reboot() {
    let body = b"{\"command\":\"reboot\",\"command\":\"update\"}".to_vec();
    assert_eq!(heartbeat_command(&body), HeartbeatCommand::Update);
}

#[test]
fn heartbeat_ignores_everything_else() {
    assert_eq!(
        heartbeat_command(&b"{\"ok\":true}".to_vec()),
        HeartbeatCommand::NoCommand
    );
    assert_eq!(heartbeat_command(&vec![]), HeartbeatCommand::NoCommand);
}

#[test]
fn time_reads_both_fields() {
    let body = b"{\"hour\":13,\"minute\":37}".to_vec();
    assert_eq!(parse_backend_time(&body), Some((13, 37)));
}

#[test]
fn time_rejects_missing_or_oversized_fields() {
    assert_eq!(parse_backend_time(&b"{\"hour\":13}".to_vec()), None);
    assert_eq!(parse_backend_time(&b"{\"minute\":37}".to_vec()), None);
    assert_eq!(
        parse_backend_time(&b"{\"hour\":300,\"minute\":1}".to_vec()),
        None
    );
}

#[test]
fn server_url_full_form() {
    let url = b"http://192.168.1.42:8080/api".to_vec();
    assert_eq!(
        parse_server_url(&url),
        Some(ServerAddr {
            ip0: 192,
            ip1: 168,
            ip2: 1,
            ip3: 42,
            port: 8080,
        })
    );
}

#[test]
fn server_url_defaults_port() {
    let url = b"http://10.0.0.1".to_vec();
    assert_eq!(
        parse_server_url(&url),
        Some(ServerAddr {
            ip0: 10,
            ip1: 0,
            ip2: 0,
            ip3: 1,
            port: 3000,
        })
    );
    // An unusable port also falls back to the default.
    let bad_port = b"http://10.0.0.1:hi".to_vec();
    assert_eq!(parse_server_url(&bad_port).unwrap().port, 3000);
}

#[test]
fn server_url_rejects_non_addresses() {
    assert_eq!(parse_server_url(&b"".to_vec()), None);
    assert_eq!(parse_server_url(&b"https://10.0.0.1".to_vec()), None);
    assert_eq!(parse_server_url(&b"http://printer.local".to_vec()), None);
    assert_eq!(parse_server_url(&b"http://10.0.0".to_vec()), None);
    assert_eq!(parse_server_url(&b"http://10.0.0.0.1".to_vec()), None);
    assert_eq!(parse_server_url(&b"http://10.0.0.256".to_vec()), None);
    assert_eq!(parse_server_url(&b"http://10.0.0.01".to_vec()), None);
}
