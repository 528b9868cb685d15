//! The informational tool surface and the plain-text rendering helpers.

use ssh_mcp::commands::ClientRecord;
use ssh_mcp::textfmt::{str_eq, u64_to_dec, u64_to_two_digits};
use ssh_mcp::tools::McpTools;

#[test]
fn decimal_rendering() {
    assert_eq!(u64_to_dec(0), "0");
    assert_eq!(u64_to_dec(7), "7");
    assert_eq!(u64_to_dec(10), "10");
    assert_eq!(u64_to_dec(12345), "12345");
    assert_eq!(u64_to_dec(18446744073709551615), "18446744073709551615");
}

#[test]
fn two_digit_rendering() {
    assert_eq!(u64_to_two_digits(0), "00");
    assert_eq!(u64_to_two_digits(5), "05");
    assert_eq!(u64_to_two_digits(59), "59");
    assert_eq!(u64_to_two_digits(100), "100");
}

#[test]
fn string_equality() {
    assert!(str_eq("", ""));
    assert!(str_eq("abc", "abc"));
    assert!(!str_eq("abc", "abd"));
    assert!(!str_eq("abc", "abcd"));
}

#[test]
fn status_report_fields() {
    let tools = McpTools {};
    let r = tools.get_status(4, "2h".to_string(), 0);
    assert_eq!(r.status, "online");
    assert_eq!(r.ssh_connections, 4);
    assert_eq!(r.uptime, "2h");
    assert_eq!(r.server_time, "1970-01-01T00:00:00+00:00");
}

#[test]
fn tool_roster() {
    let tools = McpTools {};
    let r = tools.get_tools();
    let got: Vec<(String, String)> = r
        .into_iter()
        .map(|d| (d.name, d.description))
        .collect();
    assert_eq!(
        got,
        vec![
            (
                "get_status".to_string(),
                "Server status information".to_string()
            ),
            (
                "get_tools".to_string(),
                "List available AI tools".to_string()
            ),
            (
                "get_last_command".to_string(),
                "Last SSH command executed".to_string()
            ),
            (
                "broadcast_message".to_string(),
                "Send a message to SSH clients".to_string()
            ),
            (
                "get_clients".to_string(),
                "Get information about connected SSH clients".to_string()
            ),
        ]
    );
}

#[test]
fn last_command_is_handed_back() {
    let tools = McpTools {};
    assert_eq!(tools.get_last_command(&"ls -la".to_string()), "ls -la");
}

#[test]
fn broadcast_report_fields() {
    let tools = McpTools {};
    let r = tools.broadcast_message("maintenance at noon".to_string(), 86400);
    assert!(r.success);
    assert_eq!(r.message, "maintenance at noon");
    assert_eq!(r.timestamp, "1970-01-02T00:00:00+00:00");
}

#[test]
fn client_roster_report() {
    let tools = McpTools {};
    let clients = vec![
        ClientRecord {
            name: "alice".to_string(),
            uuid: "u-1".to_string(),
            connected_secs: 0,
            last_activity_secs: 60,
        },
        ClientRecord {
            name: "bob".to_string(),
            uuid: "u-2".to_string(),
            connected_secs: 86400,
            last_activity_secs: 90000,
        },
    ];
    let r = tools.get_clients(&clients);
    assert_eq!(r.count, 2);
    assert_eq!(r.clients.len(), 2);
    assert_eq!(r.clients[0].name, "alice");
    assert_eq!(r.clients[0].uuid, "u-1");
    assert_eq!(r.clients[0].connected_at, "1970-01-01T00:00:00+00:00");
    assert_eq!(r.clients[0].last_activity, "1970-01-01T00:01:00+00:00");
    assert_eq!(r.clients[1].name, "bob");
    assert_eq!(r.clients[1].connected_at, "1970-01-02T00:00:00+00:00");
    assert_eq!(r.clients[1].last_activity, "1970-01-02T01:00:00+00:00");
}
