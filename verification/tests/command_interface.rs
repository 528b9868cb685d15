//! The textual command interface: tokenizing, dispatch, and the exact
//! wording of every answer.

use ssh_mcp::commands::{process_mcp_command, split_tokens, ClientRecord, ServerSnapshot};

fn snapshot() -> ServerSnapshot {
    ServerSnapshot {
        version: "1.2.3".to_string(),
        ssh_port: "22".to_string(),
        mcp_port: "8000".to_string(),
        connections: 3,
        uptime: "5m".to_string(),
        now_secs: 0,
        clients: Some(Vec::new()),
    }
}

#[test]
fn tokenizing_splits_at_whitespace_runs() {
    assert_eq!(split_tokens("  a  bb "), vec!["a", "bb"]);
    assert_eq!(split_tokens(""), Vec::<String>::new());
    assert_eq!(split_tokens("   \t\r\n "), Vec::<String>::new());
    assert_eq!(
        split_tokens("mcp broadcast hello world"),
        vec!["mcp", "broadcast", "hello", "world"]
    );
}

#[test]
fn too_few_tokens_is_unknown() {
    let s = snapshot();
    let expected = "Unknown MCP command. Try 'mcp help' for available commands.\r\n$ ";
    assert_eq!(process_mcp_command("", &s), expected);
    assert_eq!(process_mcp_command("mcp", &s), expected);
    assert_eq!(process_mcp_command("   mcp   ", &s), expected);
}

#[test]
fn unknown_subcommand_names_it() {
    let s = snapshot();
    assert_eq!(
        process_mcp_command("mcp frobnicate", &s),
        "Unknown MCP command: frobnicate. Try 'mcp help' for available commands.\r\n$ "
    );
}

#[test]
fn info_renders_the_snapshot() {
    let s = snapshot();
    assert_eq!(
        process_mcp_command("mcp info", &s),
        "SSH MCP Server Information\r\nVersion: 1.2.3\r\nSSH Port: 22\r\nMCP Port: 8000\r\n$ "
    );
    // only the second token picks the subcommand
    assert_eq!(
        process_mcp_command("anything info", &s),
        "SSH MCP Server Information\r\nVersion: 1.2.3\r\nSSH Port: 22\r\nMCP Port: 8000\r\n$ "
    );
}

#[test]
fn status_renders_counter_uptime_and_clock() {
    let s = snapshot();
    assert_eq!(
        process_mcp_command("mcp status", &s),
        "Server Status: Online\r\nActive SSH Connections: 3\r\nUptime: 5m\r\nServer Time: 1970-01-01 00:00:00 UTC\r\n$ "
    );
}

#[test]
fn tools_lists_the_five_tools() {
    let s = snapshot();
    assert_eq!(
        process_mcp_command("mcp tools", &s),
        "Available MCP Tools:\r\n- get_status: Server status information\r\n- get_tools: List available AI tools\r\n- get_last_command: Last SSH command executed\r\n- broadcast_message: Send a message to SSH clients\r\n- get_clients: Get connected clients information\r\n$ "
    );
}

#[test]
fn help_lists_the_subcommands() {
    let s = snapshot();
    assert_eq!(
        process_mcp_command("mcp help", &s),
        "SSH MCP Commands:\r\n- mcp info: Show server information\r\n- mcp status: Show server status\r\n- mcp tools: Show available MCP tools\r\n- mcp help: Show this help message\r\n- mcp clients: List connected clients\r\n- mcp broadcast <message>: Send message to all connected clients\r\n$ "
    );
}

#[test]
fn clients_without_roster_access() {
    let mut s = snapshot();
    s.clients = None;
    assert_eq!(
        process_mcp_command("mcp clients", &s),
        "Connected Clients:\r\nError accessing client list\r\n$ "
    );
}

#[test]
fn clients_with_empty_roster() {
    let s = snapshot();
    assert_eq!(
        process_mcp_command("mcp clients", &s),
        "Connected Clients:\r\nNo clients connected\r\n$ "
    );
}

#[test]
fn clients_lists_each_with_position_and_age() {
    let mut s = snapshot();
    s.now_secs = 7325; // 1970-01-01 02:02:05 UTC
    s.clients = Some(vec![
        ClientRecord {
            name: "alice".to_string(),
            uuid: "u-1".to_string(),
            connected_secs: 0,
            last_activity_secs: 0,
        },
        ClientRecord {
            name: "bob".to_string(),
            uuid: "u-2".to_string(),
            connected_secs: 60,
            last_activity_secs: 60,
        },
    ]);
    assert_eq!(
        process_mcp_command("mcp clients", &s),
        "Connected Clients:\r\n\
         1. alice (UUID: u-1)\r\n   Connected: 1970-01-01 00:00:00 UTC (02:02:05 ago)\r\n\
         2. bob (UUID: u-2)\r\n   Connected: 1970-01-01 00:01:00 UTC (02:01:05 ago)\r\n\
         $ "
    );
}

#[test]
fn client_age_hours_are_not_truncated() {
    let mut s = snapshot();
    s.now_secs = 400 * 3600; // 1970-01-17 16:00:00 UTC
    s.clients = Some(vec![ClientRecord {
        name: "old".to_string(),
        uuid: "u-9".to_string(),
        connected_secs: 0,
        last_activity_secs: 0,
    }]);
    assert_eq!(
        process_mcp_command("mcp clients", &s),
        "Connected Clients:\r\n\
         1. old (UUID: u-9)\r\n   Connected: 1970-01-01 00:00:00 UTC (400:00:00 ago)\r\n\
         $ "
    );
}

#[test]
fn broadcast_without_message_shows_usage() {
    let s = snapshot();
    assert_eq!(
        process_mcp_command("mcp broadcast", &s),
        "Usage: mcp broadcast <message>\r\n$ "
    );
}

#[test]
fn broadcast_joins_the_rest_of_the_line() {
    let s = snapshot();
    assert_eq!(
        process_mcp_command("mcp broadcast hello world", &s),
        "Message broadcast: hello world\r\n$ "
    );
    // separator runs collapse to single spaces
    assert_eq!(
        process_mcp_command("mcp   broadcast   hello    world ", &s),
        "Message broadcast: hello world\r\n$ "
    );
}
