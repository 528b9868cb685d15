//! The session lifecycle: connect, claim, disconnect, list.

use ssh_mcp::registry::DrainOutcome;
use ssh_mcp::ssh_commands::{
    not_found_message, ConnectOutcome, DisconnectOutcome, McpSSHCommands, SessionClaim,
};

fn connect_ok(surface: &mut McpSSHCommands, user: &str, addr: &str, handle: u64) -> String {
    let r = surface.ssh_connect(
        &addr.to_string(),
        &user.to_string(),
        ConnectOutcome::Established(handle),
    );
    let resp = r.unwrap_or_else(|e| panic!("connect failed: {}", e.error));
    assert!(resp.authenticated);
    resp.session_id
}

#[test]
fn connect_issues_distinct_ids() {
    let mut surface = McpSSHCommands::new();
    let mut ids: Vec<String> = Vec::new();
    for k in 0..16 {
        ids.push(connect_ok(&mut surface, "alice", "host:22", k));
    }
    for i in 0..ids.len() {
        assert_eq!(ids[i].len(), 36);
        for j in (i + 1)..ids.len() {
            assert_ne!(ids[i], ids[j]);
        }
    }
}

#[test]
fn connect_success_wording() {
    let mut surface = McpSSHCommands::new();
    let r = surface.ssh_connect(
        &"host:22".to_string(),
        &"alice".to_string(),
        ConnectOutcome::Established(7),
    );
    let resp = r.ok().expect("connect should succeed");
    assert_eq!(resp.message, "Successfully connected to alice@host:22");
    assert!(resp.authenticated);
}

#[test]
fn failed_connect_registers_nothing() {
    let mut surface = McpSSHCommands::new();
    let r = surface.ssh_connect(
        &"host:22".to_string(),
        &"alice".to_string(),
        ConnectOutcome::Failed("Failed to connect: refused".to_string()),
    );
    match r {
        Ok(_) => panic!("connect must fail"),
        Err(e) => assert_eq!(e.error, "Failed to connect: refused"),
    }
    assert!(surface.ssh_list_sessions().is_empty());
}

#[test]
fn claims_on_distinct_sessions_are_independent() {
    let mut surface = McpSSHCommands::new();
    let id1 = connect_ok(&mut surface, "alice", "a:22", 1);
    let id2 = connect_ok(&mut surface, "bob", "b:22", 2);
    let h1 = match surface.claim_session(&id1) {
        SessionClaim::Started(h) => h,
        _ => panic!("first session should be claimable"),
    };
    // the first session is mid-operation; the second is not blocked by it
    let h2 = match surface.claim_session(&id2) {
        SessionClaim::Started(h) => h,
        _ => panic!("second session must not block on the first"),
    };
    assert_eq!(h1, 1);
    assert_eq!(h2, 2);
}

#[test]
fn claims_on_same_session_serialize() {
    let mut surface = McpSSHCommands::new();
    let id = connect_ok(&mut surface, "alice", "a:22", 1);
    match surface.claim_session(&id) {
        SessionClaim::Started(h) => assert_eq!(h, 1),
        _ => panic!("session should be claimable"),
    }
    match surface.claim_session(&id) {
        SessionClaim::Busy => {}
        _ => panic!("a second claim on the same session must wait"),
    }
}

#[test]
fn claim_unknown_session_not_found() {
    let mut surface = McpSSHCommands::new();
    let id = "11111111-2222-3333-4444-555555555555".to_string();
    match surface.claim_session(&id) {
        SessionClaim::NotFound(e) => assert_eq!(
            e.error,
            format!("No active SSH session with ID: {}", id)
        ),
        _ => panic!("unknown identifier must not be found"),
    }
}

#[test]
fn disconnect_confirms_and_later_operations_fail() {
    let mut surface = McpSSHCommands::new();
    let id = connect_ok(&mut surface, "alice", "a:22", 1);
    match surface.ssh_disconnect(&id) {
        DisconnectOutcome::Disconnected { confirmation, handle } => {
            assert_eq!(handle, 1);
            assert_eq!(
                confirmation,
                format!("Session {} disconnected successfully", id)
            );
        }
        _ => panic!("disconnect should succeed"),
    }
    match surface.claim_session(&id) {
        SessionClaim::NotFound(e) => assert_eq!(
            e.error,
            format!("No active SSH session with ID: {}", id)
        ),
        _ => panic!("a removed session must not be claimable"),
    }
    match surface.ssh_disconnect(&id) {
        DisconnectOutcome::NotFound(e) => assert_eq!(
            e.error,
            format!("No active SSH session with ID: {}", id)
        ),
        _ => panic!("a removed session must not disconnect twice"),
    }
}

#[test]
fn disconnect_waits_for_inflight_operation() {
    let mut surface = McpSSHCommands::new();
    let id = connect_ok(&mut surface, "alice", "a:22", 1);
    match surface.claim_session(&id) {
        SessionClaim::Started(_) => {}
        _ => panic!("session should be claimable"),
    }
    match surface.ssh_disconnect(&id) {
        DisconnectOutcome::Busy => {}
        _ => panic!("disconnect must wait for the in-flight operation"),
    }
}

#[test]
fn list_sessions_tracks_live_entries() {
    let mut surface = McpSSHCommands::new();
    assert!(surface.ssh_list_sessions().is_empty());
    let id1 = connect_ok(&mut surface, "alice", "a:22", 1);
    let id2 = connect_ok(&mut surface, "bob", "b:22", 2);
    assert_eq!(surface.ssh_list_sessions(), vec![id1.clone(), id2.clone()]);
    match surface.ssh_disconnect(&id1) {
        DisconnectOutcome::Disconnected { .. } => {}
        _ => panic!("disconnect should succeed"),
    }
    assert_eq!(surface.ssh_list_sessions(), vec![id2]);
}

#[test]
fn shutdown_closes_every_idle_session() {
    let mut surface = McpSSHCommands::new();
    connect_ok(&mut surface, "alice", "a:22", 1);
    connect_ok(&mut surface, "bob", "b:22", 2);
    match surface.shutdown() {
        DrainOutcome::Closed(handles) => assert_eq!(handles, vec![1, 2]),
        DrainOutcome::Busy => panic!("no operation is mid-flight"),
    }
    assert!(surface.ssh_list_sessions().is_empty());
}

#[test]
fn shutdown_waits_for_inflight_operations() {
    let mut surface = McpSSHCommands::new();
    let id = connect_ok(&mut surface, "alice", "a:22", 1);
    match surface.claim_session(&id) {
        SessionClaim::Started(_) => {}
        _ => panic!("session should be claimable"),
    }
    match surface.shutdown() {
        DrainOutcome::Busy => {}
        _ => panic!("shutdown must wait for the in-flight operation"),
    }
    assert_eq!(surface.ssh_list_sessions(), vec![id]);
}

#[test]
fn not_found_wording() {
    assert_eq!(
        not_found_message(&"s1".to_string()),
        "No active SSH session with ID: s1"
    );
}
