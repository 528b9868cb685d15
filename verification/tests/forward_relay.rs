//! The port-forward bridge: accept-loop policy, bind outcomes, and the
//! bidirectional byte relay.

use ssh_mcp::forward::{
    bind_failure_message, listener_address, remote_endpoint, AcceptAction, AcceptEvent,
    ForwardRule, RelayAction, RelayConn, RelayEvent,
};
use ssh_mcp::ssh_commands::{BindOutcome, ConnectOutcome, McpSSHCommands, SessionClaim};

fn action_eq(a: &AcceptAction, b: &AcceptAction) -> bool {
    matches!(
        (a, b),
        (AcceptAction::ResolvePeerAddress, AcceptAction::ResolvePeerAddress)
            | (AcceptAction::StartRelay, AcceptAction::StartRelay)
            | (
                AcceptAction::DropConnectionAndContinue,
                AcceptAction::DropConnectionAndContinue
            )
            | (AcceptAction::StopForwarding, AcceptAction::StopForwarding)
    )
}

fn rule() -> ForwardRule {
    ForwardRule {
        remote_host: "db.internal".to_string(),
        remote_port: 5432,
    }
}

#[test]
fn accept_policy_isolates_connection_failures() {
    let r = rule();
    assert!(action_eq(
        &r.accept_step(&AcceptEvent::Accepted),
        &AcceptAction::ResolvePeerAddress
    ));
    assert!(action_eq(
        &r.accept_step(&AcceptEvent::PeerAddressFailed),
        &AcceptAction::DropConnectionAndContinue
    ));
    assert!(action_eq(
        &r.accept_step(&AcceptEvent::ChannelOpened),
        &AcceptAction::StartRelay
    ));
    assert!(action_eq(
        &r.accept_step(&AcceptEvent::ChannelOpenFailed("no channel".to_string())),
        &AcceptAction::DropConnectionAndContinue
    ));
    assert!(action_eq(
        &r.accept_step(&AcceptEvent::AcceptFailed("listener gone".to_string())),
        &AcceptAction::StopForwarding
    ));
}

#[test]
fn channel_requests_carry_the_rules_own_target() {
    let r = rule();
    match r.accept_step(&AcceptEvent::PeerAddressResolved) {
        AcceptAction::OpenDirectChannel { host, port } => {
            assert_eq!(host, "db.internal");
            assert_eq!(port, 5432);
        }
        _ => panic!("a resolved connection must ask for a direct channel"),
    }
}

#[test]
fn address_renderings() {
    assert_eq!(listener_address(8080), "127.0.0.1:8080");
    assert_eq!(listener_address(0), "127.0.0.1:0");
    assert_eq!(listener_address(65535), "127.0.0.1:65535");
    assert_eq!(
        remote_endpoint(&"db.internal".to_string(), 5432),
        "db.internal:5432"
    );
}

#[test]
fn bind_conflict_wording() {
    assert_eq!(
        bind_failure_message(8080, &"Address already in use".to_string()),
        "Failed to bind to local port 8080: Address already in use"
    );
}

fn claimed_session(surface: &mut McpSSHCommands) -> String {
    let id = surface
        .ssh_connect(
            &"host:22".to_string(),
            &"alice".to_string(),
            ConnectOutcome::Established(1),
        )
        .ok()
        .expect("connect should succeed")
        .session_id;
    match surface.claim_session(&id) {
        SessionClaim::Started(_) => {}
        _ => panic!("session should be claimable"),
    }
    id
}

#[test]
fn forward_reports_the_bound_rule() {
    let mut surface = McpSSHCommands::new();
    let id = claimed_session(&mut surface);
    let resp = surface
        .ssh_forward_finish(
            &id,
            8080,
            &"db.internal".to_string(),
            5432,
            BindOutcome::Bound("127.0.0.1:8080".to_string()),
        )
        .ok()
        .expect("forward should succeed");
    assert_eq!(resp.local_address, "127.0.0.1:8080");
    assert_eq!(resp.remote_address, "db.internal:5432");
    assert!(resp.active);
    // the started rule is registered in the forwarding table
    assert_eq!(surface.list_forward_rules(), vec![1]);
}

#[test]
fn started_rules_can_be_stopped_explicitly() {
    let mut surface = McpSSHCommands::new();
    let id = claimed_session(&mut surface);
    surface
        .ssh_forward_finish(
            &id,
            8080,
            &"db.internal".to_string(),
            5432,
            BindOutcome::Bound("127.0.0.1:8080".to_string()),
        )
        .ok()
        .expect("forward should succeed");
    match surface.claim_session(&id) {
        SessionClaim::Started(_) => {}
        _ => panic!("session should be claimable again"),
    }
    surface
        .ssh_forward_finish(
            &id,
            9090,
            &"cache.internal".to_string(),
            6379,
            BindOutcome::Bound("127.0.0.1:9090".to_string()),
        )
        .ok()
        .expect("forward should succeed");
    assert_eq!(surface.list_forward_rules(), vec![1, 2]);

    let stopped = surface.stop_forward(1).expect("rule 1 is registered");
    assert_eq!(stopped.rule_id, 1);
    assert_eq!(stopped.session_id, id);
    assert_eq!(stopped.remote_host, "db.internal");
    assert_eq!(stopped.remote_port, 5432);
    assert_eq!(stopped.local_address, "127.0.0.1:8080");
    // the other rule stays; the stopped identifier is gone
    assert_eq!(surface.list_forward_rules(), vec![2]);
    assert!(surface.stop_forward(1).is_none());
    assert!(surface.stop_forward(7).is_none());
}

#[test]
fn forward_bind_conflict_fails_and_releases_the_session() {
    let mut surface = McpSSHCommands::new();
    let id = claimed_session(&mut surface);
    match surface.ssh_forward_finish(
        &id,
        8080,
        &"db.internal".to_string(),
        5432,
        BindOutcome::BindFailed("Address already in use".to_string()),
    ) {
        Ok(_) => panic!("a bind conflict must fail"),
        Err(e) => assert_eq!(
            e.error,
            "Failed to bind to local port 8080: Address already in use"
        ),
    }
    // the rule started nothing and the session is free again
    assert!(surface.list_forward_rules().is_empty());
    match surface.claim_session(&id) {
        SessionClaim::Started(_) => {}
        _ => panic!("session must be claimable after a failed forward"),
    }
}

#[test]
fn forward_local_address_failure_wording() {
    let mut surface = McpSSHCommands::new();
    let id = claimed_session(&mut surface);
    match surface.ssh_forward_finish(
        &id,
        8080,
        &"db.internal".to_string(),
        5432,
        BindOutcome::LocalAddressFailed("socket closed".to_string()),
    ) {
        Ok(_) => panic!("the rule must fail"),
        Err(e) => assert_eq!(e.error, "Failed to get local address: socket closed"),
    }
}

#[test]
fn relay_carries_bytes_verbatim_in_order_both_ways() {
    let mut conn = RelayConn::new();
    match conn.on_local_read(RelayEvent::Data(vec![1, 2, 3])) {
        RelayAction::Forward(w) => assert_eq!(w, vec![1, 2, 3]),
        _ => panic!("data must be forwarded"),
    }
    match conn.on_remote_read(RelayEvent::Data(vec![9, 8])) {
        RelayAction::Forward(w) => assert_eq!(w, vec![9, 8]),
        _ => panic!("data must be forwarded"),
    }
    match conn.on_local_read(RelayEvent::Data(vec![4])) {
        RelayAction::Forward(w) => assert_eq!(w, vec![4]),
        _ => panic!("data must be forwarded"),
    }
    // each direction accumulates its own bytes, in arrival order
    assert_eq!(conn.to_remote, vec![1, 2, 3, 4]);
    assert_eq!(conn.to_local, vec![9, 8]);
    assert!(conn.open);
}

#[test]
fn end_of_stream_closes_both_ends() {
    let mut conn = RelayConn::new();
    match conn.on_local_read(RelayEvent::Data(vec![5])) {
        RelayAction::Forward(_) => {}
        _ => panic!("data must be forwarded"),
    }
    match conn.on_local_read(RelayEvent::EndOfStream) {
        RelayAction::CloseBoth => {}
        _ => panic!("end of stream must close the pair"),
    }
    assert!(!conn.open);
    assert_eq!(conn.to_remote, vec![5]);
    assert_eq!(conn.to_local, Vec::<u8>::new());
}

#[test]
fn transport_error_closes_both_ends() {
    let mut conn = RelayConn::new();
    match conn.on_remote_read(RelayEvent::TransportError) {
        RelayAction::CloseBoth => {}
        _ => panic!("a transport error must close the pair"),
    }
    assert!(!conn.open);
}
