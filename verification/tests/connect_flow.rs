//! The connection establisher: method priority, stage order, and the
//! wording of each distinct failure.

use ssh_mcp::connect::{AuthMethod, ConnectFlow, ConnectStage, ConnectState};

#[test]
fn password_outranks_key_and_agent() {
    let f = ConnectFlow::new(Some("secret".to_string()), Some("/k".to_string()));
    match f.method {
        AuthMethod::Password(p) => assert_eq!(p, "secret"),
        _ => panic!("a supplied password must be the method"),
    }
}

#[test]
fn key_outranks_agent() {
    let f = ConnectFlow::new(None, Some("/home/alice/.ssh/id_ed25519".to_string()));
    match f.method {
        AuthMethod::KeyFile(k) => assert_eq!(k, "/home/alice/.ssh/id_ed25519"),
        _ => panic!("a supplied key path must be the method"),
    }
}

#[test]
fn agent_is_the_fallback() {
    let f = ConnectFlow::new(None, None);
    match f.method {
        AuthMethod::Agent => {}
        _ => panic!("with nothing supplied the agent must be the method"),
    }
}

#[test]
fn stages_run_in_order_to_connected() {
    let mut f = ConnectFlow::new(Some("pw".to_string()), None);
    let expected = [
        ConnectStage::OpenTransport,
        ConnectStage::CreateSession,
        ConnectStage::Handshake,
        ConnectStage::Authenticate,
        ConnectStage::VerifyAuthenticated,
    ];
    for want in expected {
        match &f.state {
            ConnectState::Working(s) => assert!(stage_eq(s, &want)),
            _ => panic!("establishment ended early"),
        }
        f.step_ok();
    }
    match f.state {
        ConnectState::Connected => {}
        _ => panic!("all stages passed; the flow must be connected"),
    }
}

fn stage_eq(a: &ConnectStage, b: &ConnectStage) -> bool {
    matches!(
        (a, b),
        (ConnectStage::OpenTransport, ConnectStage::OpenTransport)
            | (ConnectStage::CreateSession, ConnectStage::CreateSession)
            | (ConnectStage::Handshake, ConnectStage::Handshake)
            | (ConnectStage::Authenticate, ConnectStage::Authenticate)
            | (ConnectStage::VerifyAuthenticated, ConnectStage::VerifyAuthenticated)
    )
}

fn failure_after(ok_steps: usize, password: Option<&str>, key: Option<&str>, detail: &str) -> String {
    let mut f = ConnectFlow::new(
        password.map(|s| s.to_string()),
        key.map(|s| s.to_string()),
    );
    for _ in 0..ok_steps {
        f.step_ok();
    }
    f.step_failed(detail.to_string());
    match f.state {
        ConnectState::Failed(m) => m,
        _ => panic!("flow should have failed"),
    }
}

#[test]
fn each_connect_stage_fails_distinctly() {
    assert_eq!(
        failure_after(0, Some("pw"), None, "refused"),
        "Failed to connect: refused"
    );
    assert_eq!(
        failure_after(1, Some("pw"), None, "oom"),
        "Failed to create SSH session: oom"
    );
    assert_eq!(
        failure_after(2, Some("pw"), None, "bad banner"),
        "SSH handshake failed: bad banner"
    );
    assert_eq!(
        failure_after(4, Some("pw"), None, "ignored"),
        "Authentication failed"
    );
}

#[test]
fn authentication_failure_names_the_method() {
    assert_eq!(
        failure_after(3, Some("pw"), None, "denied"),
        "Password authentication failed: denied"
    );
    assert_eq!(
        failure_after(3, None, Some("/k"), "unreadable"),
        "Key authentication failed: unreadable"
    );
    assert_eq!(
        failure_after(3, None, None, "no agent"),
        "Agent authentication failed: no agent"
    );
}
