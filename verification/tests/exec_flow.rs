//! The command execution exchange: stage order, collected output, and the
//! wording of each distinct failure.

use ssh_mcp::execute::{ExecFlow, ExecState};
use ssh_mcp::ssh_commands::{ConnectOutcome, McpSSHCommands, SessionClaim};

fn finished_flow(command: &str, stdout: &str, stderr: &str, exit_code: i32) -> ExecFlow {
    let mut flow = ExecFlow::new(command.to_string());
    flow.step_ok(); // channel opened
    flow.step_ok(); // exec requested
    flow.stdout_read(stdout.to_string());
    flow.stderr_read(stderr.to_string());
    flow.exit_status(exit_code);
    flow.step_ok(); // channel closed
    flow
}

#[test]
fn echo_round_trip() {
    let mut surface = McpSSHCommands::new();
    let id = surface
        .ssh_connect(
            &"host:22".to_string(),
            &"alice".to_string(),
            ConnectOutcome::Established(1),
        )
        .ok()
        .expect("connect should succeed")
        .session_id;
    match surface.claim_session(&id) {
        SessionClaim::Started(h) => assert_eq!(h, 1),
        _ => panic!("session should be claimable"),
    }
    let flow = finished_flow("echo hello", "hello\n", "", 0);
    assert_eq!(flow.command, "echo hello");
    let resp = surface
        .ssh_execute_finish(&id, flow)
        .ok()
        .expect("execution should succeed");
    assert_eq!(resp.stdout, "hello\n");
    assert_eq!(resp.stderr, "");
    assert_eq!(resp.exit_code, 0);
    // the session stays registered and usable after the command
    match surface.claim_session(&id) {
        SessionClaim::Started(_) => {}
        _ => panic!("session must be claimable again after the command"),
    }
}

#[test]
fn collects_both_streams_and_status() {
    let flow = finished_flow("make all", "out text", "err text", 3);
    // the command is fixed at construction and carried unchanged
    assert_eq!(flow.command, "make all");
    match flow.state {
        ExecState::Finished => {}
        _ => panic!("flow should have finished"),
    }
    assert_eq!(flow.stdout.as_deref(), Some("out text"));
    assert_eq!(flow.stderr.as_deref(), Some("err text"));
    assert_eq!(flow.exit_code, Some(3));
}

fn failure_message(fail_after: usize, detail: &str) -> String {
    let mut flow = ExecFlow::new("true".to_string());
    let mut steps = 0;
    if steps == fail_after {
        flow.step_failed(detail.to_string());
    } else {
        flow.step_ok();
        steps += 1;
        if steps == fail_after {
            flow.step_failed(detail.to_string());
        } else {
            flow.step_ok();
            steps += 1;
            if steps == fail_after {
                flow.step_failed(detail.to_string());
            } else {
                flow.stdout_read("partial".to_string());
                steps += 1;
                if steps == fail_after {
                    flow.step_failed(detail.to_string());
                } else {
                    flow.stderr_read("".to_string());
                    steps += 1;
                    if steps == fail_after {
                        flow.step_failed(detail.to_string());
                    } else {
                        flow.exit_status(0);
                        flow.step_failed(detail.to_string());
                    }
                }
            }
        }
    }
    match flow.state {
        ExecState::Failed(m) => m,
        _ => panic!("flow should have failed"),
    }
}

#[test]
fn each_stage_fails_distinctly() {
    assert_eq!(failure_message(0, "a"), "Failed to open channel: a");
    assert_eq!(failure_message(1, "b"), "Failed to execute command: b");
    assert_eq!(failure_message(2, "c"), "Failed to read stdout: c");
    assert_eq!(failure_message(3, "d"), "Failed to read stderr: d");
    assert_eq!(failure_message(4, "e"), "Failed to get exit status: e");
    assert_eq!(failure_message(5, "f"), "Failed to close channel: f");
}

#[test]
fn failed_execution_reports_the_wording_and_keeps_the_session() {
    let mut surface = McpSSHCommands::new();
    let id = surface
        .ssh_connect(
            &"host:22".to_string(),
            &"alice".to_string(),
            ConnectOutcome::Established(1),
        )
        .ok()
        .expect("connect should succeed")
        .session_id;
    match surface.claim_session(&id) {
        SessionClaim::Started(_) => {}
        _ => panic!("session should be claimable"),
    }
    let mut flow = ExecFlow::new("ls -la".to_string());
    flow.step_failed("no more channels".to_string());
    match surface.ssh_execute_finish(&id, flow) {
        Ok(_) => panic!("execution must fail"),
        Err(e) => assert_eq!(e.error, "Failed to open channel: no more channels"),
    }
    // a mid-command failure does not remove the session
    assert_eq!(surface.ssh_list_sessions(), vec![id.clone()]);
    match surface.claim_session(&id) {
        SessionClaim::Started(_) => {}
        _ => panic!("session must be claimable after a failed command"),
    }
}
