//! The connection establisher: transport connect, protocol handshake and a
//! single authentication attempt, modelled as a stage machine.
//!
//! The caller performs each stage's network work and reports the result;
//! the machine decides the next stage, chooses exactly one authentication
//! method by strict priority, and words each distinct failure. There are no
//! retries and no fallback chaining between methods.

use vstd::prelude::*;
use vstd::string::StringExecFns;

verus! {

/// The one authentication method attempted, chosen by strict priority:
/// a password if supplied, else key material from a path if supplied, else
/// the external authentication agent.
pub enum AuthMethod {
    Password(String),
    KeyFile(String),
    Agent,
}

/// The stages of establishing a session, in the order they run.
pub enum ConnectStage {
    OpenTransport,
    CreateSession,
    Handshake,
    Authenticate,
    VerifyAuthenticated,
}

/// Where the establishment stands.
pub enum ConnectState {
    Working(ConnectStage),
    Connected,
    Failed(String),
}

/// The stage that follows a completed stage, if any.
pub open spec fn next_stage(s: ConnectStage) -> Option<ConnectStage> {
    match s {
        ConnectStage::OpenTransport => Some(ConnectStage::CreateSession),
        ConnectStage::CreateSession => Some(ConnectStage::Handshake),
        ConnectStage::Handshake => Some(ConnectStage::Authenticate),
        ConnectStage::Authenticate => Some(ConnectStage::VerifyAuthenticated),
        ConnectStage::VerifyAuthenticated => None,
    }
}

/// The authentication method the priority rule picks.
pub open spec fn chosen_method(password: Option<String>, key_path: Option<String>) -> AuthMethod {
    match password {
        Some(p) => AuthMethod::Password(p),
        None => match key_path {
            Some(k) => AuthMethod::KeyFile(k),
            None => AuthMethod::Agent,
        },
    }
}

/// The failure wording of each stage. Authentication failures name the
/// attempted method; a session that finished its handshake but does not
/// report itself authenticated fails with a fixed wording.
pub open spec fn connect_failure_text(
    stage: ConnectStage,
    method: AuthMethod,
    detail: Seq<char>,
) -> Seq<char> {
    match stage {
        ConnectStage::OpenTransport => "Failed to connect: "@ + detail,
        ConnectStage::CreateSession => "Failed to create SSH session: "@ + detail,
        ConnectStage::Handshake => "SSH handshake failed: "@ + detail,
        ConnectStage::Authenticate => match method {
            AuthMethod::Password(_) => "Password authentication failed: "@ + detail,
            AuthMethod::KeyFile(_) => "Key authentication failed: "@ + detail,
            AuthMethod::Agent => "Agent authentication failed: "@ + detail,
        },
        ConnectStage::VerifyAuthenticated => "Authentication failed"@,
    }
}

/// One establishment in progress: the current state and the method the
/// priority rule chose at the start.
pub struct ConnectFlow {
    pub state: ConnectState,
    pub method: AuthMethod,
}

impl ConnectFlow {
    /// Starts an establishment. The method is fixed here, before any
    /// network work, so no failure can switch methods midway.
    pub fn new(password: Option<String>, key_path: Option<String>) -> (f: ConnectFlow)
        ensures
            f.state == ConnectState::Working(ConnectStage::OpenTransport),
            f.method == chosen_method(password, key_path),
    {
        let method = match password {
            Some(p) => AuthMethod::Password(p),
            None => match key_path {
                Some(k) => AuthMethod::KeyFile(k),
                None => AuthMethod::Agent,
            },
        };
        ConnectFlow { state: ConnectState::Working(ConnectStage::OpenTransport), method }
    }

    /// The current stage succeeded: move to the next, or to `Connected`
    /// after the final verification.
    pub fn step_ok(&mut self)
        requires
            old(self).state matches ConnectState::Working(_),
        ensures
            final(self).method == old(self).method,
            (match old(self).state {
                ConnectState::Working(s) => match next_stage(s) {
                    Some(n) => final(self).state == ConnectState::Working(n),
                    None => final(self).state == ConnectState::Connected,
                },
                _ => false,
            }),
    {
        let next = match &self.state {
            ConnectState::Working(ConnectStage::OpenTransport) => ConnectState::Working(
                ConnectStage::CreateSession,
            ),
            ConnectState::Working(ConnectStage::CreateSession) => ConnectState::Working(
                ConnectStage::Handshake,
            ),
            ConnectState::Working(ConnectStage::Handshake) => ConnectState::Working(
                ConnectStage::Authenticate,
            ),
            ConnectState::Working(ConnectStage::Authenticate) => ConnectState::Working(
                ConnectStage::VerifyAuthenticated,
            ),
            ConnectState::Working(ConnectStage::VerifyAuthenticated) => ConnectState::Connected,
            _ => {
                proof {
                    assert(false);
                }
                ConnectState::Connected
            },
        };
        self.state = next;
    }

    /// The current stage failed: the whole establishment fails, worded for
    /// the stage and, during authentication, for the attempted method.
    /// Nothing is retried.
    pub fn step_failed(&mut self, detail: String)
        requires
            old(self).state matches ConnectState::Working(_),
        ensures
            final(self).method == old(self).method,
            (match old(self).state {
                ConnectState::Working(s) => final(self).state matches ConnectState::Failed(m)
                    && m@ == connect_failure_text(s, old(self).method, detail@),
                _ => false,
            }),
    {
        let msg = match &self.state {
            ConnectState::Working(ConnectStage::OpenTransport) => {
                let mut m = String::new();
                m.append("Failed to connect: ");
                m.append(detail.as_str());
                proof {
                    assert(m@ =~= "Failed to connect: "@ + detail@);
                }
                m
            },
            ConnectState::Working(ConnectStage::CreateSession) => {
                let mut m = String::new();
                m.append("Failed to create SSH session: ");
                m.append(detail.as_str());
                proof {
                    assert(m@ =~= "Failed to create SSH session: "@ + detail@);
                }
                m
            },
            ConnectState::Working(ConnectStage::Handshake) => {
                let mut m = String::new();
                m.append("SSH handshake failed: ");
                m.append(detail.as_str());
                proof {
                    assert(m@ =~= "SSH handshake failed: "@ + detail@);
                }
                m
            },
            ConnectState::Working(ConnectStage::Authenticate) => {
                let mut m = String::new();
                match &self.method {
                    AuthMethod::Password(_) => m.append("Password authentication failed: "),
                    AuthMethod::KeyFile(_) => m.append("Key authentication failed: "),
                    AuthMethod::Agent => m.append("Agent authentication failed: "),
                }
                m.append(detail.as_str());
                proof {
                    assert(m@ =~= connect_failure_text(
                        ConnectStage::Authenticate,
                        self.method,
                        detail@,
                    ));
                }
                m
            },
            ConnectState::Working(ConnectStage::VerifyAuthenticated) => {
                let mut m = String::new();
                m.append("Authentication failed");
                proof {
                    assert(m@ =~= "Authentication failed"@);
                }
                m
            },
            _ => {
                proof {
                    assert(false);
                }
                String::new()
            },
        };
        self.state = ConnectState::Failed(msg);
    }
}

} // verus!
