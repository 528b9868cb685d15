//! The five session operations: connect, execute, forward, disconnect and
//! list, over the session registry.
//!
//! Each operation that needs the network is split at the protocol
//! boundary: the caller performs the transport work and reports its
//! outcome; these functions make every decision — registration, lookup,
//! serialization per session, response and error wording — under contract.

use vstd::prelude::*;
use vstd::string::StringExecFns;
use crate::execute::ExecFlow;
use crate::execute::ExecState;
use crate::forward::ForwardRuleEntry;
use crate::forward::ForwardTable;
use crate::registry::ClaimOutcome;
use crate::registry::RemoveOutcome;
use crate::registry::SessionRegistry;

verus! {

/// A successful connect: the issued identifier, a confirmation, and the
/// authenticated flag, which is always set for a stored session.
pub struct SshConnectResponse {
    pub session_id: String,
    pub message: String,
    pub authenticated: bool,
}

/// A completed command: both streams read to completion and the numeric
/// exit status.
pub struct SshCommandResponse {
    pub stdout: String,
    pub stderr: String,
    pub exit_code: i32,
}

/// An established forwarding rule: where it listens, where it tunnels to.
pub struct PortForwardingResponse {
    pub local_address: String,
    pub remote_address: String,
    pub active: bool,
}

/// A structured failure payload; failures are data, never faults.
pub struct ErrorResponse {
    pub error: String,
}

/// The wording when no live session carries an identifier.
pub open spec fn not_found_text(id: Seq<char>) -> Seq<char> {
    "No active SSH session with ID: "@ + id
}

/// Words the unknown-identifier failure.
pub fn not_found_message(id: &String) -> (r: String)
    ensures
        r@ == not_found_text(id@),
{
    let mut r = String::new();
    r.append("No active SSH session with ID: ");
    r.append(id.as_str());
    proof {
        assert(r@ =~= not_found_text(id@));
    }
    r
}

/// The confirmation wording of a successful connect.
pub open spec fn connected_text(username: Seq<char>, address: Seq<char>) -> Seq<char> {
    "Successfully connected to "@ + username + "@"@ + address
}

/// Words the connect confirmation.
pub fn connected_message(username: &String, address: &String) -> (r: String)
    ensures
        r@ == connected_text(username@, address@),
{
    let mut r = String::new();
    r.append("Successfully connected to ");
    r.append(username.as_str());
    r.append("@");
    r.append(address.as_str());
    proof {
        assert(r@ =~= connected_text(username@, address@));
    }
    r
}

/// The confirmation wording of a disconnect.
pub open spec fn disconnected_text(id: Seq<char>) -> Seq<char> {
    "Session "@ + id + " disconnected successfully"@
}

/// Words the disconnect confirmation.
pub fn disconnected_message(id: &String) -> (r: String)
    ensures
        r@ == disconnected_text(id@),
{
    let mut r = String::new();
    r.append("Session ");
    r.append(id.as_str());
    r.append(" disconnected successfully");
    proof {
        assert(r@ =~= disconnected_text(id@));
    }
    r
}

/// How an establishment attempt ended: an authenticated transport under an
/// opaque handle, or a worded failure.
pub enum ConnectOutcome {
    Established(u64),
    Failed(String),
}

/// A claim of one session's exclusive lock for an operation.
pub enum SessionClaim {
    /// No live session carries the identifier; the payload words it.
    NotFound(ErrorResponse),
    /// Another operation is mid-flight on this session; wait and retry.
    Busy,
    /// The lock is held; the payload is the session's handle.
    Started(u64),
}

/// How binding a forwarding rule's local listener ended.
pub enum BindOutcome {
    /// The listener is bound; the payload renders its local address.
    Bound(String),
    /// The bind failed, e.g. the port is already in use; the payload is
    /// the wording.
    BindFailed(String),
    /// The bound listener's address could not be read; the payload is the
    /// wording.
    LocalAddressFailed(String),
}

/// How a disconnect ended.
pub enum DisconnectOutcome {
    /// The session is detached; its identifier will never be reused.
    Disconnected { confirmation: String, handle: u64 },
    /// An operation is still mid-flight on the session; wait and retry.
    Busy,
    /// No live session carries the identifier.
    NotFound(ErrorResponse),
}

/// The session operations surface: an explicitly constructed registry and
/// forwarding table, owned by the dispatch layer that serves the
/// operations.
pub struct McpSSHCommands {
    registry: SessionRegistry,
    forwards: ForwardTable,
}

impl McpSSHCommands {
    /// The registry behind the surface.
    pub closed spec fn registry(self) -> SessionRegistry {
        self.registry
    }

    /// The forwarding table behind the surface.
    pub closed spec fn forwards(self) -> ForwardTable {
        self.forwards
    }

    /// The surface invariant.
    pub open spec fn wf(self) -> bool {
        self.registry().wf() && self.forwards().wf()
    }

    /// A surface with no sessions and no forwarding rules.
    pub fn new() -> (r: McpSSHCommands)
        ensures
            r.wf(),
            r.registry().entries_seq() == Seq::<crate::registry::SessionEntry>::empty(),
            r.registry().issued_seq() == Seq::<Seq<char>>::empty(),
            r.forwards().rules_seq() == Seq::<ForwardRuleEntry>::empty(),
    {
        McpSSHCommands { registry: SessionRegistry::new(), forwards: ForwardTable::new() }
    }

    /// Registers an established, authenticated session under a freshly
    /// issued identifier, or reports the establishment's failure. A failed
    /// connect never leaves a partial registry entry.
    pub fn ssh_connect(
        &mut self,
        address: &String,
        username: &String,
        outcome: ConnectOutcome,
    ) -> (r: Result<SshConnectResponse, ErrorResponse>)
        requires
            old(self).wf(),
        ensures
            final(self).wf(),
            (match outcome {
                ConnectOutcome::Established(h) => r matches Ok(resp)
                    && SessionRegistry::inserted(
                    old(self).registry(),
                    final(self).registry(),
                    resp.session_id@,
                    h,
                ) && final(self).forwards() == old(self).forwards() && resp.message@
                    == connected_text(username@, address@) && resp.authenticated,
                ConnectOutcome::Failed(e) => r matches Err(er) && er.error@ == e@ && *final(self)
                    == *old(self),
            }),
    {
        match outcome {
            ConnectOutcome::Established(h) => {
                let session_id = self.registry.insert(h);
                let message = connected_message(username, address);
                Ok(SshConnectResponse { session_id, message, authenticated: true })
            },
            ConnectOutcome::Failed(e) => Err(ErrorResponse { error: e }),
        }
    }

    /// Claims the exclusive lock of session `session_id` for one
    /// operation. An unknown identifier fails with the not-found wording
    /// and touches nothing, so no network work follows it; a busy session
    /// makes the caller wait, so commands on one session serialize.
    pub fn claim_session(&mut self, session_id: &String) -> (r: SessionClaim)
        requires
            old(self).wf(),
        ensures
            final(self).wf(),
            (match r {
                SessionClaim::NotFound(er) => !old(self).registry().contains_id(session_id@)
                    && er.error@ == not_found_text(session_id@) && *final(self) == *old(self),
                SessionClaim::Busy => old(self).registry().contains_id(session_id@) && !old(
                    self,
                ).registry().claimable(session_id@) && *final(self) == *old(self),
                SessionClaim::Started(h) => SessionRegistry::acquired(
                    old(self).registry(),
                    final(self).registry(),
                    session_id@,
                    h,
                ) && final(self).forwards() == old(self).forwards(),
            }),
    {
        match self.registry.try_acquire(session_id) {
            ClaimOutcome::NotFound => SessionClaim::NotFound(
                ErrorResponse { error: not_found_message(session_id) },
            ),
            ClaimOutcome::Busy => SessionClaim::Busy,
            ClaimOutcome::Acquired(h) => SessionClaim::Started(h),
        }
    }

    /// Finishes an execute: releases the session's lock and turns the
    /// finished exchange into its response — both streams and the exit
    /// status on success, the stage's wording on failure. A failure leaves
    /// the session registered and usable.
    pub fn ssh_execute_finish(&mut self, session_id: &String, flow: ExecFlow) -> (r: Result<
        SshCommandResponse,
        ErrorResponse,
    >)
        requires
            old(self).wf(),
            old(self).registry().contains_id(session_id@),
            !old(self).registry().claimable(session_id@),
            flow.wf(),
            flow.state matches ExecState::Finished || flow.state matches ExecState::Failed(_),
        ensures
            final(self).wf(),
            SessionRegistry::released(
                old(self).registry(),
                final(self).registry(),
                session_id@,
            ),
            final(self).forwards() == old(self).forwards(),
            (match flow.state {
                ExecState::Finished => r matches Ok(resp) && Some(resp.stdout) == flow.stdout
                    && Some(resp.stderr) == flow.stderr && Some(resp.exit_code) == flow.exit_code,
                ExecState::Failed(m) => r matches Err(er) && er.error@ == m@,
                _ => false,
            }),
    {
        self.registry.release(session_id);
        match flow.state {
            ExecState::Finished => {
                let stdout = match flow.stdout {
                    Some(s) => s,
                    None => {
                        proof {
                            assert(false);
                        }
                        String::new()
                    },
                };
                let stderr = match flow.stderr {
                    Some(s) => s,
                    None => {
                        proof {
                            assert(false);
                        }
                        String::new()
                    },
                };
                let exit_code = match flow.exit_code {
                    Some(c) => c,
                    None => {
                        proof {
                            assert(false);
                        }
                        0
                    },
                };
                Ok(SshCommandResponse { stdout, stderr, exit_code })
            },
            ExecState::Failed(m) => Err(ErrorResponse { error: m }),
            ExecState::Working(_) => {
                proof {
                    assert(false);
                }
                Err(ErrorResponse { error: String::new() })
            },
        }
    }

    /// Finishes a forward: releases the session's lock and turns the bind
    /// outcome into its response. A bind conflict is reported synchronously
    /// and starts nothing; on success the rule is active, listening on the
    /// reported local address and tunnelling to `remote_address:remote_port`,
    /// and it is registered in the forwarding table under a fresh rule
    /// identifier, so it can be stopped and accounted for.
    pub fn ssh_forward_finish(
        &mut self,
        session_id: &String,
        local_port: u16,
        remote_address: &String,
        remote_port: u16,
        outcome: BindOutcome,
    ) -> (r: Result<PortForwardingResponse, ErrorResponse>)
        requires
            old(self).wf(),
            old(self).registry().contains_id(session_id@),
            !old(self).registry().claimable(session_id@),
        ensures
            final(self).wf(),
            SessionRegistry::released(
                old(self).registry(),
                final(self).registry(),
                session_id@,
            ),
            (match outcome {
                BindOutcome::Bound(a) => r matches Ok(resp) && resp.local_address@ == a@
                    && resp.remote_address@ == crate::forward::remote_endpoint_text(
                    remote_address@,
                    remote_port as nat,
                ) && resp.active && (if old(self).forwards().can_register() {
                    ForwardTable::registered(
                        old(self).forwards(),
                        final(self).forwards(),
                        old(self).forwards().next_rule_id(),
                        session_id@,
                        remote_address@,
                        remote_port,
                        a@,
                    )
                } else {
                    final(self).forwards() == old(self).forwards()
                }),
                BindOutcome::BindFailed(d) => r matches Err(er) && er.error@
                    == crate::forward::bind_failure_text(local_port as nat, d@)
                    && final(self).forwards() == old(self).forwards(),
                BindOutcome::LocalAddressFailed(d) => r matches Err(er) && er.error@
                    == "Failed to get local address: "@ + d@ && final(self).forwards() == old(
                    self,
                ).forwards(),
            }),
    {
        self.registry.release(session_id);
        match outcome {
            BindOutcome::Bound(a) => {
                if self.forwards.has_capacity() {
                    let _rid = self.forwards.register(
                        session_id,
                        remote_address,
                        remote_port,
                        &a,
                    );
                }
                let remote = crate::forward::remote_endpoint(remote_address, remote_port);
                Ok(PortForwardingResponse {
                    local_address: a,
                    remote_address: remote,
                    active: true,
                })
            },
            BindOutcome::BindFailed(d) => {
                let msg = crate::forward::bind_failure_message(local_port, &d);
                Err(ErrorResponse { error: msg })
            },
            BindOutcome::LocalAddressFailed(d) => {
                let mut msg = String::new();
                msg.append("Failed to get local address: ");
                msg.append(d.as_str());
                proof {
                    assert(msg@ =~= "Failed to get local address: "@ + d@);
                }
                Err(ErrorResponse { error: msg })
            },
        }
    }

    /// Disconnects a session: waits out any mid-flight operation on it,
    /// detaches it, and confirms. The identifier is never reused, and any
    /// later operation under it fails with the not-found wording.
    pub fn ssh_disconnect(&mut self, session_id: &String) -> (r: DisconnectOutcome)
        requires
            old(self).wf(),
        ensures
            final(self).wf(),
            (match r {
                DisconnectOutcome::Disconnected { confirmation, handle } =>
                    SessionRegistry::removed(
                    old(self).registry(),
                    final(self).registry(),
                    session_id@,
                    handle,
                ) && final(self).forwards() == old(self).forwards() && confirmation@
                    == disconnected_text(session_id@),
                DisconnectOutcome::Busy => old(self).registry().contains_id(session_id@) && !old(
                    self,
                ).registry().claimable(session_id@) && *final(self) == *old(self),
                DisconnectOutcome::NotFound(er) => !old(self).registry().contains_id(session_id@)
                    && er.error@ == not_found_text(session_id@) && *final(self) == *old(self),
            }),
    {
        match self.registry.remove(session_id) {
            RemoveOutcome::NotFound => DisconnectOutcome::NotFound(
                ErrorResponse { error: not_found_message(session_id) },
            ),
            RemoveOutcome::Busy => DisconnectOutcome::Busy,
            RemoveOutcome::Removed(handle) => {
                let confirmation = disconnected_message(session_id);
                DisconnectOutcome::Disconnected { confirmation, handle }
            },
        }
    }

    /// Stops a forwarding rule explicitly: the rule is detached from the
    /// table and handed back so the caller can cancel its listener and
    /// close its connections. Afterwards no rule carries the identifier;
    /// every other rule, and the session registry, stay as they were.
    pub fn stop_forward(&mut self, rule_id: u64) -> (r: Option<ForwardRuleEntry>)
        requires
            old(self).wf(),
        ensures
            final(self).wf(),
            final(self).registry() == old(self).registry(),
            final(self).forwards().next_rule_id() == old(self).forwards().next_rule_id(),
            !final(self).forwards().contains_rule(rule_id),
            (match r {
                Some(e) => exists|i: int|
                    {
                        &&& #[trigger] old(self).forwards().has_rule_at(i, rule_id)
                        &&& e == old(self).forwards().rules_seq()[i]
                        &&& final(self).forwards().rules_seq() == old(
                            self,
                        ).forwards().rules_seq().remove(i)
                    },
                None => !old(self).forwards().contains_rule(rule_id) && *final(self) == *old(
                    self,
                ),
            }),
    {
        self.forwards.stop(rule_id)
    }

    /// The identifiers of all registered forwarding rules, in
    /// registration order.
    pub fn list_forward_rules(&self) -> (ids: Vec<u64>)
        ensures
            ids@.len() == self.forwards().rules_seq().len(),
            forall|i: int|
                0 <= i < ids@.len() ==> ids@[i] == self.forwards().rules_seq()[i].rule_id,
    {
        self.forwards.list_rule_ids()
    }

    /// The identifier the next started rule will be registered under.
    pub fn next_forward_rule_id(&self) -> (rid: u64)
        ensures
            rid == self.forwards().next_rule_id(),
    {
        self.forwards.peek_next_rule_id()
    }

    /// Shuts the surface down: once no operation is mid-flight on any
    /// session, every session is detached at once and the handles are
    /// handed back so the caller can close every live transport.
    pub fn shutdown(&mut self) -> (r: crate::registry::DrainOutcome)
        requires
            old(self).wf(),
        ensures
            final(self).wf(),
            (match r {
                crate::registry::DrainOutcome::Busy => (exists|i: int|
                    0 <= i < old(self).registry().entries_seq().len() && old(
                        self,
                    ).registry().entries_seq()[i].busy) && *final(self) == *old(self),
                crate::registry::DrainOutcome::Closed(hs) => {
                    &&& forall|i: int|
                        0 <= i < old(self).registry().entries_seq().len() ==> !old(
                            self,
                        ).registry().entries_seq()[i].busy
                    &&& final(self).registry().entries_seq().len() == 0
                    &&& final(self).registry().issued_seq() == old(
                        self,
                    ).registry().issued_seq()
                    &&& final(self).forwards() == old(self).forwards()
                    &&& hs@.len() == old(self).registry().entries_seq().len()
                    &&& forall|i: int|
                        0 <= i < hs@.len() ==> hs@[i] == old(
                            self,
                        ).registry().entries_seq()[i].handle
                },
            }),
    {
        self.registry.drain()
    }

    /// The identifiers of all live sessions, in registration order.
    pub fn ssh_list_sessions(&self) -> (ids: Vec<String>)
        ensures
            ids@.len() == self.registry().entries_seq().len(),
            forall|i: int|
                0 <= i < ids@.len() ==> (#[trigger] ids@[i])@
                    == self.registry().entries_seq()[i].id@,
    {
        self.registry.list()
    }
}

} // verus!
