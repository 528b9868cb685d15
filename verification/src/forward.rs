//! The port-forward bridge: the accept-loop policy of one forwarding rule
//! and the byte relay of one forwarded connection.
//!
//! A rule binds a local listener; every accepted local connection is paired
//! with a protocol-level direct channel to the remote endpoint, and each
//! paired connection runs two independent relay directions. A failure on
//! one connection is isolated to that connection; a failure of the listener
//! itself ends the whole rule.
//!
//! A started rule holds no lease on its session: the session's exclusive
//! lock is held only while the rule is set up. If the session is later
//! disconnected, the rule's accept loop keeps running and its channel
//! requests fail connection by connection, which drops those connections
//! without affecting the listener.

use vstd::prelude::*;
use vstd::string::StringExecFns;
use crate::textfmt::dec_digits;
use crate::textfmt::u64_to_dec;

verus! {

/// What the accept loop of a forwarding rule observed.
pub enum AcceptEvent {
    /// The listener accepted a local connection.
    Accepted,
    /// The accepted connection's peer address could not be read.
    PeerAddressFailed,
    /// The peer address is known; the connection awaits its channel.
    PeerAddressResolved,
    /// The direct channel to the remote endpoint is open.
    ChannelOpened,
    /// Opening the direct channel failed; the payload is the wording.
    ChannelOpenFailed(String),
    /// The listener itself failed; the payload is the wording.
    AcceptFailed(String),
}

/// What the accept loop does next.
pub enum AcceptAction {
    /// Read the connection's peer address.
    ResolvePeerAddress,
    /// Request a direct channel to exactly this remote endpoint for this
    /// connection.
    OpenDirectChannel { host: String, port: u16 },
    /// Start the two relay directions for this paired connection.
    StartRelay,
    /// Drop just this connection and keep accepting: per-connection
    /// failures never affect other connections or the listener.
    DropConnectionAndContinue,
    /// End the whole forwarding rule: the listener itself is gone.
    StopForwarding,
}

/// One forwarding rule's fixed remote endpoint: every channel the rule
/// requests tunnels to this host and port.
pub struct ForwardRule {
    pub remote_host: String,
    pub remote_port: u16,
}

impl ForwardRule {
    /// The accept-loop policy: each observation has exactly one response,
    /// and a resolved connection asks for a channel to the rule's own
    /// remote endpoint, verbatim.
    pub fn accept_step(&self, ev: &AcceptEvent) -> (a: AcceptAction)
        ensures
            (match ev {
                AcceptEvent::Accepted => a == AcceptAction::ResolvePeerAddress,
                AcceptEvent::PeerAddressFailed => a == AcceptAction::DropConnectionAndContinue,
                AcceptEvent::PeerAddressResolved => a matches AcceptAction::OpenDirectChannel {
                    host,
                    port,
                } && host@ == self.remote_host@ && port == self.remote_port,
                AcceptEvent::ChannelOpened => a == AcceptAction::StartRelay,
                AcceptEvent::ChannelOpenFailed(_) => a
                    == AcceptAction::DropConnectionAndContinue,
                AcceptEvent::AcceptFailed(_) => a == AcceptAction::StopForwarding,
            }),
    {
        match ev {
            AcceptEvent::Accepted => AcceptAction::ResolvePeerAddress,
            AcceptEvent::PeerAddressFailed => AcceptAction::DropConnectionAndContinue,
            AcceptEvent::PeerAddressResolved => AcceptAction::OpenDirectChannel {
                host: self.remote_host.clone(),
                port: self.remote_port,
            },
            AcceptEvent::ChannelOpened => AcceptAction::StartRelay,
            AcceptEvent::ChannelOpenFailed(_) => AcceptAction::DropConnectionAndContinue,
            AcceptEvent::AcceptFailed(_) => AcceptAction::StopForwarding,
        }
    }
}

/// The loopback address a rule listens on: `127.0.0.1:` and the port.
pub open spec fn listener_address_text(port: nat) -> Seq<char> {
    "127.0.0.1:"@ + dec_digits(port)
}

/// Renders the loopback listener address for `port`.
pub fn listener_address(port: u16) -> (r: String)
    ensures
        r@ == listener_address_text(port as nat),
{
    let mut r = String::new();
    r.append("127.0.0.1:");
    let p = u64_to_dec(port as u64);
    r.append(p.as_str());
    proof {
        assert(r@ =~= listener_address_text(port as nat));
    }
    r
}

/// The remote endpoint a rule tunnels to: host, `:`, port.
pub open spec fn remote_endpoint_text(host: Seq<char>, port: nat) -> Seq<char> {
    host + ":"@ + dec_digits(port)
}

/// Renders the remote endpoint `host:port`.
pub fn remote_endpoint(host: &String, port: u16) -> (r: String)
    ensures
        r@ == remote_endpoint_text(host@, port as nat),
{
    let mut r = String::new();
    r.append(host.as_str());
    r.append(":");
    let p = u64_to_dec(port as u64);
    r.append(p.as_str());
    proof {
        assert(r@ =~= remote_endpoint_text(host@, port as nat));
    }
    r
}

/// The wording of a failure to bind the local listener.
pub open spec fn bind_failure_text(port: nat, detail: Seq<char>) -> Seq<char> {
    "Failed to bind to local port "@ + dec_digits(port) + ": "@ + detail
}

/// Words a failure to bind the local listener on `port`.
pub fn bind_failure_message(port: u16, detail: &String) -> (r: String)
    ensures
        r@ == bind_failure_text(port as nat, detail@),
{
    let mut r = String::new();
    r.append("Failed to bind to local port ");
    let p = u64_to_dec(port as u64);
    r.append(p.as_str());
    r.append(": ");
    r.append(detail.as_str());
    proof {
        assert(r@ =~= bind_failure_text(port as nat, detail@));
    }
    r
}

/// What one relay direction observed on its source.
pub enum RelayEvent {
    /// A chunk of bytes arrived.
    Data(Vec<u8>),
    /// The source reached end of stream.
    EndOfStream,
    /// The source failed.
    TransportError,
}

/// What one relay direction does next.
pub enum RelayAction {
    /// Write exactly these bytes to the sink.
    Forward(Vec<u8>),
    /// Close both ends of the connection pair, so the opposite direction
    /// unwinds too.
    CloseBoth,
}

/// One forwarded connection pair: the bytes each direction has carried so
/// far, and whether the pair is still open.
pub struct RelayConn {
    /// Bytes carried local-to-remote, in arrival order.
    pub to_remote: Vec<u8>,
    /// Bytes carried remote-to-local, in arrival order.
    pub to_local: Vec<u8>,
    /// Whether the connection pair is open.
    pub open: bool,
}

/// One local-to-remote step: the carried bytes grew by exactly `chunk`,
/// the opposite direction was not touched, and the pair stayed open.
pub open spec fn forwarded_to_remote(pre: RelayConn, post: RelayConn, chunk: Seq<u8>) -> bool {
    &&& post.to_remote@ == pre.to_remote@ + chunk
    &&& post.to_local@ == pre.to_local@
    &&& post.open == pre.open
}

/// One remote-to-local step, the mirror image.
pub open spec fn forwarded_to_local(pre: RelayConn, post: RelayConn, chunk: Seq<u8>) -> bool {
    &&& post.to_local@ == pre.to_local@ + chunk
    &&& post.to_remote@ == pre.to_remote@
    &&& post.open == pre.open
}

impl RelayConn {
    /// A freshly paired connection: nothing carried, pair open.
    pub fn new() -> (c: RelayConn)
        ensures
            c.open,
            c.to_remote@ == Seq::<u8>::empty(),
            c.to_local@ == Seq::<u8>::empty(),
    {
        RelayConn { to_remote: Vec::new(), to_local: Vec::new(), open: true }
    }

    /// The local-to-remote direction observed `ev`. Data is forwarded
    /// verbatim and in order; end of stream or an error closes both ends,
    /// and the opposite direction's carried bytes are never touched.
    pub fn on_local_read(&mut self, ev: RelayEvent) -> (a: RelayAction)
        requires
            old(self).open,
        ensures
            (match ev {
                RelayEvent::Data(b) => a matches RelayAction::Forward(w) && w@ == b@
                    && forwarded_to_remote(*old(self), *final(self), b@),
                _ => a == RelayAction::CloseBoth && !final(self).open && final(self).to_remote@
                    == old(self).to_remote@ && final(self).to_local@ == old(self).to_local@,
            }),
    {
        match ev {
            RelayEvent::Data(b) => {
                let ghost pre = *self;
                let mut i: usize = 0;
                let n: usize = b.len();
                while i < n
                    invariant
                        n == b@.len(),
                        i <= n,
                        self.to_remote@ =~= pre.to_remote@ + b@.subrange(0, i as int),
                        self.to_local@ == pre.to_local@,
                        self.open == pre.open,
                    decreases n - i,
                {
                    self.to_remote.push(b[i]);
                    i = i + 1;
                    proof {
                        assert(self.to_remote@ =~= pre.to_remote@ + b@.subrange(0, i as int));
                    }
                }
                proof {
                    assert(b@.subrange(0, n as int) =~= b@);
                }
                RelayAction::Forward(b)
            },
            _ => {
                self.open = false;
                RelayAction::CloseBoth
            },
        }
    }

    /// The remote-to-local direction observed `ev`; the mirror image of
    /// `on_local_read`.
    pub fn on_remote_read(&mut self, ev: RelayEvent) -> (a: RelayAction)
        requires
            old(self).open,
        ensures
            (match ev {
                RelayEvent::Data(b) => a matches RelayAction::Forward(w) && w@ == b@
                    && forwarded_to_local(*old(self), *final(self), b@),
                _ => a == RelayAction::CloseBoth && !final(self).open && final(self).to_remote@
                    == old(self).to_remote@ && final(self).to_local@ == old(self).to_local@,
            }),
    {
        match ev {
            RelayEvent::Data(b) => {
                let ghost pre = *self;
                let mut i: usize = 0;
                let n: usize = b.len();
                while i < n
                    invariant
                        n == b@.len(),
                        i <= n,
                        self.to_local@ =~= pre.to_local@ + b@.subrange(0, i as int),
                        self.to_remote@ == pre.to_remote@,
                        self.open == pre.open,
                    decreases n - i,
                {
                    self.to_local.push(b[i]);
                    i = i + 1;
                    proof {
                        assert(self.to_local@ =~= pre.to_local@ + b@.subrange(0, i as int));
                    }
                }
                proof {
                    assert(b@.subrange(0, n as int) =~= b@);
                }
                RelayAction::Forward(b)
            },
            _ => {
                self.open = false;
                RelayAction::CloseBoth
            },
        }
    }
}

/// One registered forwarding rule: its identifier, the session it runs
/// on, its remote endpoint, and the local address it listens on.
pub struct ForwardRuleEntry {
    pub rule_id: u64,
    pub session_id: String,
    pub remote_host: String,
    pub remote_port: u16,
    pub local_address: String,
}

/// The forwarding table, parallel to the session registry: every started
/// rule is registered under a fresh identifier, so rules can be stopped
/// explicitly and accounted for instead of running as untracked
/// background work.
pub struct ForwardTable {
    rules: Vec<ForwardRuleEntry>,
    next_id: u64,
}

impl ForwardTable {
    /// The registered rules, oldest first.
    pub closed spec fn rules_seq(self) -> Seq<ForwardRuleEntry> {
        self.rules@
    }

    /// The identifier the next registration will be given.
    pub closed spec fn next_rule_id(self) -> u64 {
        self.next_id
    }

    /// `i` is the position of the rule `rid`.
    pub open spec fn has_rule_at(self, i: int, rid: u64) -> bool {
        0 <= i < self.rules_seq().len() && self.rules_seq()[i].rule_id == rid
    }

    /// A rule with identifier `rid` is registered.
    pub open spec fn contains_rule(self, rid: u64) -> bool {
        exists|i: int| self.has_rule_at(i, rid)
    }

    /// Another identifier can still be minted.
    pub open spec fn can_register(self) -> bool {
        self.next_rule_id() < u64::MAX
    }

    /// The table invariant: identifiers grow strictly with registration
    /// order and stay below the next one to mint, so they never collide.
    pub open spec fn wf(self) -> bool {
        &&& forall|i: int|
            0 <= i < self.rules_seq().len() ==> (#[trigger] self.rules_seq()[i]).rule_id
                < self.next_rule_id()
        &&& forall|i: int, j: int|
            0 <= i < j < self.rules_seq().len() ==> (#[trigger] self.rules_seq()[i]).rule_id < (
            #[trigger] self.rules_seq()[j]).rule_id
    }

    /// A registration appended one rule under the fresh identifier `rid`
    /// with exactly these coordinates; nothing else changed.
    pub open spec fn registered(
        pre: Self,
        post: Self,
        rid: u64,
        session_id: Seq<char>,
        host: Seq<char>,
        port: u16,
        local_address: Seq<char>,
    ) -> bool {
        &&& rid == pre.next_rule_id()
        &&& !pre.contains_rule(rid)
        &&& post.next_rule_id() == pre.next_rule_id() + 1
        &&& post.rules_seq().len() == pre.rules_seq().len() + 1
        &&& forall|i: int|
            0 <= i < pre.rules_seq().len() ==> #[trigger] post.rules_seq()[i]
                == pre.rules_seq()[i]
        &&& post.rules_seq().last().rule_id == rid
        &&& post.rules_seq().last().session_id@ == session_id
        &&& post.rules_seq().last().remote_host@ == host
        &&& post.rules_seq().last().remote_port == port
        &&& post.rules_seq().last().local_address@ == local_address
    }

    /// An empty table.
    pub fn new() -> (t: ForwardTable)
        ensures
            t.wf(),
            t.rules_seq() == Seq::<ForwardRuleEntry>::empty(),
            t.next_rule_id() == 1,
    {
        ForwardTable { rules: Vec::new(), next_id: 1 }
    }

    /// Whether another identifier can still be minted.
    pub fn has_capacity(&self) -> (r: bool)
        ensures
            r == self.can_register(),
    {
        self.next_id < u64::MAX
    }

    /// The identifier the next registration will be given.
    pub fn peek_next_rule_id(&self) -> (rid: u64)
        ensures
            rid == self.next_rule_id(),
    {
        self.next_id
    }

    /// Registers a started rule and returns its fresh identifier.
    pub fn register(
        &mut self,
        session_id: &String,
        remote_host: &String,
        remote_port: u16,
        local_address: &String,
    ) -> (rid: u64)
        requires
            old(self).wf(),
            old(self).can_register(),
        ensures
            final(self).wf(),
            ForwardTable::registered(
                *old(self),
                *final(self),
                rid,
                session_id@,
                remote_host@,
                remote_port,
                local_address@,
            ),
    {
        let rid = self.next_id;
        proof {
            assert(forall|i: int|
                !(0 <= i < self.rules_seq().len() && (#[trigger] self.rules_seq()[i]).rule_id
                    == rid));
        }
        self.rules.push(ForwardRuleEntry {
            rule_id: rid,
            session_id: session_id.clone(),
            remote_host: remote_host.clone(),
            remote_port,
            local_address: local_address.clone(),
        });
        self.next_id = self.next_id + 1;
        rid
    }

    /// The position of the rule `rid`, if registered.
    fn find_index(&self, rid: u64) -> (r: Option<usize>)
        ensures
            (match r {
                Some(i) => self.has_rule_at(i as int, rid),
                None => !self.contains_rule(rid),
            }),
    {
        let n: usize = self.rules.len();
        let mut i: usize = 0;
        while i < n
            invariant
                n == self.rules@.len(),
                i <= n,
                forall|j: int| 0 <= j < i ==> (#[trigger] self.rules@[j]).rule_id != rid,
            decreases n - i,
        {
            if self.rules[i].rule_id == rid {
                return Some(i);
            }
            i = i + 1;
        }
        proof {
            assert forall|j: int| !self.has_rule_at(j, rid) by {
                if 0 <= j < self.rules_seq().len() {
                    assert(self.rules@[j].rule_id != rid);
                }
            }
        }
        None
    }

    /// Stops a rule: detaches it and hands it back so the caller can
    /// cancel its listener and close its connections. Afterwards no rule
    /// carries the identifier, and every other rule stays registered.
    pub fn stop(&mut self, rid: u64) -> (r: Option<ForwardRuleEntry>)
        requires
            old(self).wf(),
        ensures
            final(self).wf(),
            final(self).next_rule_id() == old(self).next_rule_id(),
            !final(self).contains_rule(rid),
            (match r {
                Some(e) => exists|i: int|
                    {
                        &&& #[trigger] old(self).has_rule_at(i, rid)
                        &&& e == old(self).rules_seq()[i]
                        &&& final(self).rules_seq() == old(self).rules_seq().remove(i)
                    },
                None => !old(self).contains_rule(rid) && *final(self) == *old(self),
            }),
    {
        let found = self.find_index(rid);
        match found {
            None => None,
            Some(i) => {
                let ghost pre = *self;
                let entry = self.rules.remove(i);
                proof {
                    assert forall|a: int, b: int|
                        0 <= a < b < self.rules_seq().len() implies (
                    #[trigger] self.rules_seq()[a]).rule_id < (
                    #[trigger] self.rules_seq()[b]).rule_id by {
                        let pa = if a < i as int { a } else { a + 1 };
                        let pb = if b < i as int { b } else { b + 1 };
                        assert(self.rules_seq()[a] == pre.rules_seq()[pa]);
                        assert(self.rules_seq()[b] == pre.rules_seq()[pb]);
                    }
                    assert forall|a: int|
                        0 <= a < self.rules_seq().len() implies (
                    #[trigger] self.rules_seq()[a]).rule_id < self.next_rule_id() by {
                        let pa = if a < i as int { a } else { a + 1 };
                        assert(self.rules_seq()[a] == pre.rules_seq()[pa]);
                    }
                    assert forall|j: int| !self.has_rule_at(j, rid) by {
                        if 0 <= j < self.rules_seq().len() {
                            let pj = if j < i as int { j } else { j + 1 };
                            assert(self.rules_seq()[j] == pre.rules_seq()[pj]);
                            if pj < i as int {
                                assert(pre.rules_seq()[pj].rule_id < pre.rules_seq()[
                                    i as int].rule_id);
                            } else if pj > i as int {
                                assert(pre.rules_seq()[i as int].rule_id < pre.rules_seq()[
                                    pj].rule_id);
                            }
                        }
                    }
                }
                Some(entry)
            },
        }
    }

    /// The identifiers of all registered rules, in registration order.
    pub fn list_rule_ids(&self) -> (ids: Vec<u64>)
        ensures
            ids@.len() == self.rules_seq().len(),
            forall|i: int|
                0 <= i < ids@.len() ==> ids@[i] == self.rules_seq()[i].rule_id,
    {
        let n: usize = self.rules.len();
        let mut ids: Vec<u64> = Vec::new();
        let mut i: usize = 0;
        while i < n
            invariant
                n == self.rules@.len(),
                i <= n,
                ids@.len() == i,
                forall|j: int| 0 <= j < i ==> ids@[j] == self.rules@[j].rule_id,
            decreases n - i,
        {
            ids.push(self.rules[i].rule_id);
            i = i + 1;
        }
        ids
    }
}

/// Forwarding is verbatim and in order: over any run of local-to-remote
/// steps, the bytes carried to the remote side are exactly the observed
/// chunks, concatenated in arrival order, behind whatever was carried
/// before.
pub proof fn lemma_relay_verbatim_in_order_to_remote(states: Seq<RelayConn>, chunks: Seq<Seq<u8>>)
    requires
        states.len() == chunks.len() + 1,
        forall|i: int|
            0 <= i < chunks.len() ==> forwarded_to_remote(
                #[trigger] states[i],
                states[i + 1],
                chunks[i],
            ),
    ensures
        states.last().to_remote@ == states.first().to_remote@ + chunks.flatten(),
        states.last().to_local@ == states.first().to_local@,
    decreases chunks.len(),
{
    if chunks.len() == 0 {
        assert(chunks.flatten() == Seq::<u8>::empty());
        assert(states.last() == states.first());
        assert(states.last().to_remote@ =~= states.first().to_remote@ + chunks.flatten());
    } else {
        let tail_states = states.drop_first();
        let tail_chunks = chunks.drop_first();
        assert(forwarded_to_remote(states[0], states[1], chunks[0]));
        assert forall|i: int|
            0 <= i < tail_chunks.len() implies forwarded_to_remote(
            #[trigger] tail_states[i],
            tail_states[i + 1],
            tail_chunks[i],
        ) by {
            assert(tail_states[i] == states[i + 1]);
            assert(tail_states[i + 1] == states[i + 2]);
            assert(tail_chunks[i] == chunks[i + 1]);
            assert(forwarded_to_remote(states[i + 1], states[i + 2], chunks[i + 1]));
        }
        lemma_relay_verbatim_in_order_to_remote(tail_states, tail_chunks);
        assert(tail_states.first() == states[1]);
        assert(tail_states.last() == states.last());
        assert(states.last().to_remote@ =~= states.first().to_remote@ + chunks.flatten());
    }
}

/// The mirror image: over any run of remote-to-local steps, the bytes
/// carried to the local side are exactly the observed chunks, concatenated
/// in arrival order.
pub proof fn lemma_relay_verbatim_in_order_to_local(states: Seq<RelayConn>, chunks: Seq<Seq<u8>>)
    requires
        states.len() == chunks.len() + 1,
        forall|i: int|
            0 <= i < chunks.len() ==> forwarded_to_local(
                #[trigger] states[i],
                states[i + 1],
                chunks[i],
            ),
    ensures
        states.last().to_local@ == states.first().to_local@ + chunks.flatten(),
        states.last().to_remote@ == states.first().to_remote@,
    decreases chunks.len(),
{
    if chunks.len() == 0 {
        assert(chunks.flatten() == Seq::<u8>::empty());
        assert(states.last() == states.first());
        assert(states.last().to_local@ =~= states.first().to_local@ + chunks.flatten());
    } else {
        let tail_states = states.drop_first();
        let tail_chunks = chunks.drop_first();
        assert(forwarded_to_local(states[0], states[1], chunks[0]));
        assert forall|i: int|
            0 <= i < tail_chunks.len() implies forwarded_to_local(
            #[trigger] tail_states[i],
            tail_states[i + 1],
            tail_chunks[i],
        ) by {
            assert(tail_states[i] == states[i + 1]);
            assert(tail_states[i + 1] == states[i + 2]);
            assert(tail_chunks[i] == chunks[i + 1]);
            assert(forwarded_to_local(states[i + 1], states[i + 2], chunks[i + 1]));
        }
        lemma_relay_verbatim_in_order_to_local(tail_states, tail_chunks);
        assert(tail_states.first() == states[1]);
        assert(tail_states.last() == states.last());
        assert(states.last().to_local@ =~= states.first().to_local@ + chunks.flatten());
    }
}

} // verus!
