//! The textual command interface reachable from a shell session: `mcp`
//! subcommands are tokenized, dispatched and answered as plain text.

use vstd::prelude::*;
use vstd::string::StrSliceExecFns;
use vstd::string::StringExecFns;
use crate::outside::format_utc_datetime;
use crate::outside::utc_datetime_text;
use crate::textfmt::dec_digits;
use crate::textfmt::two_digits;
use crate::textfmt::str_eq;
use crate::textfmt::u64_to_dec;
use crate::textfmt::u64_to_two_digits;

verus! {

/// The characters that separate tokens of a command line.
pub open spec fn is_space(c: char) -> bool {
    c == ' ' || c == '\t' || c == '\n' || c == '\r'
}

/// The length of the leading run of non-separator characters.
pub open spec fn token_len(s: Seq<char>) -> nat
    decreases s.len(),
{
    if s.len() == 0 || is_space(s[0]) {
        0
    } else {
        1 + token_len(s.drop_first())
    }
}

pub proof fn lemma_token_len_le(s: Seq<char>)
    ensures
        token_len(s) <= s.len(),
    decreases s.len(),
{
    if s.len() == 0 || is_space(s[0]) {
    } else {
        lemma_token_len_le(s.drop_first());
    }
}

/// The command line's tokens: maximal runs of non-separator characters, in
/// order, separators discarded.
pub open spec fn tokens_of(s: Seq<char>) -> Seq<Seq<char>>
    decreases s.len(),
    via tokens_of_dec
{
    if s.len() == 0 {
        Seq::empty()
    } else if is_space(s[0]) {
        tokens_of(s.drop_first())
    } else {
        seq![s.take(token_len(s) as int)] + tokens_of(s.skip(token_len(s) as int))
    }
}

#[via_fn]
proof fn tokens_of_dec(s: Seq<char>) {
    lemma_token_len_le(s);
}

/// Splits a command line at separator runs.
pub fn split_tokens(s: &str) -> (tokens: Vec<String>)
    ensures
        tokens@.map_values(|t: String| t@) == tokens_of(s@),
{
    let n: usize = s.unicode_len();
    let mut tokens: Vec<String> = Vec::new();
    let mut p: usize = 0;
    proof {
        assert(s@.skip(0) =~= s@);
        assert(tokens@.map_values(|t: String| t@) =~= Seq::<Seq<char>>::empty());
    }
    while p < n
        invariant
            n == s@.len(),
            p <= n,
            tokens_of(s@) =~= tokens@.map_values(|t: String| t@) + tokens_of(s@.skip(p as int)),
        decreases n - p,
    {
        let c = s.get_char(p);
        if is_space_exec(c) {
            proof {
                assert(s@.skip(p as int)[0] == s@[p as int]);
                assert(s@.skip(p as int).drop_first() =~= s@.skip(p as int + 1));
            }
            p = p + 1;
        } else {
            let start = p;
            let mut e: usize = p;
            while e < n && !is_space_exec(s.get_char(e))
                invariant
                    n == s@.len(),
                    start <= e <= n,
                    token_len(s@.skip(start as int)) == (e - start) + token_len(
                        s@.skip(e as int),
                    ),
                    forall|j: int| start <= j < e ==> !is_space(#[trigger] s@[j]),
                decreases n - e,
                {
                    proof {
                        assert(s@.skip(e as int)[0] == s@[e as int]);
                        assert(s@.skip(e as int).drop_first() =~= s@.skip(e as int + 1));
                        assert(token_len(s@.skip(e as int)) == 1 + token_len(
                            s@.skip(e as int + 1),
                        ));
                    }
                    e = e + 1;
                }
            proof {
                if e < n {
                    assert(is_space(s@[e as int]));
                    assert(s@.skip(e as int)[0] == s@[e as int]);
                    assert(token_len(s@.skip(e as int)) == 0);
                } else {
                    assert(s@.skip(e as int).len() == 0);
                    assert(token_len(s@.skip(e as int)) == 0);
                }
                assert(token_len(s@.skip(start as int)) == e - start);
            }
            let tok = s.substring_char(start, e).to_owned();
            let ghost pre_tokens = tokens@;
            tokens.push(tok);
            proof {
                let tail = s@.skip(start as int);
                assert(!is_space(tail[0]));
                assert(tokens_of(tail) == seq![tail.take(token_len(tail) as int)] + tokens_of(
                    tail.skip(token_len(tail) as int),
                ));
                assert(tail.take((e - start) as int) =~= s@.subrange(start as int, e as int));
                assert(tail.skip((e - start) as int) =~= s@.skip(e as int));
                assert(tokens@.map_values(|t: String| t@) =~= pre_tokens.map_values(
                    |t: String| t@,
                ).push(tok@));
                assert(tokens_of(s@) =~= tokens@.map_values(|t: String| t@) + tokens_of(
                    s@.skip(e as int),
                ));
            }
            p = e;
        }
    }
    proof {
        assert(s@.skip(n as int).len() == 0);
        assert(tokens_of(s@.skip(n as int)) =~= Seq::<Seq<char>>::empty());
        assert(tokens_of(s@) =~= tokens@.map_values(|t: String| t@));
    }
    tokens
}

/// Whether `c` separates tokens.
pub fn is_space_exec(c: char) -> (r: bool)
    ensures
        r == is_space(c),
{
    c == ' ' || c == '\t' || c == '\n' || c == '\r'
}

/// One connected front-end client, as the status surface sees it: a name,
/// an identifier rendering, and when it connected and was last active, in
/// epoch seconds.
pub struct ClientRecord {
    pub name: String,
    pub uuid: String,
    pub connected_secs: i64,
    pub last_activity_secs: i64,
}

/// What the command interface reads of the server when it answers: version
/// and port renderings, the connection counter, the uptime rendering, the
/// clock, and the client roster (`None` when the roster is inaccessible).
pub struct ServerSnapshot {
    pub version: String,
    pub ssh_port: String,
    pub mcp_port: String,
    pub connections: u64,
    pub uptime: String,
    pub now_secs: i64,
    pub clients: Option<Vec<ClientRecord>>,
}

/// The snapshot's timestamps lie in the renderable range and no client
/// connected in the future.
///
/// This is a modelling choice: a roster entry is recorded from the same
/// clock the snapshot reads, so it never lies ahead of `now_secs`. A
/// caller whose clock stepped backwards clamps the skewed record before
/// building the snapshot; the interface does not define a rendering for a
/// negative connection age.
pub open spec fn snapshot_valid(s: ServerSnapshot) -> bool {
    &&& crate::outside::epoch_in_range(s.now_secs)
    &&& (match s.clients {
        Some(cs) => forall|i: int|
            0 <= i < cs@.len() ==> 0 <= (#[trigger] cs@[i]).connected_secs <= s.now_secs,
        None => true,
    })
}

/// The answer when no subcommand is given.
pub open spec fn unknown_command_text() -> Seq<char> {
    "Unknown MCP command. Try 'mcp help' for available commands.\r\n$ "@
}

/// The answer to an unrecognized subcommand.
pub open spec fn unknown_subcommand_text(word: Seq<char>) -> Seq<char> {
    "Unknown MCP command: "@ + word + ". Try 'mcp help' for available commands.\r\n$ "@
}

/// The `info` answer.
pub open spec fn info_text(version: Seq<char>, ssh_port: Seq<char>, mcp_port: Seq<char>) -> Seq<
    char,
> {
    "SSH MCP Server Information\r\nVersion: "@ + version + "\r\nSSH Port: "@ + ssh_port
        + "\r\nMCP Port: "@ + mcp_port + "\r\n$ "@
}

/// The `status` answer.
pub open spec fn status_text(connections: nat, uptime: Seq<char>, now_secs: i64) -> Seq<char> {
    "Server Status: Online\r\nActive SSH Connections: "@ + dec_digits(connections)
        + "\r\nUptime: "@ + uptime + "\r\nServer Time: "@ + crate::outside::utc_datetime_text(
        now_secs,
    ) + "\r\n$ "@
}

/// The `tools` answer.
pub open spec fn tools_text() -> Seq<char> {
    "Available MCP Tools:\r\n- get_status: Server status information\r\n- get_tools: List available AI tools\r\n- get_last_command: Last SSH command executed\r\n- broadcast_message: Send a message to SSH clients\r\n- get_clients: Get connected clients information\r\n$ "@
}

/// The `help` answer.
pub open spec fn help_text() -> Seq<char> {
    "SSH MCP Commands:\r\n- mcp info: Show server information\r\n- mcp status: Show server status\r\n- mcp tools: Show available MCP tools\r\n- mcp help: Show this help message\r\n- mcp clients: List connected clients\r\n- mcp broadcast <message>: Send message to all connected clients\r\n$ "@
}

/// One client's line in the `clients` answer: its one-based position, name,
/// identifier, connection time, and how long ago it connected as a zero-
/// padded clock reading.
pub open spec fn client_line_text(pos: nat, c: ClientRecord, now: i64) -> Seq<char> {
    dec_digits(pos) + ". "@ + c.name@ + " (UUID: "@ + c.uuid@ + ")\r\n   Connected: "@
        + crate::outside::utc_datetime_text(c.connected_secs) + " ("@ + two_digits(
        (((now - c.connected_secs) / 3600)) as nat,
    ) + ":"@ + two_digits(((((now - c.connected_secs) / 60)) % 60) as nat) + ":"@ + two_digits(
        (((now - c.connected_secs)) % 60) as nat,
    ) + " ago)\r\n"@
}

/// The first `k` clients' lines, in roster order.
pub open spec fn clients_lines(cs: Seq<ClientRecord>, now: i64, k: int) -> Seq<char>
    decreases k,
{
    if k <= 0 {
        Seq::empty()
    } else {
        clients_lines(cs, now, k - 1) + client_line_text(k as nat, cs[k - 1], now)
    }
}

/// The `clients` answer.
pub open spec fn clients_text(clients: Option<Vec<ClientRecord>>, now: i64) -> Seq<char> {
    match clients {
        Some(cs) => if cs@.len() == 0 {
            "Connected Clients:\r\n"@ + "No clients connected\r\n"@ + "$ "@
        } else {
            "Connected Clients:\r\n"@ + clients_lines(cs@, now, cs@.len() as int) + "$ "@
        },
        None => "Connected Clients:\r\n"@ + "Error accessing client list\r\n"@ + "$ "@,
    }
}

/// The answer when `broadcast` is given no message.
pub open spec fn usage_broadcast_text() -> Seq<char> {
    "Usage: mcp broadcast <message>\r\n$ "@
}

/// The confirmation after a broadcast.
pub open spec fn broadcast_ok_text(message: Seq<char>) -> Seq<char> {
    "Message broadcast: "@ + message + "\r\n$ "@
}

/// Tokens `start` up to `k`, joined with single spaces.
pub open spec fn joined_from(ts: Seq<Seq<char>>, start: int, k: int) -> Seq<char>
    decreases k - start,
{
    if k <= start {
        Seq::empty()
    } else if k == start + 1 {
        ts[start]
    } else {
        joined_from(ts, start, k - 1) + " "@ + ts[k - 1]
    }
}

/// The whole answer: the second token picks the subcommand; `broadcast`
/// takes the rest of the line as the message.
pub open spec fn mcp_response_text(command: Seq<char>, snap: ServerSnapshot) -> Seq<char> {
    let parts = tokens_of(command);
    if parts.len() < 2 {
        unknown_command_text()
    } else if parts[1] == "info"@ {
        info_text(snap.version@, snap.ssh_port@, snap.mcp_port@)
    } else if parts[1] == "status"@ {
        status_text(snap.connections as nat, snap.uptime@, snap.now_secs)
    } else if parts[1] == "tools"@ {
        tools_text()
    } else if parts[1] == "help"@ {
        help_text()
    } else if parts[1] == "clients"@ {
        clients_text(snap.clients, snap.now_secs)
    } else if parts[1] == "broadcast"@ {
        if parts.len() < 3 {
            usage_broadcast_text()
        } else {
            broadcast_ok_text(joined_from(parts, 2, parts.len() as int))
        }
    } else {
        unknown_subcommand_text(parts[1])
    }
}

/// Appends one client's line of the `clients` answer to `out`.
fn append_client_line(out: &mut String, pos: u64, c: &ClientRecord, now: i64)
    requires
        pos >= 1,
        0 <= c.connected_secs <= now,
        crate::outside::epoch_in_range(now),
    ensures
        final(out)@ == old(out)@ + client_line_text(pos as nat, *c, now),
{
    let pos_text = u64_to_dec(pos);
    out.append(pos_text.as_str());
    out.append(". ");
    out.append(c.name.as_str());
    out.append(" (UUID: ");
    out.append(c.uuid.as_str());
    out.append(")\r\n   Connected: ");
    let dt = format_utc_datetime(c.connected_secs);
    out.append(dt.as_str());
    out.append(" (");
    let du: u64 = (now - c.connected_secs) as u64;
    let hh = u64_to_two_digits(du / 3600);
    out.append(hh.as_str());
    out.append(":");
    let mm = u64_to_two_digits((du / 60) % 60);
    out.append(mm.as_str());
    out.append(":");
    let ss = u64_to_two_digits(du % 60);
    out.append(ss.as_str());
    out.append(" ago)\r\n");
    proof {
        assert(du == now - c.connected_secs);
        assert(out@ =~= old(out)@ + client_line_text(pos as nat, *c, now));
    }
}

/// Announces `message` to the connected shell clients. The clients'
/// channels are owned by their individual handlers, which this surface
/// does not hold, so the announcement reaches no transport from here.
pub fn broadcast_to_clients(message: &str) {
    let _ = message;
}

/// Answers one command line against a snapshot of the server.
pub fn process_mcp_command(command: &str, snapshot: &ServerSnapshot) -> (r: String)
    requires
        snapshot_valid(*snapshot),
    ensures
        r@ == mcp_response_text(command@, *snapshot),
{
    let tokens = split_tokens(command);
    let ghost parts = tokens_of(command@);
    if tokens.len() < 2 {
        let mut r = String::new();
        r.append("Unknown MCP command. Try 'mcp help' for available commands.\r\n$ ");
        proof {
            assert(r@ =~= unknown_command_text());
        }
        return r;
    }
    let sub = tokens[1].as_str();
    proof {
        assert(parts[1] == tokens@.map_values(|t: String| t@)[1]);
    }
    if str_eq(sub, "info") {
        let mut r = String::new();
        r.append("SSH MCP Server Information\r\nVersion: ");
        r.append(snapshot.version.as_str());
        r.append("\r\nSSH Port: ");
        r.append(snapshot.ssh_port.as_str());
        r.append("\r\nMCP Port: ");
        r.append(snapshot.mcp_port.as_str());
        r.append("\r\n$ ");
        proof {
            assert(r@ =~= info_text(snapshot.version@, snapshot.ssh_port@, snapshot.mcp_port@));
        }
        r
    } else if str_eq(sub, "status") {
        let mut r = String::new();
        r.append("Server Status: Online\r\nActive SSH Connections: ");
        let c = u64_to_dec(snapshot.connections);
        r.append(c.as_str());
        r.append("\r\nUptime: ");
        r.append(snapshot.uptime.as_str());
        r.append("\r\nServer Time: ");
        let t = format_utc_datetime(snapshot.now_secs);
        r.append(t.as_str());
        r.append("\r\n$ ");
        proof {
            assert(r@ =~= status_text(
                snapshot.connections as nat,
                snapshot.uptime@,
                snapshot.now_secs,
            ));
        }
        r
    } else if str_eq(sub, "tools") {
        let mut r = String::new();
        r.append(
            "Available MCP Tools:\r\n- get_status: Server status information\r\n- get_tools: List available AI tools\r\n- get_last_command: Last SSH command executed\r\n- broadcast_message: Send a message to SSH clients\r\n- get_clients: Get connected clients information\r\n$ ",
        );
        proof {
            assert(r@ =~= tools_text());
        }
        r
    } else if str_eq(sub, "help") {
        let mut r = String::new();
        r.append(
            "SSH MCP Commands:\r\n- mcp info: Show server information\r\n- mcp status: Show server status\r\n- mcp tools: Show available MCP tools\r\n- mcp help: Show this help message\r\n- mcp clients: List connected clients\r\n- mcp broadcast <message>: Send message to all connected clients\r\n$ ",
        );
        proof {
            assert(r@ =~= help_text());
        }
        r
    } else if str_eq(sub, "clients") {
        let mut r = String::new();
        r.append("Connected Clients:\r\n");
        match &snapshot.clients {
            Some(cs) => {
                if cs.len() == 0 {
                    r.append("No clients connected\r\n");
                } else {
                    let now = snapshot.now_secs;
                    let n: usize = cs.len();
                    let mut i: usize = 0;
                    while i < n
                        invariant
                            n == cs@.len(),
                            i <= n,
                            snapshot_valid(*snapshot),
                            snapshot.clients matches Some(v) && v@ == cs@,
                            now == snapshot.now_secs,
                            r@ =~= "Connected Clients:\r\n"@ + clients_lines(cs@, now, i as int),
                        decreases n - i,
                    {
                        let c = &cs[i];
                        append_client_line(&mut r, (i + 1) as u64, c, now);
                        i = i + 1;
                        proof {
                            assert(r@ =~= "Connected Clients:\r\n"@ + clients_lines(
                                cs@,
                                now,
                                i as int,
                            ));
                        }
                    }
                }
            },
            None => {
                r.append("Error accessing client list\r\n");
            },
        }
        r.append("$ ");
        proof {
            assert(r@ =~= clients_text(snapshot.clients, snapshot.now_secs));
        }
        r
    } else if str_eq(sub, "broadcast") {
        if tokens.len() < 3 {
            let mut r = String::new();
            r.append("Usage: mcp broadcast <message>\r\n$ ");
            proof {
                assert(r@ =~= usage_broadcast_text());
            }
            r
        } else {
            let mut message = String::new();
            message.append(tokens[2].as_str());
            proof {
                assert(message@ =~= joined_from(parts, 2, 3));
            }
            let mut i: usize = 3;
            let n: usize = tokens.len();
            while i < n
                invariant
                    n == tokens@.len(),
                    3 <= i <= n,
                    parts == tokens@.map_values(|t: String| t@),
                    message@ =~= joined_from(parts, 2, i as int),
                decreases n - i,
            {
                message.append(" ");
                message.append(tokens[i].as_str());
                i = i + 1;
                proof {
                    assert(message@ =~= joined_from(parts, 2, i as int));
                }
            }
            broadcast_to_clients(message.as_str());
            let mut r = String::new();
            r.append("Message broadcast: ");
            r.append(message.as_str());
            r.append("\r\n$ ");
            proof {
                assert(r@ =~= broadcast_ok_text(joined_from(parts, 2, parts.len() as int)));
            }
            r
        }
    } else {
        let mut r = String::new();
        r.append("Unknown MCP command: ");
        r.append(sub);
        r.append(". Try 'mcp help' for available commands.\r\n$ ");
        proof {
            assert(r@ =~= unknown_subcommand_text(parts[1]));
        }
        r
    }
}

} // verus!
