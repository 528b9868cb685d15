//! The informational tool surface: server status, the tool roster, the
//! last command, broadcasts and the client roster, as plain data that the
//! dispatch layer serializes.

use vstd::prelude::*;
use vstd::string::StringExecFns;
use crate::commands::broadcast_to_clients;
use crate::commands::ClientRecord;
use crate::outside::epoch_in_range;
use crate::outside::format_rfc3339;
use crate::outside::rfc3339_utc_text;

verus! {

/// One entry of the tool roster.
pub struct ToolDescriptor {
    pub name: String,
    pub description: String,
}

/// The server status: always online when asked, with the connection
/// counter, the uptime rendering, and the clock in RFC 3339.
pub struct StatusReport {
    pub status: String,
    pub ssh_connections: u64,
    pub uptime: String,
    pub server_time: String,
}

/// The confirmation of a broadcast.
pub struct BroadcastReport {
    pub success: bool,
    pub message: String,
    pub timestamp: String,
}

/// One client of the roster report, timestamps rendered in RFC 3339.
pub struct ClientInfo {
    pub name: String,
    pub uuid: String,
    pub connected_at: String,
    pub last_activity: String,
}

/// The client roster report.
pub struct ClientsReport {
    pub count: usize,
    pub clients: Vec<ClientInfo>,
}

/// The informational tool surface.
pub struct McpTools {}

impl McpTools {
    /// Reports the server status for the given counter, uptime rendering
    /// and clock reading.
    pub fn get_status(&self, connections: u64, uptime: String, now_secs: i64) -> (r: StatusReport)
        requires
            epoch_in_range(now_secs),
        ensures
            r.status@ == "online"@,
            r.ssh_connections == connections,
            r.uptime@ == uptime@,
            r.server_time@ == rfc3339_utc_text(now_secs),
    {
        let status = String::from_str("online");
        let server_time = format_rfc3339(now_secs);
        StatusReport { status, ssh_connections: connections, uptime, server_time }
    }

    /// Hands back the last command executed through the shell surface.
    pub fn get_last_command(&self, last_command: &String) -> (r: String)
        ensures
            r@ == last_command@,
    {
        last_command.clone()
    }

    /// The fixed roster of the five tools this surface offers.
    pub fn get_tools(&self) -> (r: Vec<ToolDescriptor>)
        ensures
            r@.len() == 5,
            r@[0].name@ == "get_status"@ && r@[0].description@ == "Server status information"@,
            r@[1].name@ == "get_tools"@ && r@[1].description@ == "List available AI tools"@,
            r@[2].name@ == "get_last_command"@ && r@[2].description@
                == "Last SSH command executed"@,
            r@[3].name@ == "broadcast_message"@ && r@[3].description@
                == "Send a message to SSH clients"@,
            r@[4].name@ == "get_clients"@ && r@[4].description@
                == "Get information about connected SSH clients"@,
    {
        let mut r: Vec<ToolDescriptor> = Vec::new();
        r.push(ToolDescriptor {
            name: String::from_str("get_status"),
            description: String::from_str("Server status information"),
        });
        r.push(ToolDescriptor {
            name: String::from_str("get_tools"),
            description: String::from_str("List available AI tools"),
        });
        r.push(ToolDescriptor {
            name: String::from_str("get_last_command"),
            description: String::from_str("Last SSH command executed"),
        });
        r.push(ToolDescriptor {
            name: String::from_str("broadcast_message"),
            description: String::from_str("Send a message to SSH clients"),
        });
        r.push(ToolDescriptor {
            name: String::from_str("get_clients"),
            description: String::from_str("Get information about connected SSH clients"),
        });
        r
    }

    /// Broadcasts a message to the shell clients and confirms it with the
    /// clock reading.
    pub fn broadcast_message(&self, message: String, now_secs: i64) -> (r: BroadcastReport)
        requires
            epoch_in_range(now_secs),
        ensures
            r.success,
            r.message@ == message@,
            r.timestamp@ == rfc3339_utc_text(now_secs),
    {
        broadcast_to_clients(message.as_str());
        let timestamp = format_rfc3339(now_secs);
        BroadcastReport { success: true, message, timestamp }
    }

    /// Reports the client roster: the count and, per client, name,
    /// identifier and both timestamps rendered in RFC 3339.
    pub fn get_clients(&self, clients: &Vec<ClientRecord>) -> (r: ClientsReport)
        requires
            forall|i: int|
                0 <= i < clients@.len() ==> epoch_in_range(
                    (#[trigger] clients@[i]).connected_secs,
                ) && epoch_in_range(clients@[i].last_activity_secs),
        ensures
            r.count == clients@.len(),
            r.clients@.len() == clients@.len(),
            forall|i: int|
                0 <= i < clients@.len() ==> {
                    &&& (#[trigger] r.clients@[i]).name@ == clients@[i].name@
                    &&& r.clients@[i].uuid@ == clients@[i].uuid@
                    &&& r.clients@[i].connected_at@ == rfc3339_utc_text(
                        clients@[i].connected_secs,
                    )
                    &&& r.clients@[i].last_activity@ == rfc3339_utc_text(
                        clients@[i].last_activity_secs,
                    )
                },
    {
        let n: usize = clients.len();
        let mut out: Vec<ClientInfo> = Vec::new();
        let mut i: usize = 0;
        while i < n
            invariant
                n == clients@.len(),
                i <= n,
                out@.len() == i,
                forall|k: int|
                    0 <= k < clients@.len() ==> epoch_in_range(
                        (#[trigger] clients@[k]).connected_secs,
                    ) && epoch_in_range(clients@[k].last_activity_secs),
                forall|k: int|
                    0 <= k < i ==> {
                        &&& (#[trigger] out@[k]).name@ == clients@[k].name@
                        &&& out@[k].uuid@ == clients@[k].uuid@
                        &&& out@[k].connected_at@ == rfc3339_utc_text(clients@[k].connected_secs)
                        &&& out@[k].last_activity@ == rfc3339_utc_text(
                            clients@[k].last_activity_secs,
                        )
                    },
            decreases n - i,
        {
            let c = &clients[i];
            let connected_at = format_rfc3339(c.connected_secs);
            let last_activity = format_rfc3339(c.last_activity_secs);
            out.push(ClientInfo {
                name: c.name.clone(),
                uuid: c.uuid.clone(),
                connected_at,
                last_activity,
            });
            i = i + 1;
        }
        ClientsReport { count: n, clients: out }
    }
}

} // verus!
