//! The records exchanged between the command-line client and the daemon.

use vstd::prelude::*;

verus! {

/// A request of the client.
#[derive(Debug, Clone, PartialEq, Eq)]
pub struct ClientMessage {
    /// What is asked for.
    pub req_type: ClientReqType,
    /// The rules to load; needed by a `RULES` request.
    pub rules: Option<Vec<Rule>>,
    /// The interface to filter; needed by `RULES` and `ENABLE` requests.
    pub interface: Option<String>,
}

/// What the client asks the daemon to do.
#[derive(Debug, Clone, Copy, PartialEq, Eq, Structural)]
pub enum ClientReqType {
    /// Report whether the firewall is enabled, where, and with how many rules.
    STATUS,
    /// Replace the rule set, enabling the firewall first if need be.
    RULES,
    /// Enable the firewall on an interface.
    ENABLE,
    /// Disable the firewall.
    DISABLE,
}

/// The daemon's answer to one request.
#[derive(Debug, Clone, PartialEq, Eq)]
pub struct ServerMessage {
    /// Whether the request was carried out.
    pub request_success: bool,
    /// A sentence for the user.
    pub message: String,
}

/// A firewall rule as it travels from the client to the daemon. Addresses
/// and the port are in network byte order, so the packet path compares
/// them without conversion: the first byte on the wire is the lowest byte
/// of the number, as a little-endian machine reads it from the packet.
/// The prefix length is what the fields contribute together: the prefix
/// lengths of the two networks, 8 for a protocol and 16 for a port. The
/// two prefix lengths travel with the rule, as their sum does not tell
/// them apart.
#[derive(Debug, Clone, Copy, PartialEq, Eq, Structural)]
pub struct Rule {
    /// The identifier of the rule; its analytics are kept under it.
    pub id: u32,
    /// How many bits of the match fields are significant, all fields together.
    pub prefix_length: u32,
    /// How many leading bits of the source network are significant.
    pub source_prefix_length: u32,
    /// How many leading bits of the destination network are significant.
    pub destination_prefix_length: u32,
    /// The first address of the source network.
    pub source_ip_range: u32,
    /// The first address of the destination network.
    pub destination_ip_range: u32,
    /// The IP protocol number, if the rule is for one protocol.
    pub protocol_number: u8,
    /// The destination port, if the rule is for one port.
    pub port_number: u16,
    /// Packets allowed per source address in one window, if limited.
    pub ratelimit: Option<u32>,
}


/// A transport a rule can be written for.
#[derive(Debug, Clone, Copy, PartialEq, Eq, Structural)]
pub enum Protocol {
    /// The transmission control protocol.
    TCP,
    /// The user datagram protocol.
    UDP,
    /// The internet control message protocol.
    ICMP,
}

impl Protocol {
    /// The number of the protocol in the IPv4 header.
    pub open spec fn number_spec(self) -> u8 {
        match self {
            Protocol::ICMP => 1u8,
            Protocol::TCP => 6u8,
            Protocol::UDP => 17u8,
        }
    }

    /// The number of the protocol in the IPv4 header.
    pub fn number(self) -> (number: u8)
        ensures
            number == self.number_spec(),
    {
        match self {
            Protocol::ICMP => 1,
            Protocol::TCP => 6,
            Protocol::UDP => 17,
        }
    }
}

} // verus!
