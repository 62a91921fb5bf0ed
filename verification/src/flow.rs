//! Flow keys and the table of flows this host opened.

use crate::lru::{lru_get, lru_put, lru_well_formed, lru_without, LruMap, Slot};
use crate::packet::Packet;
use vstd::prelude::*;

verus! {

/// How many flows the table holds unless told otherwise.
pub const DEFAULT_FLOW_CAPACITY: usize = 1_000_000;

/// Multiplier that spreads the two addresses of a flow over the key.
pub const ADDRESS_MIX: u64 = 0x9E37_79B9_7F4A_7C15;

/// Multiplier that spreads the two ports of a flow over the key.
pub const PORT_MIX: u64 = 0xC2B2_AE3D_27D4_EB4F;

/// A connection as seen from this host when it sends: the source is the
/// local end, the destination the remote end. Ports are 0 where the
/// protocol has none.
#[derive(Debug, Clone, Copy, PartialEq, Eq, Structural)]
pub struct FlowKey {
    /// The local address.
    pub src_ip: u32,
    /// The local port.
    pub src_port: u16,
    /// The remote address.
    pub dst_ip: u32,
    /// The remote port.
    pub dst_port: u16,
}

/// The flow an outgoing packet belongs to.
pub open spec fn egress_flow(packet: Packet) -> FlowKey {
    FlowKey {
        src_ip: packet.source_ip,
        src_port: packet.source_port,
        dst_ip: packet.destination_ip,
        dst_port: packet.destination_port,
    }
}

/// The flow an incoming packet belongs to: its destination is the local end.
pub open spec fn ingress_flow(packet: Packet) -> FlowKey {
    FlowKey {
        src_ip: packet.destination_ip,
        src_port: packet.destination_port,
        dst_ip: packet.source_ip,
        dst_port: packet.source_port,
    }
}

/// Both addresses of a flow in one number.
pub open spec fn flow_ends(flow: FlowKey) -> u64 {
    (flow.src_ip * 0x1_0000_0000 + flow.dst_ip) as u64
}

/// Both ports of a flow in one number.
pub open spec fn flow_ports(flow: FlowKey) -> u64 {
    (flow.src_port * 0x1_0000 + flow.dst_port) as u64
}

/// The 64-bit key a flow is tracked under: the addresses and the ports,
/// each multiplied out over all 64 bits, combined bit by bit.
pub open spec fn flow_hash(flow: FlowKey) -> u64 {
    vstd::wrapping::u64_specs::wrapping_mul(flow_ends(flow), ADDRESS_MIX)
        ^ vstd::wrapping::u64_specs::wrapping_mul(flow_ports(flow), PORT_MIX)
}

/// Computes [`egress_flow`].
pub fn flow_of_egress(packet: &Packet) -> (flow: FlowKey)
    ensures
        flow == egress_flow(*packet),
{
    FlowKey {
        src_ip: packet.source_ip,
        src_port: packet.source_port,
        dst_ip: packet.destination_ip,
        dst_port: packet.destination_port,
    }
}

/// Computes [`ingress_flow`].
pub fn flow_of_ingress(packet: &Packet) -> (flow: FlowKey)
    ensures
        flow == ingress_flow(*packet),
{
    FlowKey {
        src_ip: packet.destination_ip,
        src_port: packet.destination_port,
        dst_ip: packet.source_ip,
        dst_port: packet.source_port,
    }
}

/// Computes [`flow_hash`].
pub fn hash_flow(flow: &FlowKey) -> (key: u64)
    ensures
        key == flow_hash(*flow),
{
    let ends: u64 = (flow.src_ip as u64) * 0x1_0000_0000 + (flow.dst_ip as u64);
    let ports: u64 = (flow.src_port as u64) * 0x1_0000 + (flow.dst_port as u64);
    ends.wrapping_mul(ADDRESS_MIX) ^ ports.wrapping_mul(PORT_MIX)
}

/// Multiplying by the address multiplier loses nothing: different numbers
/// give different products.
proof fn lemma_address_mix_injective(x: u64, y: u64)
    by (bit_vector)
    requires
        (x * 0x9E37_79B9_7F4A_7C15u64) % 0x1_0000_0000_0000_0000 == (y * 0x9E37_79B9_7F4A_7C15u64)
            % 0x1_0000_0000_0000_0000,
    ensures
        x == y,
{
}

/// Multiplying by the port multiplier loses nothing: different numbers
/// give different products.
proof fn lemma_port_mix_injective(x: u64, y: u64)
    by (bit_vector)
    requires
        (x * 0xC2B2_AE3D_27D4_EB4Fu64) % 0x1_0000_0000_0000_0000 == (y * 0xC2B2_AE3D_27D4_EB4Fu64)
            % 0x1_0000_0000_0000_0000,
    ensures
        x == y,
{
}

/// Where two combinations agree, and so does one part, so does the other.
proof fn lemma_xor_cancels(a: u64, b: u64, c: u64, d: u64)
    by (bit_vector)
    requires
        a ^ c == b ^ d,
    ensures
        c == d ==> a == b,
        a == b ==> c == d,
{
}

/// Two flows between the same two addresses are tracked under different
/// keys unless their ports agree too.
pub proof fn lemma_flow_hash_tells_ports(a: FlowKey, b: FlowKey)
    requires
        a.src_ip == b.src_ip,
        a.dst_ip == b.dst_ip,
        flow_hash(a) == flow_hash(b),
    ensures
        a == b,
{
    let pa = vstd::wrapping::u64_specs::wrapping_mul(flow_ports(a), PORT_MIX);
    let pb = vstd::wrapping::u64_specs::wrapping_mul(flow_ports(b), PORT_MIX);
    let ea = vstd::wrapping::u64_specs::wrapping_mul(flow_ends(a), ADDRESS_MIX);
    let eb = vstd::wrapping::u64_specs::wrapping_mul(flow_ends(b), ADDRESS_MIX);
    lemma_xor_cancels(ea, eb, pa, pb);
    lemma_port_mix_injective(flow_ports(a), flow_ports(b));
}

/// Two flows with the same two ports are tracked under different keys
/// unless their addresses agree too.
pub proof fn lemma_flow_hash_tells_addresses(a: FlowKey, b: FlowKey)
    requires
        a.src_port == b.src_port,
        a.dst_port == b.dst_port,
        flow_hash(a) == flow_hash(b),
    ensures
        a == b,
{
    let pa = vstd::wrapping::u64_specs::wrapping_mul(flow_ports(a), PORT_MIX);
    let pb = vstd::wrapping::u64_specs::wrapping_mul(flow_ports(b), PORT_MIX);
    let ea = vstd::wrapping::u64_specs::wrapping_mul(flow_ends(a), ADDRESS_MIX);
    let eb = vstd::wrapping::u64_specs::wrapping_mul(flow_ends(b), ADDRESS_MIX);
    lemma_xor_cancels(ea, eb, pa, pb);
    lemma_address_mix_injective(flow_ends(a), flow_ends(b));
}


/// Return traffic belongs to the flow of the packet it answers.
pub proof fn lemma_reply_shares_flow(sent: Packet, reply: Packet)
    requires
        reply.source_ip == sent.destination_ip,
        reply.source_port == sent.destination_port,
        reply.destination_ip == sent.source_ip,
        reply.destination_port == sent.source_port,
    ensures
        ingress_flow(reply) == egress_flow(sent),
{
}

/// The flows this host opened, each under its 64-bit key with the time it
/// was last seen. The table is bounded: a new flow that finds it full
/// takes the place of the flow that was written longest ago.
pub struct FlowTable {
    map: LruMap,
}

impl View for FlowTable {
    type V = Seq<Slot>;

    closed spec fn view(&self) -> Seq<Slot> {
        self.map@
    }
}

impl FlowTable {
    /// The largest number of flows the table holds at once.
    pub closed spec fn capacity(&self) -> nat {
        self.map.capacity()
    }

    /// The invariant of the table.
    pub open spec fn wf(&self) -> bool {
        lru_well_formed(self@, self.capacity())
    }

    /// An empty table for up to `capacity` flows; none for a capacity of
    /// zero, which could track nothing.
    pub fn new(capacity: usize) -> (made: Option<FlowTable>)
        ensures
            capacity == 0 <==> made is None,
            made matches Some(table) ==> table.wf() && table@ == Seq::<Slot>::empty()
                && table.capacity() == capacity,
    {
        match LruMap::new(capacity) {
            Some(map) => Some(FlowTable { map }),
            None => None,
        }
    }

    /// An empty table of the usual capacity.
    pub fn with_default_capacity() -> (table: FlowTable)
        ensures
            table.wf(),
            table@ == Seq::<Slot>::empty(),
            table.capacity() == DEFAULT_FLOW_CAPACITY,
    {
        FlowTable { map: LruMap::new(DEFAULT_FLOW_CAPACITY).unwrap() }
    }

    /// The number of flows held.
    pub fn len(&self) -> (n: usize)
        ensures
            n == self@.len(),
    {
        self.map.len()
    }

    /// When the flow under `key` was last seen, if it is held.
    pub fn get(&self, key: u64) -> (seen: Option<u64>)
        requires
            self.wf(),
        ensures
            seen == lru_get(self@, key),
    {
        self.map.get(key)
    }

    /// Records that the flow under `key` was seen at `now`.
    pub fn upsert(&mut self, key: u64, now: u64)
        requires
            old(self).wf(),
        ensures
            final(self).wf(),
            final(self).capacity() == old(self).capacity(),
            final(self)@ == lru_put(old(self)@, old(self).capacity(), key, now),
    {
        self.map.insert(key, now);
    }

    /// Forgets the flow under `key`.
    pub fn remove(&mut self, key: u64)
        requires
            old(self).wf(),
        ensures
            final(self).wf(),
            final(self).capacity() == old(self).capacity(),
            final(self)@ == lru_without(old(self)@, key),
    {
        self.map.remove(key);
    }
}

} // verus!
