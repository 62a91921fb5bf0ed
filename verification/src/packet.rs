//! Bounded decoding of Ethernet, IPv4 and transport headers from a frame.

use vstd::prelude::*;

verus! {

/// Length of the Ethernet header.
pub const ETH_HDR_LEN: usize = 14;

/// Length of the IPv4 header as it is read here: options are not skipped.
pub const IPV4_HDR_LEN: usize = 20;

/// Length of the TCP header without options.
pub const TCP_HDR_LEN: usize = 20;

/// Length of the UDP header.
pub const UDP_HDR_LEN: usize = 8;

/// The Ethertype of IPv4.
pub const ETHERTYPE_IPV4: u16 = 0x0800;

/// IP protocol number of the control message protocol.
pub const PROTO_ICMP: u8 = 1;

/// IP protocol number of TCP.
pub const PROTO_TCP: u8 = 6;

/// IP protocol number of UDP.
pub const PROTO_UDP: u8 = 17;

/// The bit of the TCP flags byte that resets a connection.
pub const TCP_FLAG_RST: u8 = 0x04;

/// What the packet path reads from a frame it tracks. Addresses and ports
/// are in network byte order: the first byte on the wire is the lowest
/// byte of the number, as a little-endian machine reads it from the
/// packet.
#[derive(Debug, Clone, Copy, PartialEq, Eq, Structural)]
pub struct Packet {
    /// The source address.
    pub source_ip: u32,
    /// The destination address.
    pub destination_ip: u32,
    /// The IP protocol number.
    pub protocol: u8,
    /// The source port; 0 where the protocol has no ports.
    pub source_port: u16,
    /// The destination port; 0 where the protocol has no ports.
    pub destination_port: u16,
    /// Whether a TCP segment carries the reset flag.
    pub reset: bool,
}

/// What decoding a frame comes to.
#[derive(Debug, Clone, Copy, PartialEq, Eq, Structural)]
pub enum Decoded {
    /// A header would reach past the end of the frame.
    BoundsExceeded,
    /// The frame does not carry IPv4.
    NotIpv4,
    /// The frame carries IPv4 with a transport other than TCP, UDP and the
    /// control message protocol.
    Unsupported,
    /// The frame carries a packet of a tracked transport.
    Ip(Packet),
}

/// The 16-bit number whose high byte stands at `at` in `bytes` and whose
/// low byte behind it: how the type of an Ethernet frame is read.
pub open spec fn be16(bytes: Seq<u8>, at: int) -> u16 {
    (bytes[at] * 256 + bytes[at + 1]) as u16
}

/// The 16-bit field at `at` in `bytes` in network byte order: the first
/// byte is the lowest byte of the number.
pub open spec fn net16(bytes: Seq<u8>, at: int) -> u16 {
    (bytes[at] + bytes[at + 1] * 256) as u16
}

/// The 32-bit field at `at` in `bytes` in network byte order: the first
/// byte is the lowest byte of the number.
pub open spec fn net32(bytes: Seq<u8>, at: int) -> u32 {
    (bytes[at] + bytes[at + 1] * 256 + bytes[at + 2] * 65536 + bytes[at + 3] * 16777216) as u32
}

/// Whether `length` bytes from `offset` on lie inside a frame of
/// `frame_len` bytes.
pub open spec fn in_bounds(frame_len: nat, offset: nat, length: nat) -> bool {
    offset + length <= frame_len
}

/// The packet a frame with a tracked transport carries, ports and reset
/// flag given.
pub open spec fn packet_at(frame: Seq<u8>, source_port: u16, destination_port: u16, reset: bool)
    -> Packet {
    Packet {
        source_ip: net32(frame, 26),
        destination_ip: net32(frame, 30),
        protocol: frame[23],
        source_port,
        destination_port,
        reset,
    }
}

/// What a frame decodes to. The IPv4 header is read right behind the
/// Ethernet header and the transport header right behind the first
/// twenty bytes of the IPv4 header; each header is read only if it lies
/// inside the frame.
pub open spec fn decode_spec(frame: Seq<u8>) -> Decoded {
    if !in_bounds(frame.len(), 0, 14) {
        Decoded::BoundsExceeded
    } else if be16(frame, 12) != ETHERTYPE_IPV4 {
        Decoded::NotIpv4
    } else if !in_bounds(frame.len(), 14, 20) {
        Decoded::BoundsExceeded
    } else if frame[23] == PROTO_TCP {
        if !in_bounds(frame.len(), 34, 20) {
            Decoded::BoundsExceeded
        } else {
            Decoded::Ip(
                packet_at(frame, net16(frame, 34), net16(frame, 36), frame[47] & TCP_FLAG_RST != 0),
            )
        }
    } else if frame[23] == PROTO_UDP {
        if !in_bounds(frame.len(), 34, 8) {
            Decoded::BoundsExceeded
        } else {
            Decoded::Ip(packet_at(frame, net16(frame, 34), net16(frame, 36), false))
        }
    } else if frame[23] == PROTO_ICMP {
        Decoded::Ip(packet_at(frame, 0, 0, false))
    } else {
        Decoded::Unsupported
    }
}

/// The place of a header of `length` bytes at `offset` in a frame received
/// on ingress, or an error if the header would reach past the frame's end.
pub fn xdp_ptr_at_fallible(frame: &[u8], offset: usize, length: usize) -> (at: Result<usize, ()>)
    ensures
        at is Ok <==> in_bounds(frame@.len(), offset as nat, length as nat),
        at matches Ok(start) ==> start == offset,
{
    ptr_at(frame.len(), offset, length)
}

/// The place of a header of `length` bytes at `offset` in a frame sent on
/// egress, or an error if the header would reach past the frame's end.
pub fn tc_ptr_at_fallible(frame: &[u8], offset: usize, length: usize) -> (at: Result<usize, ()>)
    ensures
        at is Ok <==> in_bounds(frame@.len(), offset as nat, length as nat),
        at matches Ok(start) ==> start == offset,
{
    ptr_at(frame.len(), offset, length)
}

/// The bounds check both hooks share.
fn ptr_at(frame_len: usize, offset: usize, length: usize) -> (at: Result<usize, ()>)
    ensures
        at is Ok <==> in_bounds(frame_len as nat, offset as nat, length as nat),
        at matches Ok(start) ==> start == offset,
{
    match offset.checked_add(length) {
        Some(end) => if end <= frame_len {
            Ok(offset)
        } else {
            Err(())
        },
        None => Err(()),
    }
}

/// Reads [`be16`].
fn read_be16(frame: &[u8], at: usize) -> (value: u16)
    requires
        at + 2 <= frame@.len(),
    ensures
        value == be16(frame@, at as int),
{
    let high: u16 = frame[at] as u16;
    let low: u16 = frame[at + 1] as u16;
    high * 256 + low
}

/// Reads [`net16`].
fn read_net16(frame: &[u8], at: usize) -> (value: u16)
    requires
        at + 2 <= frame@.len(),
    ensures
        value == net16(frame@, at as int),
{
    let low: u16 = frame[at] as u16;
    let high: u16 = frame[at + 1] as u16;
    low + high * 256
}

/// Reads [`net32`].
fn read_net32(frame: &[u8], at: usize) -> (value: u32)
    requires
        at + 4 <= frame@.len(),
    ensures
        value == net32(frame@, at as int),
{
    let b0: u32 = frame[at] as u32;
    let b1: u32 = frame[at + 1] as u32;
    let b2: u32 = frame[at + 2] as u32;
    let b3: u32 = frame[at + 3] as u32;
    b0 + b1 * 256 + b2 * 65536 + b3 * 16777216
}

/// Decodes a frame; see [`decode_spec`].
pub fn decode(frame: &[u8]) -> (decoded: Decoded)
    ensures
        decoded == decode_spec(frame@),
{
    if ptr_at(frame.len(), 0, ETH_HDR_LEN).is_err() {
        return Decoded::BoundsExceeded;
    }
    if read_be16(frame, 12) != ETHERTYPE_IPV4 {
        return Decoded::NotIpv4;
    }
    if ptr_at(frame.len(), ETH_HDR_LEN, IPV4_HDR_LEN).is_err() {
        return Decoded::BoundsExceeded;
    }
    let source_ip = read_net32(frame, 26);
    let destination_ip = read_net32(frame, 30);
    let protocol = frame[23];
    let transport: usize = ETH_HDR_LEN + IPV4_HDR_LEN;
    if protocol == PROTO_TCP {
        if ptr_at(frame.len(), transport, TCP_HDR_LEN).is_err() {
            return Decoded::BoundsExceeded;
        }
        Decoded::Ip(
            Packet {
                source_ip,
                destination_ip,
                protocol,
                source_port: read_net16(frame, transport),
                destination_port: read_net16(frame, transport + 2),
                reset: frame[transport + 13] & TCP_FLAG_RST != 0,
            },
        )
    } else if protocol == PROTO_UDP {
        if ptr_at(frame.len(), transport, UDP_HDR_LEN).is_err() {
            return Decoded::BoundsExceeded;
        }
        Decoded::Ip(
            Packet {
                source_ip,
                destination_ip,
                protocol,
                source_port: read_net16(frame, transport),
                destination_port: read_net16(frame, transport + 2),
                reset: false,
            },
        )
    } else if protocol == PROTO_ICMP {
        Decoded::Ip(
            Packet {
                source_ip,
                destination_ip,
                protocol,
                source_port: 0,
                destination_port: 0,
                reset: false,
            },
        )
    } else {
        Decoded::Unsupported
    }
}

} // verus!
