//! IPv4 header helpers for policy checks.

use crate::net::Ipv4Addr;
use vstd::prelude::*;

verus! {

/// Whether `packet` starts like a minimal IPv4 header: twenty bytes, the first
/// of them with version four.
pub open spec fn has_ipv4_header(packet: Seq<u8>) -> bool {
    packet.len() >= 20 && packet[0] / 16 == 4
}

/// Source address of an IPv4 packet.
pub open spec fn source(packet: Seq<u8>) -> Ipv4Addr {
    Ipv4Addr { a: packet[12], b: packet[13], c: packet[14], d: packet[15] }
}

/// Destination address of an IPv4 packet.
pub open spec fn destination(packet: Seq<u8>) -> Ipv4Addr {
    Ipv4Addr { a: packet[16], b: packet[17], c: packet[18], d: packet[19] }
}

/// True if buffer looks like a minimal IPv4 header.
pub fn is_ipv4(packet: &[u8]) -> (r: bool)
    ensures
        r == has_ipv4_header(packet@),
{
    if packet.len() < 20 {
        return false;
    }
    let first: u8 = packet[0];
    assert(first >> 4 == first / 16) by (bit_vector);
    first >> 4 == 4
}

/// The source address, where the packet is IPv4.
pub fn ipv4_src(packet: &[u8]) -> (r: Option<Ipv4Addr>)
    ensures
        r == if has_ipv4_header(packet@) {
            Some(source(packet@))
        } else {
            None
        },
{
    if !is_ipv4(packet) {
        return None;
    }
    Some(Ipv4Addr::new(packet[12], packet[13], packet[14], packet[15]))
}

/// The destination address, where the packet is IPv4.
pub fn ipv4_dst(packet: &[u8]) -> (r: Option<Ipv4Addr>)
    ensures
        r == if has_ipv4_header(packet@) {
            Some(destination(packet@))
        } else {
            None
        },
{
    if !is_ipv4(packet) {
        return None;
    }
    Some(Ipv4Addr::new(packet[16], packet[17], packet[18], packet[19]))
}

/// A packet is taken for IPv4 where it has the twenty bytes of a header and the
/// upper half of the first one is four; its source stands in the four bytes
/// from the twelfth on, its destination in the four after them.
pub proof fn law_header_fields(packet: Seq<u8>)
    ensures
        has_ipv4_header(packet) <==> packet.len() >= 20 && 64 <= packet[0] <= 79,
        source(packet).bits() == packet[12] * 16777216 + packet[13] * 65536 + packet[14] * 256
            + packet[15],
        destination(packet).bits() == packet[16] * 16777216 + packet[17] * 65536 + packet[18] * 256
            + packet[19],
{
}

} // verus!
