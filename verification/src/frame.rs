//! Decoding a captured link-layer frame down to its destination port.
//!
//! The headers are read by `pnet`'s packet types. Each of them is reached
//! through one small function whose contract restates, over the bytes of the
//! frame, what `pnet` does: where the header ends, which bytes a field is
//! made of, and how much of the rest counts as payload.

use crate::port::PortInfo;
use pnet::packet::ethernet::EthernetPacket;
use pnet::packet::ipv4::Ipv4Packet;
use pnet::packet::ipv6::Ipv6Packet;
use pnet::packet::tcp::TcpPacket;
use pnet::packet::udp::UdpPacket;
use pnet::packet::Packet;
use vstd::prelude::*;

verus! {

/// Ether-type of IPv4.
pub const ETHERTYPE_IPV4: u16 = 0x0800;

/// Ether-type of IPv6.
pub const ETHERTYPE_IPV6: u16 = 0x86DD;

/// IP protocol number of TCP.
pub const IP_PROTOCOL_TCP: u8 = 6;

/// IP protocol number of UDP.
pub const IP_PROTOCOL_UDP: u8 = 17;

/// Length of an Ethernet header.
pub const ETHERNET_HEADER_LEN: usize = 14;

/// Length of an IPv4 header without options.
pub const IPV4_HEADER_LEN: usize = 20;

/// Length of the fixed IPv6 header.
pub const IPV6_HEADER_LEN: usize = 40;

/// Length of a TCP header without options.
pub const TCP_HEADER_LEN: usize = 20;

/// Length of a UDP header.
pub const UDP_HEADER_LEN: usize = 8;

/// The 16-bit number that two bytes spell in network byte order.
pub open spec fn be16(hi: u8, lo: u8) -> u16 {
    (hi as int * 256 + lo as int) as u16
}

/// The ether-type field of an Ethernet frame of at least header length.
pub open spec fn ethernet_ethertype(frame: Seq<u8>) -> u16 {
    be16(frame[12], frame[13])
}

/// What follows the Ethernet header.
pub open spec fn ethernet_payload(frame: Seq<u8>) -> Seq<u8> {
    frame.skip(ETHERNET_HEADER_LEN as int)
}

/// The header length that an IPv4 packet declares, in bytes.
pub open spec fn ipv4_declared_header_len(packet: Seq<u8>) -> int {
    (packet[0] as int % 16) * 4
}

/// The total length that an IPv4 packet declares, in bytes.
pub open spec fn ipv4_declared_total_len(packet: Seq<u8>) -> int {
    be16(packet[2], packet[3]) as int
}

/// The protocol field of an IPv4 packet.
pub open spec fn ipv4_protocol(packet: Seq<u8>) -> u8 {
    packet[9]
}

/// The three flag bits of an IPv4 packet, as a number.
pub open spec fn ipv4_flags(packet: Seq<u8>) -> u8 {
    packet[6] / 32
}

/// The fragment offset field of an IPv4 packet.
pub open spec fn ipv4_fragment_offset(packet: Seq<u8>) -> u16 {
    ((packet[6] as int % 32) * 256 + packet[7] as int) as u16
}

/// Whether an IPv4 packet is a fragment of a larger one: more fragments
/// follow it, or it does not begin at offset zero.
pub open spec fn ipv4_is_fragment(packet: Seq<u8>) -> bool {
    ipv4_flags(packet) % 2 == 1 || ipv4_fragment_offset(packet) != 0
}

/// Where the payload of an IPv4 packet starts: behind the declared header,
/// and never inside the option-less header.
pub open spec fn ipv4_payload_start(packet: Seq<u8>) -> int {
    if ipv4_declared_header_len(packet) > IPV4_HEADER_LEN {
        ipv4_declared_header_len(packet)
    } else {
        IPV4_HEADER_LEN as int
    }
}

/// Where the payload of an IPv4 packet ends: as far as the declared total
/// length reaches beyond the declared header, cut off at the end of the
/// captured bytes.
pub open spec fn ipv4_payload_end(packet: Seq<u8>) -> int {
    let declared = if ipv4_declared_total_len(packet) > ipv4_declared_header_len(packet) {
        ipv4_declared_total_len(packet) - ipv4_declared_header_len(packet)
    } else {
        0
    };
    if ipv4_payload_start(packet) + declared < packet.len() {
        ipv4_payload_start(packet) + declared
    } else {
        packet.len() as int
    }
}

/// The payload of an IPv4 packet of at least header length.
pub open spec fn ipv4_payload(packet: Seq<u8>) -> Seq<u8> {
    if packet.len() <= ipv4_payload_start(packet) {
        Seq::empty()
    } else {
        packet.subrange(ipv4_payload_start(packet), ipv4_payload_end(packet))
    }
}

/// The payload length that an IPv6 packet declares, in bytes.
pub open spec fn ipv6_declared_payload_len(packet: Seq<u8>) -> int {
    be16(packet[4], packet[5]) as int
}

/// The next-header field of the fixed IPv6 header.
pub open spec fn ipv6_next_header(packet: Seq<u8>) -> u8 {
    packet[6]
}

/// Where the payload of an IPv6 packet ends: as far as the declared payload
/// length reaches, cut off at the end of the captured bytes.
pub open spec fn ipv6_payload_end(packet: Seq<u8>) -> int {
    if IPV6_HEADER_LEN + ipv6_declared_payload_len(packet) < packet.len() {
        IPV6_HEADER_LEN + ipv6_declared_payload_len(packet)
    } else {
        packet.len() as int
    }
}

/// The payload of an IPv6 packet of at least header length: what follows
/// the fixed header. Extension headers count as payload.
pub open spec fn ipv6_payload(packet: Seq<u8>) -> Seq<u8> {
    if packet.len() <= IPV6_HEADER_LEN {
        Seq::empty()
    } else {
        packet.subrange(IPV6_HEADER_LEN as int, ipv6_payload_end(packet))
    }
}

/// The destination port field of a TCP or UDP header.
pub open spec fn transport_destination(segment: Seq<u8>) -> u16 {
    be16(segment[2], segment[3])
}

/// `EthernetPacket::new`, `get_ethertype` and `payload`: nothing for a frame
/// shorter than an Ethernet header, else the ether-type and the bytes
/// behind the header.
#[verifier::external_body]
fn ethernet_fields(frame: &[u8]) -> (r: Option<(u16, Vec<u8>)>)
    ensures
        r is Some <==> frame@.len() >= ETHERNET_HEADER_LEN,
        r matches Some(f) ==> f.0 == ethernet_ethertype(frame@) && f.1@ == ethernet_payload(
            frame@,
        ),
{
    match EthernetPacket::new(frame) {
        Some(p) => Some((p.get_ethertype().0, p.payload().to_vec())),
        None => None,
    }
}

/// What the decoder reads of an IPv4 packet.
pub struct Ipv4Fields {
    /// The three flag bits, as a number.
    pub flags: u8,
    /// The fragment offset field.
    pub fragment_offset: u16,
    /// The protocol field.
    pub protocol: u8,
    /// The payload.
    pub payload: Vec<u8>,
}

/// `Ipv4Packet::new`, `get_flags`, `get_fragment_offset`,
/// `get_next_level_protocol` and `payload`: nothing for fewer bytes than an
/// option-less IPv4 header, else the flag bits, the fragment offset, the
/// protocol field, and the payload as the header's length fields delimit
/// it.
#[verifier::external_body]
fn ipv4_fields(packet: &[u8]) -> (r: Option<Ipv4Fields>)
    ensures
        r is Some <==> packet@.len() >= IPV4_HEADER_LEN,
        r matches Some(f) ==> {
            &&& f.flags == ipv4_flags(packet@)
            &&& f.fragment_offset == ipv4_fragment_offset(packet@)
            &&& f.protocol == ipv4_protocol(packet@)
            &&& f.payload@ == ipv4_payload(packet@)
        },
{
    match Ipv4Packet::new(packet) {
        Some(p) => Some(
            Ipv4Fields {
                flags: p.get_flags(),
                fragment_offset: p.get_fragment_offset(),
                protocol: p.get_next_level_protocol().0,
                payload: p.payload().to_vec(),
            },
        ),
        None => None,
    }
}

/// `Ipv6Packet::new`, `get_next_header` and `payload`: nothing for fewer
/// bytes than the fixed IPv6 header, else the next-header field and the
/// payload as the header's length field delimits it.
#[verifier::external_body]
fn ipv6_fields(packet: &[u8]) -> (r: Option<(u8, Vec<u8>)>)
    ensures
        r is Some <==> packet@.len() >= IPV6_HEADER_LEN,
        r matches Some(f) ==> f.0 == ipv6_next_header(packet@) && f.1@ == ipv6_payload(packet@),
{
    match Ipv6Packet::new(packet) {
        Some(p) => Some((p.get_next_header().0, p.payload().to_vec())),
        None => None,
    }
}

/// `TcpPacket::new` and `get_destination`: nothing for fewer bytes than an
/// option-less TCP header, else the destination port field.
#[verifier::external_body]
fn tcp_destination(segment: &[u8]) -> (r: Option<u16>)
    ensures
        r == if segment@.len() >= TCP_HEADER_LEN {
            Some(transport_destination(segment@))
        } else {
            None
        },
{
    match TcpPacket::new(segment) {
        Some(p) => Some(p.get_destination()),
        None => None,
    }
}

/// `UdpPacket::new` and `get_destination`: nothing for fewer bytes than a
/// UDP header, else the destination port field.
#[verifier::external_body]
fn udp_destination(segment: &[u8]) -> (r: Option<u16>)
    ensures
        r == if segment@.len() >= UDP_HEADER_LEN {
            Some(transport_destination(segment@))
        } else {
            None
        },
{
    match UdpPacket::new(segment) {
        Some(p) => Some(p.get_destination()),
        None => None,
    }
}

/// The destination port of a transport segment carried under the given IP
/// protocol number: that of a TCP or UDP header that fits into the segment.
pub open spec fn spec_decode_transport(protocol: u8, segment: Seq<u8>) -> Option<PortInfo> {
    if protocol == IP_PROTOCOL_TCP && segment.len() >= TCP_HEADER_LEN {
        Some(PortInfo::TCP(transport_destination(segment)))
    } else if protocol == IP_PROTOCOL_UDP && segment.len() >= UDP_HEADER_LEN {
        Some(PortInfo::UDP(transport_destination(segment)))
    } else {
        None
    }
}

/// The destination port of an IP packet carried under the given ether-type.
/// A fragment of an IPv4 packet has none.
pub open spec fn spec_decode_network(ethertype: u16, packet: Seq<u8>) -> Option<PortInfo> {
    if ethertype == ETHERTYPE_IPV4 && packet.len() >= IPV4_HEADER_LEN && !ipv4_is_fragment(packet) {
        spec_decode_transport(ipv4_protocol(packet), ipv4_payload(packet))
    } else if ethertype == ETHERTYPE_IPV6 && packet.len() >= IPV6_HEADER_LEN {
        spec_decode_transport(ipv6_next_header(packet), ipv6_payload(packet))
    } else {
        None
    }
}

/// The protocol and destination port of a frame, if it is an Ethernet frame
/// that carries TCP or UDP directly over IPv4 or IPv6.
pub open spec fn spec_decode(frame: Seq<u8>) -> Option<PortInfo> {
    if frame.len() >= ETHERNET_HEADER_LEN {
        spec_decode_network(ethernet_ethertype(frame), ethernet_payload(frame))
    } else {
        None
    }
}

/// Whether a segment carried under the given IP protocol number begins
/// with a whole TCP or UDP header.
pub open spec fn has_transport_header(protocol: u8, segment: Seq<u8>) -> bool {
    ||| protocol == IP_PROTOCOL_TCP && segment.len() >= TCP_HEADER_LEN
    ||| protocol == IP_PROTOCOL_UDP && segment.len() >= UDP_HEADER_LEN
}

/// Whether a frame is an Ethernet frame with a whole IPv4 or IPv6 header
/// whose payload begins with a whole TCP or UDP header, and no fragment of
/// an IPv4 packet.
pub open spec fn carries_transport(frame: Seq<u8>) -> bool {
    let packet = ethernet_payload(frame);
    &&& frame.len() >= ETHERNET_HEADER_LEN
    &&& {
        ||| {
            &&& ethernet_ethertype(frame) == ETHERTYPE_IPV4
            &&& packet.len() >= IPV4_HEADER_LEN
            &&& !ipv4_is_fragment(packet)
            &&& has_transport_header(ipv4_protocol(packet), ipv4_payload(packet))
        }
        ||| {
            &&& ethernet_ethertype(frame) == ETHERTYPE_IPV6
            &&& packet.len() >= IPV6_HEADER_LEN
            &&& has_transport_header(ipv6_next_header(packet), ipv6_payload(packet))
        }
    }
}

/// A frame decodes to a port exactly if it carries TCP or UDP directly over
/// IPv4 or IPv6, unfragmented; every other frame decodes to nothing.
pub proof fn lemma_decode_some_iff_transport(frame: Seq<u8>)
    ensures
        spec_decode(frame) is Some <==> carries_transport(frame),
        !carries_transport(frame) ==> spec_decode(frame) is None,
{
}

/// The protocol of a decoded port is the one that the IP header names.
pub proof fn lemma_decode_protocol(frame: Seq<u8>)
    requires
        spec_decode(frame) is Some,
    ensures
        ethernet_ethertype(frame) == ETHERTYPE_IPV4 ==> (spec_decode(frame)->0 is TCP <==> ipv4_protocol(
            ethernet_payload(frame),
        ) == IP_PROTOCOL_TCP),
        ethernet_ethertype(frame) == ETHERTYPE_IPV6 ==> (spec_decode(frame)->0 is TCP <==> ipv6_next_header(
            ethernet_payload(frame),
        ) == IP_PROTOCOL_TCP),
{
}

/// In a frame that decodes over IPv4, the destination port is spelled by
/// the third and fourth byte behind the IPv4 header, whose length is the
/// declared one, or that of an option-less header if less is declared.
pub proof fn lemma_decode_ipv4_offset(frame: Seq<u8>)
    requires
        spec_decode(frame) is Some,
        ethernet_ethertype(frame) == ETHERTYPE_IPV4,
    ensures
        ETHERNET_HEADER_LEN + ipv4_payload_start(ethernet_payload(frame)) + 3 < frame.len(),
        spec_decode(frame)->0.number() == be16(
            frame[ETHERNET_HEADER_LEN + ipv4_payload_start(ethernet_payload(frame)) + 2],
            frame[ETHERNET_HEADER_LEN + ipv4_payload_start(ethernet_payload(frame)) + 3],
        ),
{
}

/// In a frame that decodes over IPv6, the destination port is spelled by
/// the third and fourth byte behind the fixed IPv6 header.
pub proof fn lemma_decode_ipv6_offset(frame: Seq<u8>)
    requires
        spec_decode(frame) is Some,
        ethernet_ethertype(frame) == ETHERTYPE_IPV6,
    ensures
        ETHERNET_HEADER_LEN + IPV6_HEADER_LEN + 3 < frame.len(),
        spec_decode(frame)->0.number() == be16(
            frame[ETHERNET_HEADER_LEN + IPV6_HEADER_LEN + 2],
            frame[ETHERNET_HEADER_LEN + IPV6_HEADER_LEN + 3],
        ),
{
}

fn decode_transport(protocol: u8, segment: &[u8]) -> (r: Option<PortInfo>)
    ensures
        r == spec_decode_transport(protocol, segment@),
{
    if protocol == IP_PROTOCOL_TCP {
        match tcp_destination(segment) {
            Some(port) => Some(PortInfo::TCP(port)),
            None => None,
        }
    } else if protocol == IP_PROTOCOL_UDP {
        match udp_destination(segment) {
            Some(port) => Some(PortInfo::UDP(port)),
            None => None,
        }
    } else {
        None
    }
}

/// Reads the destination port of a captured frame. Frames that are too
/// short at any layer, that carry another ether-type than IPv4 or IPv6, or
/// another protocol than TCP or UDP, and fragments of IPv4 packets give
/// `None`.
///
/// IPv6 extension headers are not walked: a packet whose fixed header names
/// one gives `None`, whatever follows; so does every IPv6 fragment. The
/// version field of an IP header is not looked at.
pub fn decode(frame: &[u8]) -> (r: Option<PortInfo>)
    ensures
        r == spec_decode(frame@),
{
    match ethernet_fields(frame) {
        None => None,
        Some((ethertype, payload)) => {
            if ethertype == ETHERTYPE_IPV4 {
                match ipv4_fields(payload.as_slice()) {
                    None => None,
                    Some(fields) => {
                        if fields.flags % 2 == 1 || fields.fragment_offset != 0 {
                            None
                        } else {
                            decode_transport(fields.protocol, fields.payload.as_slice())
                        }
                    },
                }
            } else if ethertype == ETHERTYPE_IPV6 {
                match ipv6_fields(payload.as_slice()) {
                    None => None,
                    Some((protocol, segment)) => decode_transport(protocol, segment.as_slice()),
                }
            } else {
                None
            }
        },
    }
}

} // verus!
