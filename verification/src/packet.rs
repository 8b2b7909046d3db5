//! Wire formats of the parsed protocol layers: Ethernet, ARP, IPv4, IPv6,
//! TCP, UDP, ICMP and ICMPv6 headers, each as a spec-level grammar on raw
//! bytes and an executable parser proved against it. A parser returns `None`
//! exactly on malformed input; it never panics.

use vstd::prelude::*;

use crate::addr::{InterfaceAddrs, IpAddress, IsIncoming, MacAddr};

verus! {

/// Bytes of an Ethernet header.
pub const ETHERNET_HEADER_LEN: usize = 14;

/// Bytes of an ARP packet carrying IPv4 over Ethernet.
pub const ARP_PACKET_LEN: usize = 28;

/// Minimum bytes of an IPv4 header.
pub const IPV4_MIN_HEADER_LEN: usize = 20;

/// Bytes of the fixed IPv6 header.
pub const IPV6_HEADER_LEN: usize = 40;

/// Minimum bytes of a TCP header.
pub const TCP_MIN_HEADER_LEN: usize = 20;

/// Bytes of a UDP header.
pub const UDP_HEADER_LEN: usize = 8;

/// Minimum bytes of an ICMP / ICMPv6 header.
pub const ICMP_MIN_LEN: usize = 4;

/// A big-endian 16-bit quantity read from two bytes.
pub open spec fn spec_be16(hi: u8, lo: u8) -> u16 {
    (hi * 256 + lo) as u16
}

/// Read a big-endian 16-bit quantity at `at`.
pub fn be16(b: &[u8], at: usize) -> (r: u16)
    requires
        at + 2 <= b@.len(),
    ensures
        r == spec_be16(b[at as int], b[at as int + 1]),
{
    (b[at] as u16) * 256 + (b[at + 1] as u16)
}

// ----------------------------------------------------------------------
// Ethernet

/// A parsed Ethernet header.
#[derive(Debug, Clone, Copy, PartialEq, Eq, Structural)]
pub struct EthernetHeader {
    pub destination: MacAddr,
    pub source: MacAddr,
    pub ethertype: u16,
}

/// The Ethernet grammar: six destination octets, six source octets, a
/// big-endian ethertype.
pub open spec fn spec_parse_ethernet(b: Seq<u8>) -> Option<EthernetHeader> {
    if b.len() >= ETHERNET_HEADER_LEN {
        Some(
            EthernetHeader {
                destination: MacAddr(b[0], b[1], b[2], b[3], b[4], b[5]),
                source: MacAddr(b[6], b[7], b[8], b[9], b[10], b[11]),
                ethertype: spec_be16(b[12], b[13]),
            },
        )
    } else {
        None
    }
}

/// The frame's link-layer payload: everything past the Ethernet header.
pub open spec fn spec_ethernet_payload(b: Seq<u8>) -> Seq<u8> {
    b.skip(ETHERNET_HEADER_LEN as int)
}

pub fn parse_ethernet(b: &[u8]) -> (r: Option<EthernetHeader>)
    ensures
        r == spec_parse_ethernet(b@),
{
    if b.len() < ETHERNET_HEADER_LEN {
        return None;
    }
    Some(
        EthernetHeader {
            destination: MacAddr(b[0], b[1], b[2], b[3], b[4], b[5]),
            source: MacAddr(b[6], b[7], b[8], b[9], b[10], b[11]),
            ethertype: be16(b, 12),
        },
    )
}

pub fn ethernet_payload<'a>(b: &'a [u8]) -> (p: &'a [u8])
    requires
        spec_parse_ethernet(b@) is Some,
    ensures
        p@ == spec_ethernet_payload(b@),
{
    vstd::slice::slice_subrange(b, ETHERNET_HEADER_LEN, b.len())
}

// ----------------------------------------------------------------------
// ARP

/// A parsed ARP packet (IPv4 over Ethernet).
#[derive(Debug, Clone, Copy, PartialEq, Eq, Structural)]
pub struct ArpHeader {
    pub operation: u16,
    pub sender_proto_addr: IpAddress,
    pub target_proto_addr: IpAddress,
}

/// The ARP grammar for IPv4 over Ethernet: operation at offset 6, sender
/// protocol address at 14, target protocol address at 24.
pub open spec fn spec_parse_arp(b: Seq<u8>) -> Option<ArpHeader> {
    if b.len() >= ARP_PACKET_LEN {
        Some(
            ArpHeader {
                operation: spec_be16(b[6], b[7]),
                sender_proto_addr: IpAddress::V4(b[14], b[15], b[16], b[17]),
                target_proto_addr: IpAddress::V4(b[24], b[25], b[26], b[27]),
            },
        )
    } else {
        None
    }
}

pub fn parse_arp(b: &[u8]) -> (r: Option<ArpHeader>)
    ensures
        r == spec_parse_arp(b@),
{
    if b.len() < ARP_PACKET_LEN {
        return None;
    }
    Some(
        ArpHeader {
            operation: be16(b, 6),
            sender_proto_addr: IpAddress::V4(b[14], b[15], b[16], b[17]),
            target_proto_addr: IpAddress::V4(b[24], b[25], b[26], b[27]),
        },
    )
}

// ----------------------------------------------------------------------
// IPv4

/// A parsed IPv4 header.
#[derive(Debug, Clone, Copy, PartialEq, Eq, Structural)]
pub struct Ipv4Header {
    pub source: IpAddress,
    pub destination: IpAddress,
    pub protocol: u8,
    /// Header length in bytes, read from the IHL field.
    pub header_len: usize,
    /// The datagram's total length field, in bytes.
    pub total_len: u16,
}

/// The IPv4 grammar: at least twenty bytes, an IHL of at least five words
/// that fits inside the buffer, protocol at offset 9, source at 12,
/// destination at 16.
pub open spec fn spec_parse_ipv4(b: Seq<u8>) -> Option<Ipv4Header> {
    let header_len = (b[0] as int % 16) * 4;
    if b.len() >= IPV4_MIN_HEADER_LEN && header_len >= IPV4_MIN_HEADER_LEN && b.len()
        >= header_len {
        Some(
            Ipv4Header {
                source: IpAddress::V4(b[12], b[13], b[14], b[15]),
                destination: IpAddress::V4(b[16], b[17], b[18], b[19]),
                protocol: b[9],
                header_len: header_len as usize,
                total_len: spec_be16(b[2], b[3]),
            },
        )
    } else {
        None
    }
}

/// The IPv4 payload: the bytes after the header, up to the datagram's total
/// length, capped by the buffer.
pub open spec fn spec_ipv4_payload(b: Seq<u8>) -> Seq<u8> {
    let h = spec_parse_ipv4(b)->Some_0;
    let declared = if h.total_len >= h.header_len {
        h.total_len - h.header_len
    } else {
        0
    };
    let avail = b.len() - h.header_len;
    let take = if declared <= avail {
        declared
    } else {
        avail as int
    };
    b.subrange(h.header_len as int, h.header_len + take)
}

pub fn parse_ipv4(b: &[u8]) -> (r: Option<Ipv4Header>)
    ensures
        r == spec_parse_ipv4(b@),
{
    if b.len() < IPV4_MIN_HEADER_LEN {
        return None;
    }
    let header_len: usize = ((b[0] % 16) as usize) * 4;
    if header_len < IPV4_MIN_HEADER_LEN || b.len() < header_len {
        return None;
    }
    Some(
        Ipv4Header {
            source: IpAddress::V4(b[12], b[13], b[14], b[15]),
            destination: IpAddress::V4(b[16], b[17], b[18], b[19]),
            protocol: b[9],
            header_len,
            total_len: be16(b, 2),
        },
    )
}

pub fn ipv4_payload<'a>(b: &'a [u8]) -> (p: &'a [u8])
    requires
        spec_parse_ipv4(b@) is Some,
    ensures
        p@ == spec_ipv4_payload(b@),
{
    let header_len: usize = ((b[0] % 16) as usize) * 4;
    let total_len: usize = be16(b, 2) as usize;
    let declared: usize = if total_len >= header_len {
        total_len - header_len
    } else {
        0
    };
    let avail: usize = b.len() - header_len;
    let take: usize = if declared <= avail {
        declared
    } else {
        avail
    };
    vstd::slice::slice_subrange(b, header_len, header_len + take)
}

// ----------------------------------------------------------------------
// IPv6

/// A parsed IPv6 fixed header.
#[derive(Debug, Clone, Copy, PartialEq, Eq, Structural)]
pub struct Ipv6Header {
    pub source: IpAddress,
    pub destination: IpAddress,
    pub next_header: u8,
    /// The header's payload length field, in bytes.
    pub payload_len: u16,
}

/// The sixteen-bit group of an IPv6 address starting at byte `at`.
pub open spec fn spec_ip6_group(b: Seq<u8>, at: int) -> u16 {
    spec_be16(b[at], b[at + 1])
}

/// The IPv6 grammar: a forty-byte fixed header with the next-header field at
/// offset 6, source address at 8 and destination address at 24.
pub open spec fn spec_parse_ipv6(b: Seq<u8>) -> Option<Ipv6Header> {
    if b.len() >= IPV6_HEADER_LEN {
        Some(
            Ipv6Header {
                source: IpAddress::V6(
                    spec_ip6_group(b, 8),
                    spec_ip6_group(b, 10),
                    spec_ip6_group(b, 12),
                    spec_ip6_group(b, 14),
                    spec_ip6_group(b, 16),
                    spec_ip6_group(b, 18),
                    spec_ip6_group(b, 20),
                    spec_ip6_group(b, 22),
                ),
                destination: IpAddress::V6(
                    spec_ip6_group(b, 24),
                    spec_ip6_group(b, 26),
                    spec_ip6_group(b, 28),
                    spec_ip6_group(b, 30),
                    spec_ip6_group(b, 32),
                    spec_ip6_group(b, 34),
                    spec_ip6_group(b, 36),
                    spec_ip6_group(b, 38),
                ),
                next_header: b[6],
                payload_len: spec_be16(b[4], b[5]),
            },
        )
    } else {
        None
    }
}

/// The IPv6 payload: the bytes after the fixed header, up to the declared
/// payload length, capped by the buffer.
pub open spec fn spec_ipv6_payload(b: Seq<u8>) -> Seq<u8> {
    let declared = spec_parse_ipv6(b)->Some_0.payload_len as int;
    let avail = b.len() - IPV6_HEADER_LEN;
    let take = if declared <= avail {
        declared
    } else {
        avail
    };
    b.subrange(IPV6_HEADER_LEN as int, IPV6_HEADER_LEN + take)
}

pub fn parse_ipv6(b: &[u8]) -> (r: Option<Ipv6Header>)
    ensures
        r == spec_parse_ipv6(b@),
{
    if b.len() < IPV6_HEADER_LEN {
        return None;
    }
    Some(
        Ipv6Header {
            source: IpAddress::V6(
                be16(b, 8),
                be16(b, 10),
                be16(b, 12),
                be16(b, 14),
                be16(b, 16),
                be16(b, 18),
                be16(b, 20),
                be16(b, 22),
            ),
            destination: IpAddress::V6(
                be16(b, 24),
                be16(b, 26),
                be16(b, 28),
                be16(b, 30),
                be16(b, 32),
                be16(b, 34),
                be16(b, 36),
                be16(b, 38),
            ),
            next_header: b[6],
            payload_len: be16(b, 4),
        },
    )
}

pub fn ipv6_payload<'a>(b: &'a [u8]) -> (p: &'a [u8])
    requires
        spec_parse_ipv6(b@) is Some,
    ensures
        p@ == spec_ipv6_payload(b@),
{
    let declared: usize = be16(b, 4) as usize;
    let avail: usize = b.len() - IPV6_HEADER_LEN;
    let take: usize = if declared <= avail {
        declared
    } else {
        avail
    };
    vstd::slice::slice_subrange(b, IPV6_HEADER_LEN, IPV6_HEADER_LEN + take)
}

// ----------------------------------------------------------------------
// Transport layers

/// A parsed TCP header: the two ports.
#[derive(Debug, Clone, Copy, PartialEq, Eq, Structural)]
pub struct TcpHeader {
    pub source: u16,
    pub destination: u16,
}

/// The TCP grammar: at least twenty bytes, source port at offset 0,
/// destination port at 2.
pub open spec fn spec_parse_tcp(b: Seq<u8>) -> Option<TcpHeader> {
    if b.len() >= TCP_MIN_HEADER_LEN {
        Some(TcpHeader { source: spec_be16(b[0], b[1]), destination: spec_be16(b[2], b[3]) })
    } else {
        None
    }
}

pub fn parse_tcp(b: &[u8]) -> (r: Option<TcpHeader>)
    ensures
        r == spec_parse_tcp(b@),
{
    if b.len() < TCP_MIN_HEADER_LEN {
        return None;
    }
    Some(TcpHeader { source: be16(b, 0), destination: be16(b, 2) })
}

/// A parsed UDP header.
#[derive(Debug, Clone, Copy, PartialEq, Eq, Structural)]
pub struct UdpHeader {
    pub source: u16,
    pub destination: u16,
    pub length: u16,
}

/// The UDP grammar: an eight-byte header of source port, destination port,
/// length and checksum.
pub open spec fn spec_parse_udp(b: Seq<u8>) -> Option<UdpHeader> {
    if b.len() >= UDP_HEADER_LEN {
        Some(
            UdpHeader {
                source: spec_be16(b[0], b[1]),
                destination: spec_be16(b[2], b[3]),
                length: spec_be16(b[4], b[5]),
            },
        )
    } else {
        None
    }
}

pub fn parse_udp(b: &[u8]) -> (r: Option<UdpHeader>)
    ensures
        r == spec_parse_udp(b@),
{
    if b.len() < UDP_HEADER_LEN {
        return None;
    }
    Some(UdpHeader { source: be16(b, 0), destination: be16(b, 2), length: be16(b, 4) })
}

/// A parsed ICMP header: type and code.
#[derive(Debug, Clone, Copy, PartialEq, Eq, Structural)]
pub struct IcmpHeader {
    pub icmp_type: u8,
    pub icmp_code: u8,
}

/// The ICMP grammar: at least type, code and checksum.
pub open spec fn spec_parse_icmp(b: Seq<u8>) -> Option<IcmpHeader> {
    if b.len() >= ICMP_MIN_LEN {
        Some(IcmpHeader { icmp_type: b[0], icmp_code: b[1] })
    } else {
        None
    }
}

pub fn parse_icmp(b: &[u8]) -> (r: Option<IcmpHeader>)
    ensures
        r == spec_parse_icmp(b@),
{
    if b.len() < ICMP_MIN_LEN {
        return None;
    }
    Some(IcmpHeader { icmp_type: b[0], icmp_code: b[1] })
}

/// A parsed ICMPv6 header: type and code.
#[derive(Debug, Clone, Copy, PartialEq, Eq, Structural)]
pub struct Icmpv6Header {
    pub icmpv6_type: u8,
    pub icmpv6_code: u8,
}

/// The ICMPv6 grammar: at least type, code and checksum.
pub open spec fn spec_parse_icmpv6(b: Seq<u8>) -> Option<Icmpv6Header> {
    if b.len() >= ICMP_MIN_LEN {
        Some(Icmpv6Header { icmpv6_type: b[0], icmpv6_code: b[1] })
    } else {
        None
    }
}

pub fn parse_icmpv6(b: &[u8]) -> (r: Option<Icmpv6Header>)
    ensures
        r == spec_parse_icmpv6(b@),
{
    if b.len() < ICMP_MIN_LEN {
        return None;
    }
    Some(Icmpv6Header { icmpv6_type: b[0], icmpv6_code: b[1] })
}

// ----------------------------------------------------------------------
// Direction classification per parsed layer: each header classifies by the
// address the packet is for.

impl IsIncoming for EthernetHeader {
    /// A frame is incoming when it is addressed to the interface's own
    /// hardware address.
    open spec fn spec_is_incoming(&self, interface: &InterfaceAddrs) -> bool {
        self.destination.spec_is_incoming(interface)
    }

    fn is_incoming(&self, interface: &InterfaceAddrs) -> (r: bool) {
        self.destination.is_incoming(interface)
    }
}

impl IsIncoming for ArpHeader {
    /// An ARP packet is incoming when its target protocol address is one of
    /// the interface's own: like every layer, direction goes by the address
    /// the packet is for.
    open spec fn spec_is_incoming(&self, interface: &InterfaceAddrs) -> bool {
        self.target_proto_addr.spec_is_incoming(interface)
    }

    fn is_incoming(&self, interface: &InterfaceAddrs) -> (r: bool) {
        self.target_proto_addr.is_incoming(interface)
    }
}

impl IsIncoming for Ipv4Header {
    /// A datagram is incoming when its destination address is one of the
    /// interface's own.
    open spec fn spec_is_incoming(&self, interface: &InterfaceAddrs) -> bool {
        self.destination.spec_is_incoming(interface)
    }

    fn is_incoming(&self, interface: &InterfaceAddrs) -> (r: bool) {
        self.destination.is_incoming(interface)
    }
}

impl IsIncoming for Ipv6Header {
    /// A datagram is incoming when its destination address is one of the
    /// interface's own.
    open spec fn spec_is_incoming(&self, interface: &InterfaceAddrs) -> bool {
        self.destination.spec_is_incoming(interface)
    }

    fn is_incoming(&self, interface: &InterfaceAddrs) -> (r: bool) {
        self.destination.is_incoming(interface)
    }
}

} // verus!
