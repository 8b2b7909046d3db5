//! The layered protocol dispatcher and the traffic monitor built on it.
//!
//! `dispatch_frame` consumes one raw link-layer frame and produces the exact
//! sequence of observation events the layered parse gives rise to: one event
//! per layer reached, a parse-failure event where a sub-layer is malformed,
//! and an unrecognized-layer event for an unknown ethertype or transport
//! protocol. A malformed sub-layer never aborts the stream: dispatch always
//! returns, and the next frame is processed normally.
//!
//! `PacketMonitor` folds those events into the shared accounting state: the
//! interface-wide total and the per-destination-port table.

use vstd::prelude::*;

use crate::addr::{InterfaceAddrs, IpAddress, IsIncoming};
use crate::packet::{
    parse_arp, parse_ethernet, parse_icmp, parse_icmpv6, parse_ipv4, parse_ipv6, parse_tcp,
    parse_udp, ethernet_payload, ipv4_payload, ipv6_payload, spec_ethernet_payload,
    spec_ipv4_payload, spec_ipv6_payload, spec_parse_arp, spec_parse_ethernet, spec_parse_icmp,
    spec_parse_icmpv6, spec_parse_ipv4, spec_parse_ipv6, spec_parse_tcp, spec_parse_udp,
    ArpHeader, EthernetHeader, IcmpHeader, Icmpv6Header, Ipv4Header, Ipv6Header, TcpHeader,
    UdpHeader,
};
use crate::table::{bumped, dir_fits, entry_or_zero, table_after_incr, ConnectionTable, Port};
use crate::transfer::Transfer;

verus! {

/// Ethertype of IPv4.
pub const ETHERTYPE_IPV4: u16 = 0x0800;

/// Ethertype of ARP.
pub const ETHERTYPE_ARP: u16 = 0x0806;

/// Ethertype of IPv6.
pub const ETHERTYPE_IPV6: u16 = 0x86DD;

/// IP protocol number of ICMP.
pub const PROTOCOL_ICMP: u8 = 1;

/// IP protocol number of TCP.
pub const PROTOCOL_TCP: u8 = 6;

/// IP protocol number of UDP.
pub const PROTOCOL_UDP: u8 = 17;

/// IP protocol number of ICMPv6.
pub const PROTOCOL_ICMPV6: u8 = 58;

/// The source and destination addresses of an IP-layer packet.
#[derive(Debug, Clone, Copy, PartialEq, Eq, Structural)]
pub struct SrcDest(pub IpAddress, pub IpAddress);

/// A protocol layer the dispatcher can reach.
#[derive(Debug, Clone, Copy, PartialEq, Eq, Structural)]
pub enum Layer {
    Ethernet,
    Arp,
    Ipv4,
    Ipv6,
    Tcp,
    Udp,
    Icmp,
    Icmpv6,
}

/// One observation the dispatch of a frame gives rise to, in dispatch order.
#[derive(Debug, Clone, PartialEq, Eq, Structural)]
pub enum Event {
    /// The Ethernet header parsed; `frame_len` is the whole frame's length.
    EthernetFrame { header: EthernetHeader, frame_len: usize },
    /// An ARP packet parsed.
    Arp { header: ArpHeader },
    /// An IPv4 header parsed.
    Ipv4 { header: Ipv4Header },
    /// An IPv6 header parsed.
    Ipv6 { header: Ipv6Header },
    /// The transport layer was reached, whatever the protocol number.
    Transport { src_dest: SrcDest, protocol: u8, payload_len: usize },
    /// A TCP header parsed; `size` is the whole segment's length.
    Tcp { src_dest: SrcDest, header: TcpHeader, size: usize },
    /// A UDP header parsed; `size` is the whole datagram's length.
    Udp { src_dest: SrcDest, header: UdpHeader, size: usize },
    /// An ICMP header parsed.
    Icmp { src_dest: SrcDest, header: IcmpHeader, size: usize },
    /// An ICMPv6 header parsed.
    Icmpv6 { src_dest: SrcDest, header: Icmpv6Header, size: usize },
    /// Malformed bytes at the given layer; the frame is dropped there.
    ParseFailure { layer: Layer },
    /// A valid Ethernet header whose ethertype the dispatcher does not know.
    UnrecognizedEthertype { ethertype: u16 },
    /// A reached transport layer whose protocol number the dispatcher does
    /// not know.
    UnrecognizedProtocol { src_dest: SrcDest, protocol: u8, payload_len: usize },
}

// ----------------------------------------------------------------------
// The dispatch grammar: which events a frame gives rise to, in order.

/// Events of dispatching a TCP segment.
pub open spec fn spec_tcp_events(src_dest: SrcDest, b: Seq<u8>) -> Seq<Event> {
    match spec_parse_tcp(b) {
        Some(h) => seq![Event::Tcp { src_dest, header: h, size: b.len() as usize }],
        None => seq![Event::ParseFailure { layer: Layer::Tcp }],
    }
}

/// Events of dispatching a UDP datagram.
pub open spec fn spec_udp_events(src_dest: SrcDest, b: Seq<u8>) -> Seq<Event> {
    match spec_parse_udp(b) {
        Some(h) => seq![Event::Udp { src_dest, header: h, size: b.len() as usize }],
        None => seq![Event::ParseFailure { layer: Layer::Udp }],
    }
}

/// Events of dispatching an ICMP packet.
pub open spec fn spec_icmp_events(src_dest: SrcDest, b: Seq<u8>) -> Seq<Event> {
    match spec_parse_icmp(b) {
        Some(h) => seq![Event::Icmp { src_dest, header: h, size: b.len() as usize }],
        None => seq![Event::ParseFailure { layer: Layer::Icmp }],
    }
}

/// Events of dispatching an ICMPv6 packet.
pub open spec fn spec_icmpv6_events(src_dest: SrcDest, b: Seq<u8>) -> Seq<Event> {
    match spec_parse_icmpv6(b) {
        Some(h) => seq![Event::Icmpv6 { src_dest, header: h, size: b.len() as usize }],
        None => seq![Event::ParseFailure { layer: Layer::Icmpv6 }],
    }
}

/// Events of the transport dispatch step: the transport observer fires as
/// soon as the layer is reached, whatever the protocol; a known protocol is
/// then parsed, an unknown one reported.
pub open spec fn spec_transport_events(src_dest: SrcDest, protocol: u8, b: Seq<u8>) -> Seq<Event> {
    seq![Event::Transport { src_dest, protocol, payload_len: b.len() as usize }] + if protocol
        == PROTOCOL_UDP {
        spec_udp_events(src_dest, b)
    } else if protocol == PROTOCOL_TCP {
        spec_tcp_events(src_dest, b)
    } else if protocol == PROTOCOL_ICMP {
        spec_icmp_events(src_dest, b)
    } else if protocol == PROTOCOL_ICMPV6 {
        spec_icmpv6_events(src_dest, b)
    } else {
        seq![Event::UnrecognizedProtocol { src_dest, protocol, payload_len: b.len() as usize }]
    }
}

/// Events of dispatching an ARP payload.
pub open spec fn spec_arp_events(b: Seq<u8>) -> Seq<Event> {
    match spec_parse_arp(b) {
        Some(h) => seq![Event::Arp { header: h }],
        None => seq![Event::ParseFailure { layer: Layer::Arp }],
    }
}

/// Events of dispatching an IPv4 payload: the parsed header, then the
/// transport step on the datagram's payload.
pub open spec fn spec_ipv4_events(b: Seq<u8>) -> Seq<Event> {
    match spec_parse_ipv4(b) {
        Some(h) => seq![Event::Ipv4 { header: h }] + spec_transport_events(
            SrcDest(h.source, h.destination),
            h.protocol,
            spec_ipv4_payload(b),
        ),
        None => seq![Event::ParseFailure { layer: Layer::Ipv4 }],
    }
}

/// Events of dispatching an IPv6 payload.
pub open spec fn spec_ipv6_events(b: Seq<u8>) -> Seq<Event> {
    match spec_parse_ipv6(b) {
        Some(h) => seq![Event::Ipv6 { header: h }] + spec_transport_events(
            SrcDest(h.source, h.destination),
            h.next_header,
            spec_ipv6_payload(b),
        ),
        None => seq![Event::ParseFailure { layer: Layer::Ipv6 }],
    }
}

/// Events of dispatching one whole link-layer frame.
pub open spec fn spec_dispatch_frame(b: Seq<u8>) -> Seq<Event> {
    match spec_parse_ethernet(b) {
        Some(eth) => seq![Event::EthernetFrame { header: eth, frame_len: b.len() as usize }] + {
            let payload = spec_ethernet_payload(b);
            if eth.ethertype == ETHERTYPE_IPV4 {
                spec_ipv4_events(payload)
            } else if eth.ethertype == ETHERTYPE_IPV6 {
                spec_ipv6_events(payload)
            } else if eth.ethertype == ETHERTYPE_ARP {
                spec_arp_events(payload)
            } else {
                seq![Event::UnrecognizedEthertype { ethertype: eth.ethertype }]
            }
        },
        None => seq![Event::ParseFailure { layer: Layer::Ethernet }],
    }
}

// ----------------------------------------------------------------------
// The executable dispatcher.

fn handle_tcp_packet(src_dest: SrcDest, packet: &[u8], events: &mut Vec<Event>)
    ensures
        final(events)@ == old(events)@ + spec_tcp_events(src_dest, packet@),
{
    match parse_tcp(packet) {
        Some(h) => events.push(Event::Tcp { src_dest, header: h, size: packet.len() }),
        None => events.push(Event::ParseFailure { layer: Layer::Tcp }),
    }
}

fn handle_udp_packet(src_dest: SrcDest, packet: &[u8], events: &mut Vec<Event>)
    ensures
        final(events)@ == old(events)@ + spec_udp_events(src_dest, packet@),
{
    match parse_udp(packet) {
        Some(h) => events.push(Event::Udp { src_dest, header: h, size: packet.len() }),
        None => events.push(Event::ParseFailure { layer: Layer::Udp }),
    }
}

fn handle_icmp_packet(src_dest: SrcDest, packet: &[u8], events: &mut Vec<Event>)
    ensures
        final(events)@ == old(events)@ + spec_icmp_events(src_dest, packet@),
{
    match parse_icmp(packet) {
        Some(h) => events.push(Event::Icmp { src_dest, header: h, size: packet.len() }),
        None => events.push(Event::ParseFailure { layer: Layer::Icmp }),
    }
}

fn handle_icmpv6_packet(src_dest: SrcDest, packet: &[u8], events: &mut Vec<Event>)
    ensures
        final(events)@ == old(events)@ + spec_icmpv6_events(src_dest, packet@),
{
    match parse_icmpv6(packet) {
        Some(h) => events.push(Event::Icmpv6 { src_dest, header: h, size: packet.len() }),
        None => events.push(Event::ParseFailure { layer: Layer::Icmpv6 }),
    }
}

fn handle_transport_protocol(src_dest: SrcDest, protocol: u8, packet: &[u8], events: &mut Vec<Event>)
    ensures
        final(events)@ == old(events)@ + spec_transport_events(src_dest, protocol, packet@),
{
    events.push(Event::Transport { src_dest, protocol, payload_len: packet.len() });
    if protocol == PROTOCOL_UDP {
        handle_udp_packet(src_dest, packet, events);
    } else if protocol == PROTOCOL_TCP {
        handle_tcp_packet(src_dest, packet, events);
    } else if protocol == PROTOCOL_ICMP {
        handle_icmp_packet(src_dest, packet, events);
    } else if protocol == PROTOCOL_ICMPV6 {
        handle_icmpv6_packet(src_dest, packet, events);
    } else {
        events.push(
            Event::UnrecognizedProtocol { src_dest, protocol, payload_len: packet.len() },
        );
    }
}

fn handle_arp_packet(packet: &[u8], events: &mut Vec<Event>)
    ensures
        final(events)@ == old(events)@ + spec_arp_events(packet@),
{
    match parse_arp(packet) {
        Some(h) => events.push(Event::Arp { header: h }),
        None => events.push(Event::ParseFailure { layer: Layer::Arp }),
    }
}

fn handle_ipv4_packet(packet: &[u8], events: &mut Vec<Event>)
    ensures
        final(events)@ == old(events)@ + spec_ipv4_events(packet@),
{
    match parse_ipv4(packet) {
        Some(h) => {
            events.push(Event::Ipv4 { header: h });
            let payload = ipv4_payload(packet);
            handle_transport_protocol(
                SrcDest(h.source, h.destination),
                h.protocol,
                payload,
                events,
            );
        },
        None => events.push(Event::ParseFailure { layer: Layer::Ipv4 }),
    }
}

fn handle_ipv6_packet(packet: &[u8], events: &mut Vec<Event>)
    ensures
        final(events)@ == old(events)@ + spec_ipv6_events(packet@),
{
    match parse_ipv6(packet) {
        Some(h) => {
            events.push(Event::Ipv6 { header: h });
            let payload = ipv6_payload(packet);
            handle_transport_protocol(
                SrcDest(h.source, h.destination),
                h.next_header,
                payload,
                events,
            );
        },
        None => events.push(Event::ParseFailure { layer: Layer::Ipv6 }),
    }
}

/// Dispatch one raw link-layer frame through every layer it reaches and
/// return the observations, in dispatch order. Never panics, whatever the
/// bytes hold; a malformed sub-layer yields a parse-failure observation and
/// ends the frame's dispatch.
pub fn dispatch_frame(frame: &[u8]) -> (events: Vec<Event>)
    ensures
        events@ == spec_dispatch_frame(frame@),
{
    let mut events: Vec<Event> = Vec::new();
    match parse_ethernet(frame) {
        Some(eth) => {
            events.push(Event::EthernetFrame { header: eth, frame_len: frame.len() });
            let payload = ethernet_payload(frame);
            if eth.ethertype == ETHERTYPE_IPV4 {
                handle_ipv4_packet(payload, &mut events);
            } else if eth.ethertype == ETHERTYPE_IPV6 {
                handle_ipv6_packet(payload, &mut events);
            } else if eth.ethertype == ETHERTYPE_ARP {
                handle_arp_packet(payload, &mut events);
            } else {
                events.push(Event::UnrecognizedEthertype { ethertype: eth.ethertype });
            }
        },
        None => events.push(Event::ParseFailure { layer: Layer::Ethernet }),
    }
    events
}

// ----------------------------------------------------------------------
// Dispatch laws: a well-formed frame reaches every layer exactly once, in
// order; a truncated transport layer stops there with one failure report.

/// A frame whose Ethernet, IPv4 and TCP layers all parse.
pub open spec fn wf_eth_ipv4_tcp_frame(b: Seq<u8>) -> bool {
    &&& spec_parse_ethernet(b) is Some
    &&& spec_parse_ethernet(b)->Some_0.ethertype == ETHERTYPE_IPV4
    &&& spec_parse_ipv4(spec_ethernet_payload(b)) is Some
    &&& spec_parse_ipv4(spec_ethernet_payload(b))->Some_0.protocol == PROTOCOL_TCP
    &&& spec_parse_tcp(spec_ipv4_payload(spec_ethernet_payload(b))) is Some
}

/// A well-formed Ethernet+IPv4+TCP frame gives exactly four events — the
/// Ethernet, IPv4, transport and TCP observations — once each, in that
/// order.
pub proof fn lemma_dispatch_eth_ipv4_tcp(b: Seq<u8>)
    requires
        wf_eth_ipv4_tcp_frame(b),
    ensures
        ({
            let eth = spec_parse_ethernet(b)->Some_0;
            let ip = spec_parse_ipv4(spec_ethernet_payload(b))->Some_0;
            let segment = spec_ipv4_payload(spec_ethernet_payload(b));
            let tcp = spec_parse_tcp(segment)->Some_0;
            let sd = SrcDest(ip.source, ip.destination);
            spec_dispatch_frame(b) =~= seq![
                Event::EthernetFrame { header: eth, frame_len: b.len() as usize },
                Event::Ipv4 { header: ip },
                Event::Transport { src_dest: sd, protocol: PROTOCOL_TCP, payload_len: segment.len() as usize },
                Event::Tcp { src_dest: sd, header: tcp, size: segment.len() as usize },
            ]
        }),
{
}

/// A frame with valid Ethernet and IPv4 headers but a truncated TCP segment
/// still fires the Ethernet, IPv4 and transport observations, reports one
/// parse failure at the TCP layer, and fires no TCP observation.
pub proof fn lemma_dispatch_truncated_tcp(b: Seq<u8>)
    requires
        spec_parse_ethernet(b) is Some,
        spec_parse_ethernet(b)->Some_0.ethertype == ETHERTYPE_IPV4,
        spec_parse_ipv4(spec_ethernet_payload(b)) is Some,
        spec_parse_ipv4(spec_ethernet_payload(b))->Some_0.protocol == PROTOCOL_TCP,
        spec_parse_tcp(spec_ipv4_payload(spec_ethernet_payload(b))) is None,
    ensures
        ({
            let eth = spec_parse_ethernet(b)->Some_0;
            let ip = spec_parse_ipv4(spec_ethernet_payload(b))->Some_0;
            let segment = spec_ipv4_payload(spec_ethernet_payload(b));
            let sd = SrcDest(ip.source, ip.destination);
            spec_dispatch_frame(b) =~= seq![
                Event::EthernetFrame { header: eth, frame_len: b.len() as usize },
                Event::Ipv4 { header: ip },
                Event::Transport { src_dest: sd, protocol: PROTOCOL_TCP, payload_len: segment.len() as usize },
                Event::ParseFailure { layer: Layer::Tcp },
            ]
        }),
        forall|i: int|
            0 <= i < spec_dispatch_frame(b).len() ==> !(#[trigger] spec_dispatch_frame(b)[i]
                is Tcp),
{
}

// ----------------------------------------------------------------------
// The traffic monitor: accounting the dispatch events.

/// How one event changes the accounting state: an Ethernet observation adds
/// the frame's bytes to the interface total, a TCP or UDP observation adds
/// the segment's bytes to its destination port, all classified by whether
/// the destination address is the interface's own. An addition whose counter
/// cannot take it leaves the state unchanged; every other event is
/// observational only.
pub open spec fn spec_apply_event(
    total: Transfer,
    ports: Map<Port, Transfer>,
    interface: InterfaceAddrs,
    ev: Event,
) -> (Transfer, Map<Port, Transfer>) {
    match ev {
        Event::EthernetFrame { header, frame_len } => {
            let incoming = header.destination.spec_is_incoming(&interface);
            let size = frame_len as u64;
            if dir_fits(total, incoming, size) {
                (bumped(total, incoming, size), ports)
            } else {
                (total, ports)
            }
        },
        Event::Tcp { src_dest, header, size } => {
            let incoming = src_dest.1.spec_is_incoming(&interface);
            let sz = size as u64;
            if dir_fits(entry_or_zero(ports, header.destination), incoming, sz) {
                (total, table_after_incr(ports, incoming, header.destination, sz))
            } else {
                (total, ports)
            }
        },
        Event::Udp { src_dest, header, size } => {
            let incoming = src_dest.1.spec_is_incoming(&interface);
            let sz = size as u64;
            if dir_fits(entry_or_zero(ports, header.destination), incoming, sz) {
                (total, table_after_incr(ports, incoming, header.destination, sz))
            } else {
                (total, ports)
            }
        },
        _ => (total, ports),
    }
}

/// The accounting state after a whole event sequence, applied in order.
pub open spec fn spec_apply_events(
    total: Transfer,
    ports: Map<Port, Transfer>,
    interface: InterfaceAddrs,
    evs: Seq<Event>,
) -> (Transfer, Map<Port, Transfer>)
    decreases evs.len(),
{
    if evs.len() == 0 {
        (total, ports)
    } else {
        let prev = spec_apply_events(total, ports, interface, evs.drop_last());
        spec_apply_event(prev.0, prev.1, interface, evs.last())
    }
}

/// The per-frame monitor: it owns the capture interface's addresses, the
/// interface-wide total and the per-port table, and folds each captured
/// frame's dispatch events into them.
pub struct PacketMonitor {
    /// The capture interface's bound addresses.
    pub interface: InterfaceAddrs,
    total: Transfer,
    ports: ConnectionTable,
}

impl PacketMonitor {
    /// The capture interface's bound addresses, as the contracts see them.
    pub closed spec fn interface_view(&self) -> InterfaceAddrs {
        self.interface
    }

    /// The interface-wide total accumulated since the last drain.
    pub closed spec fn total_view(&self) -> Transfer {
        self.total
    }

    /// The per-port accounting accumulated since the last drain.
    pub closed spec fn port_map(&self) -> Map<Port, Transfer> {
        self.ports.map()
    }

    /// The ports of the table, in first-traffic order.
    pub closed spec fn port_order(&self) -> Seq<Port> {
        self.ports.port_order()
    }

    pub closed spec fn wf(&self) -> bool {
        self.ports.wf()
    }

    pub fn new(interface: InterfaceAddrs) -> (m: PacketMonitor)
        ensures
            m.wf(),
            m.interface_view() == interface,
            crate::transfer::is_zero(m.total_view()),
            m.port_map() == Map::<Port, Transfer>::empty(),
            m.port_order() == Seq::<Port>::empty(),
    {
        PacketMonitor { interface, total: Transfer::new(), ports: ConnectionTable::new() }
    }

    /// Fold one event into the accounting state.
    fn apply_event(&mut self, ev: &Event)
        requires
            old(self).wf(),
        ensures
            final(self).wf(),
            final(self).interface_view() == old(self).interface_view(),
            (final(self).total_view(), final(self).port_map()) == spec_apply_event(
                old(self).total_view(),
                old(self).port_map(),
                old(self).interface_view(),
                *ev,
            ),
    {
        match ev {
            Event::EthernetFrame { header, frame_len } => {
                let size = *frame_len as u64;
                if header.destination.is_incoming(&self.interface) {
                    if self.total.incoming <= u64::MAX - size {
                        self.total.incr_incoming(size);
                    }
                } else {
                    if self.total.outgoing <= u64::MAX - size {
                        self.total.incr_outgoing(size);
                    }
                }
            },
            Event::Tcp { src_dest, header, size } => {
                self.account_port(src_dest.1, header.destination, *size);
            },
            Event::Udp { src_dest, header, size } => {
                self.account_port(src_dest.1, header.destination, *size);
            },
            _ => {},
        }
    }

    /// Add a transport segment's bytes to its destination port.
    fn account_port(&mut self, destination: IpAddress, port: Port, size: usize)
        requires
            old(self).wf(),
        ensures
            final(self).wf(),
            final(self).interface_view() == old(self).interface_view(),
            final(self).total_view() == old(self).total_view(),
            ({
                let incoming = destination.spec_is_incoming(&old(self).interface_view());
                let sz = size as u64;
                final(self).port_map() == if dir_fits(
                    entry_or_zero(old(self).port_map(), port),
                    incoming,
                    sz,
                ) {
                    table_after_incr(old(self).port_map(), incoming, port, sz)
                } else {
                    old(self).port_map()
                }
            }),
    {
        let sz = size as u64;
        let incoming = destination.is_incoming(&self.interface);
        let current: Transfer = match self.ports.get(port) {
            Some(t) => *t,
            None => Transfer::new(),
        };
        if incoming {
            if current.incoming <= u64::MAX - sz {
                self.ports.incr_incoming(port, sz);
            }
        } else {
            if current.outgoing <= u64::MAX - sz {
                self.ports.incr_outgoing(port, sz);
            }
        }
    }

    /// Dispatch one captured frame and fold every resulting observation into
    /// the accounting state. Returns the observations for any further
    /// consumer.
    pub fn handle_frame(&mut self, frame: &[u8]) -> (events: Vec<Event>)
        requires
            old(self).wf(),
        ensures
            final(self).wf(),
            final(self).interface_view() == old(self).interface_view(),
            events@ == spec_dispatch_frame(frame@),
            (final(self).total_view(), final(self).port_map()) == spec_apply_events(
                old(self).total_view(),
                old(self).port_map(),
                old(self).interface_view(),
                events@,
            ),
    {
        let events = dispatch_frame(frame);
        let n = events.len();
        assert(events@.take(0) =~= Seq::<Event>::empty());
        for i in 0..n
            invariant
                self.wf(),
                self.interface_view() == old(self).interface_view(),
                n == events@.len(),
                (self.total_view(), self.port_map()) == spec_apply_events(
                    old(self).total_view(),
                    old(self).port_map(),
                    old(self).interface_view(),
                    events@.take(i as int),
                ),
        {
            self.apply_event(&events[i]);
            proof {
                assert(events@.take(i + 1).drop_last() =~= events@.take(i as int));
                assert(events@.take(i + 1).last() == events@[i as int]);
            }
        }
        proof {
            assert(events@.take(n as int) =~= events@);
        }
        events
    }

    /// The accumulator for `port`, if any traffic for it has been seen since
    /// the last drain.
    pub fn port_traffic(&self, port: Port) -> (r: Option<&Transfer>)
        requires
            self.wf(),
        ensures
            match r {
                Some(t) => self.port_map().contains_key(port) && *t == self.port_map()[port],
                None => !self.port_map().contains_key(port),
            },
    {
        self.ports.get(port)
    }

    /// The interface-wide total accumulated since the last drain.
    pub fn total(&self) -> (t: Transfer)
        ensures
            t == self.total_view(),
    {
        self.total
    }

    /// Atomically take and zero the interface-wide total.
    pub fn drain_total(&mut self) -> (snapshot: Transfer)
        requires
            old(self).wf(),
        ensures
            final(self).wf(),
            final(self).interface_view() == old(self).interface_view(),
            snapshot == old(self).total_view(),
            crate::transfer::is_zero(final(self).total_view()),
            final(self).port_map() == old(self).port_map(),
            final(self).port_order() == old(self).port_order(),
    {
        self.total.drain_and_reset()
    }

    /// Atomically snapshot and zero the per-port table: ports stay, counters
    /// restart at zero, and each accounted byte shows up in exactly one
    /// drain.
    pub fn drain_ports(&mut self) -> (snapshot: Vec<(Port, Transfer)>)
        requires
            old(self).wf(),
        ensures
            final(self).wf(),
            final(self).interface_view() == old(self).interface_view(),
            snapshot@ == crate::table::drain_snapshot(old(self).port_map(), old(self).port_order()),
            final(self).port_order() == old(self).port_order(),
            final(self).port_map().dom() == old(self).port_map().dom(),
            crate::table::all_zero(final(self).port_map()),
            final(self).total_view() == old(self).total_view(),
    {
        self.ports.drain_and_reset()
    }
}

} // verus!
