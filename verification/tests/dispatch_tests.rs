use netwatch::addr::{InterfaceAddrs, IpAddress, MacAddr};
use netwatch::packet::{EthernetHeader, Ipv4Header, TcpHeader};
use netwatch::packet_monitor::{
    dispatch_frame, Event, Layer, PacketMonitor, SrcDest, ETHERTYPE_IPV4, PROTOCOL_TCP,
};

const DST_MAC: [u8; 6] = [0xaa, 0xbb, 0xcc, 0x00, 0x11, 0x22];
const SRC_MAC: [u8; 6] = [0x10, 0x20, 0x30, 0x40, 0x50, 0x60];

fn eth_frame(ethertype: u16, payload: &[u8]) -> Vec<u8> {
    let mut f = Vec::new();
    f.extend_from_slice(&DST_MAC);
    f.extend_from_slice(&SRC_MAC);
    f.push((ethertype >> 8) as u8);
    f.push((ethertype & 0xff) as u8);
    f.extend_from_slice(payload);
    f
}

fn ipv4_packet(src: [u8; 4], dst: [u8; 4], protocol: u8, payload: &[u8]) -> Vec<u8> {
    let total = 20 + payload.len();
    let mut p = vec![0u8; 20];
    p[0] = 0x45;
    p[2] = (total >> 8) as u8;
    p[3] = (total & 0xff) as u8;
    p[9] = protocol;
    p[12..16].copy_from_slice(&src);
    p[16..20].copy_from_slice(&dst);
    p.extend_from_slice(payload);
    p
}

fn tcp_segment(src_port: u16, dst_port: u16, len: usize) -> Vec<u8> {
    let mut s = vec![0u8; len];
    s[0] = (src_port >> 8) as u8;
    s[1] = (src_port & 0xff) as u8;
    s[2] = (dst_port >> 8) as u8;
    s[3] = (dst_port & 0xff) as u8;
    s
}

fn expected_eth_header() -> EthernetHeader {
    EthernetHeader {
        destination: MacAddr(0xaa, 0xbb, 0xcc, 0x00, 0x11, 0x22),
        source: MacAddr(0x10, 0x20, 0x30, 0x40, 0x50, 0x60),
        ethertype: ETHERTYPE_IPV4,
    }
}

#[test]
fn well_formed_tcp_frame_fires_four_observers_in_order() {
    let segment = tcp_segment(50000, 443, 100);
    let packet = ipv4_packet([192, 0, 2, 9], [10, 0, 0, 1], PROTOCOL_TCP, &segment);
    let frame = eth_frame(ETHERTYPE_IPV4, &packet);

    let events = dispatch_frame(&frame);

    let sd = SrcDest(IpAddress::V4(192, 0, 2, 9), IpAddress::V4(10, 0, 0, 1));
    assert_eq!(events.len(), 4);
    assert_eq!(
        events[0],
        Event::EthernetFrame { header: expected_eth_header(), frame_len: frame.len() }
    );
    assert_eq!(
        events[1],
        Event::Ipv4 {
            header: Ipv4Header {
                source: IpAddress::V4(192, 0, 2, 9),
                destination: IpAddress::V4(10, 0, 0, 1),
                protocol: PROTOCOL_TCP,
                header_len: 20,
                total_len: 120,
            },
        }
    );
    assert_eq!(
        events[2],
        Event::Transport { src_dest: sd, protocol: PROTOCOL_TCP, payload_len: 100 }
    );
    assert_eq!(
        events[3],
        Event::Tcp {
            src_dest: sd,
            header: TcpHeader { source: 50000, destination: 443 },
            size: 100,
        }
    );
}

#[test]
fn truncated_tcp_segment_reports_one_parse_failure() {
    let segment = tcp_segment(50000, 443, 100);
    let mut packet = ipv4_packet([192, 0, 2, 9], [10, 0, 0, 1], PROTOCOL_TCP, &segment);
    packet.truncate(20 + 10); // the TCP header needs 20 bytes; leave 10
    packet[2] = 0;
    packet[3] = 30;
    let frame = eth_frame(ETHERTYPE_IPV4, &packet);

    let events = dispatch_frame(&frame);

    assert_eq!(events.len(), 4);
    assert!(matches!(events[0], Event::EthernetFrame { .. }));
    assert!(matches!(events[1], Event::Ipv4 { .. }));
    assert!(matches!(events[2], Event::Transport { .. }));
    assert_eq!(events[3], Event::ParseFailure { layer: Layer::Tcp });
    assert!(events.iter().all(|e| !matches!(e, Event::Tcp { .. })));
}

#[test]
fn short_frame_is_a_link_layer_parse_failure() {
    let events = dispatch_frame(&[0u8; 13]);
    assert_eq!(events.len(), 1);
    assert_eq!(events[0], Event::ParseFailure { layer: Layer::Ethernet });
}

#[test]
fn unknown_ethertype_is_reported_not_fatal() {
    let frame = eth_frame(0x88cc, &[0u8; 30]);
    let events = dispatch_frame(&frame);
    assert_eq!(events.len(), 2);
    assert_eq!(events[1], Event::UnrecognizedEthertype { ethertype: 0x88cc });
}

#[test]
fn unknown_transport_protocol_is_reported() {
    let packet = ipv4_packet([192, 0, 2, 9], [10, 0, 0, 1], 0x2f, &[0u8; 16]);
    let frame = eth_frame(ETHERTYPE_IPV4, &packet);
    let events = dispatch_frame(&frame);
    let sd = SrcDest(IpAddress::V4(192, 0, 2, 9), IpAddress::V4(10, 0, 0, 1));
    assert_eq!(events.len(), 4);
    assert!(matches!(events[1], Event::Ipv4 { .. }));
    assert_eq!(
        events[2],
        Event::Transport { src_dest: sd, protocol: 0x2f, payload_len: 16 }
    );
    assert_eq!(
        events[3],
        Event::UnrecognizedProtocol { src_dest: sd, protocol: 0x2f, payload_len: 16 }
    );
}

#[test]
fn truncated_ipv4_header_is_a_parse_failure() {
    let frame = eth_frame(ETHERTYPE_IPV4, &[0x45u8; 12]);
    let events = dispatch_frame(&frame);
    assert_eq!(events.len(), 2);
    assert_eq!(events[1], Event::ParseFailure { layer: Layer::Ipv4 });
}

#[test]
fn udp_datagram_fires_udp_observer() {
    let mut datagram = vec![0u8; 40];
    datagram[0] = 0x13;
    datagram[1] = 0x88; // source port 5000
    datagram[2] = 0x00;
    datagram[3] = 0x35; // destination port 53
    datagram[4] = 0x00;
    datagram[5] = 40;
    let packet = ipv4_packet([192, 0, 2, 9], [10, 0, 0, 1], 17, &datagram);
    let frame = eth_frame(ETHERTYPE_IPV4, &packet);
    let events = dispatch_frame(&frame);
    assert_eq!(events.len(), 4);
    match &events[3] {
        Event::Udp { header, size, .. } => {
            assert_eq!(header.source, 5000);
            assert_eq!(header.destination, 53);
            assert_eq!(header.length, 40);
            assert_eq!(*size, 40);
        }
        other => panic!("expected a UDP observation, got {:?}", other),
    }
}

#[test]
fn arp_packet_fires_arp_observer() {
    let mut arp = vec![0u8; 28];
    arp[6] = 0;
    arp[7] = 1; // request
    arp[14..18].copy_from_slice(&[192, 0, 2, 1]);
    arp[24..28].copy_from_slice(&[192, 0, 2, 2]);
    let frame = eth_frame(0x0806, &arp);
    let events = dispatch_frame(&frame);
    assert_eq!(events.len(), 2);
    match &events[1] {
        Event::Arp { header } => {
            assert_eq!(header.operation, 1);
            assert_eq!(header.sender_proto_addr, IpAddress::V4(192, 0, 2, 1));
            assert_eq!(header.target_proto_addr, IpAddress::V4(192, 0, 2, 2));
        }
        other => panic!("expected an ARP observation, got {:?}", other),
    }
}

#[test]
fn truncated_arp_packet_is_a_parse_failure() {
    let frame = eth_frame(0x0806, &[0u8; 27]);
    let events = dispatch_frame(&frame);
    assert_eq!(events.len(), 2);
    assert_eq!(events[1], Event::ParseFailure { layer: Layer::Arp });
}

#[test]
fn icmp_packet_fires_icmp_observer() {
    let mut icmp = vec![0u8; 12];
    icmp[0] = 8; // echo request
    icmp[1] = 0;
    let packet = ipv4_packet([192, 0, 2, 9], [10, 0, 0, 1], 1, &icmp);
    let frame = eth_frame(ETHERTYPE_IPV4, &packet);
    let events = dispatch_frame(&frame);
    assert_eq!(events.len(), 4);
    match &events[3] {
        Event::Icmp { header, .. } => {
            assert_eq!(header.icmp_type, 8);
            assert_eq!(header.icmp_code, 0);
        }
        other => panic!("expected an ICMP observation, got {:?}", other),
    }
}

#[test]
fn ipv6_tcp_frame_reaches_the_tcp_layer() {
    let segment = tcp_segment(4242, 8443, 60);
    let mut packet = vec![0u8; 40];
    packet[0] = 0x60;
    packet[4] = 0;
    packet[5] = 60; // payload length
    packet[6] = PROTOCOL_TCP;
    packet[23] = 1; // source ::1-ish
    packet[39] = 2; // destination low byte
    packet.extend_from_slice(&segment);
    let frame = eth_frame(0x86dd, &packet);
    let events = dispatch_frame(&frame);
    assert_eq!(events.len(), 4);
    assert!(matches!(events[1], Event::Ipv6 { .. }));
    match &events[3] {
        Event::Tcp { header, size, .. } => {
            assert_eq!(header.source, 4242);
            assert_eq!(header.destination, 8443);
            assert_eq!(*size, 60);
        }
        other => panic!("expected a TCP observation, got {:?}", other),
    }
}

#[test]
fn end_to_end_three_segments_account_port_443() {
    let interface = InterfaceAddrs::new(
        Some(MacAddr(0xaa, 0xbb, 0xcc, 0x00, 0x11, 0x22)),
        vec![IpAddress::V4(10, 0, 0, 1)],
    );
    let mut monitor = PacketMonitor::new(interface);

    let mut total_frame_bytes: u64 = 0;
    for size in [100usize, 200, 50] {
        let segment = tcp_segment(50000, 443, size);
        let packet = ipv4_packet([192, 0, 2, 9], [10, 0, 0, 1], PROTOCOL_TCP, &segment);
        let frame = eth_frame(ETHERTYPE_IPV4, &packet);
        total_frame_bytes += frame.len() as u64;
        let events = monitor.handle_frame(&frame);
        assert_eq!(events.len(), 4);
    }

    // every segment was destined to the interface's own address: incoming
    let t = monitor.port_traffic(443).copied().unwrap();
    assert_eq!(t.incoming, 350);
    assert_eq!(t.outgoing, 0);

    // the interface total counted each whole frame, incoming by its MAC
    let total = monitor.total();
    assert_eq!(total.incoming, total_frame_bytes);
    assert_eq!(total.outgoing, 0);

    // one reporter tick drains; the live table keeps the port at zero
    let snapshot = monitor.drain_ports();
    assert_eq!(snapshot.len(), 1);
    assert_eq!(snapshot[0].0, 443);
    assert_eq!(snapshot[0].1.incoming, 350);
    assert_eq!(snapshot[0].1.outgoing, 0);
    let live = monitor.port_traffic(443).copied().unwrap();
    assert_eq!(live.incoming, 0);
    assert_eq!(live.outgoing, 0);

    let drained_total = monitor.drain_total();
    assert_eq!(drained_total.incoming, total_frame_bytes);
    assert_eq!(monitor.total().incoming, 0);
}

#[test]
fn outbound_segments_count_as_outgoing() {
    let interface = InterfaceAddrs::new(None, vec![IpAddress::V4(10, 0, 0, 1)]);
    let mut monitor = PacketMonitor::new(interface);
    let segment = tcp_segment(50000, 443, 80);
    // destination is not one of the interface's addresses: outgoing
    let packet = ipv4_packet([10, 0, 0, 1], [203, 0, 113, 5], PROTOCOL_TCP, &segment);
    let frame = eth_frame(ETHERTYPE_IPV4, &packet);
    monitor.handle_frame(&frame);
    let t = monitor.port_traffic(443).copied().unwrap();
    assert_eq!(t.incoming, 0);
    assert_eq!(t.outgoing, 80);
}

#[test]
fn truncated_udp_datagram_is_a_parse_failure() {
    let packet = ipv4_packet([192, 0, 2, 9], [10, 0, 0, 1], 17, &[0u8; 7]);
    let frame = eth_frame(ETHERTYPE_IPV4, &packet);
    let events = dispatch_frame(&frame);
    assert_eq!(events.len(), 4);
    assert_eq!(events[3], Event::ParseFailure { layer: Layer::Udp });
}

#[test]
fn truncated_icmp_packet_is_a_parse_failure() {
    let packet = ipv4_packet([192, 0, 2, 9], [10, 0, 0, 1], 1, &[0u8; 3]);
    let frame = eth_frame(ETHERTYPE_IPV4, &packet);
    let events = dispatch_frame(&frame);
    assert_eq!(events.len(), 4);
    assert_eq!(events[3], Event::ParseFailure { layer: Layer::Icmp });
}

#[test]
fn truncated_icmpv6_packet_is_a_parse_failure() {
    let mut packet = vec![0u8; 40];
    packet[0] = 0x60;
    packet[4] = 0;
    packet[5] = 3;
    packet[6] = 58;
    packet.extend_from_slice(&[0u8; 3]);
    let frame = eth_frame(0x86dd, &packet);
    let events = dispatch_frame(&frame);
    assert_eq!(events.len(), 4);
    assert_eq!(events[3], Event::ParseFailure { layer: Layer::Icmpv6 });
}

#[test]
fn truncated_ipv6_header_is_a_parse_failure() {
    let frame = eth_frame(0x86dd, &[0x60u8; 39]);
    let events = dispatch_frame(&frame);
    assert_eq!(events.len(), 2);
    assert_eq!(events[1], Event::ParseFailure { layer: Layer::Ipv6 });
}

#[test]
fn ipv4_options_shift_the_payload() {
    // a 24-byte header (IHL of six words); the segment follows the options
    let segment = tcp_segment(50000, 443, 40);
    let total = 24 + segment.len();
    let mut packet = vec![0u8; 24];
    packet[0] = 0x46;
    packet[2] = (total >> 8) as u8;
    packet[3] = (total & 0xff) as u8;
    packet[9] = PROTOCOL_TCP;
    packet[12..16].copy_from_slice(&[192, 0, 2, 9]);
    packet[16..20].copy_from_slice(&[10, 0, 0, 1]);
    packet.extend_from_slice(&segment);
    let frame = eth_frame(ETHERTYPE_IPV4, &packet);
    let events = dispatch_frame(&frame);
    assert_eq!(events.len(), 4);
    match &events[3] {
        Event::Tcp { header, size, .. } => {
            assert_eq!(header.destination, 443);
            assert_eq!(*size, 40);
        }
        other => panic!("expected a TCP observation, got {:?}", other),
    }
}
