use netwatch::addr::{InterfaceAddrs, IpAddress, IsIncoming, MacAddr};
use netwatch::app::{App, AppEvent};
use netwatch::packet::{ArpHeader, EthernetHeader, Ipv4Header};

#[test]
fn app_starts_running_with_its_title() {
    let app = App::new("netwatch");
    assert_eq!(app.title, "netwatch");
    assert!(!app.should_quit);
}

#[test]
fn q_asks_to_quit_other_keys_do_not() {
    let mut app = App::new("netwatch");
    app.on_key('x');
    assert!(!app.should_quit);
    app.on_key('q');
    assert!(app.should_quit);
    app.on_key('x');
    assert!(app.should_quit);
}

#[test]
fn navigation_and_ticks_leave_the_state_unchanged() {
    let mut app = App::new("netwatch");
    app.on_up();
    app.on_down();
    app.on_left();
    app.on_right();
    app.on_tick();
    assert_eq!(app.title, "netwatch");
    assert!(!app.should_quit);
}

#[test]
fn app_events_carry_input_or_tick() {
    let input: AppEvent<char> = AppEvent::Input('q');
    let tick: AppEvent<char> = AppEvent::Tick;
    match input {
        AppEvent::Input(c) => assert_eq!(c, 'q'),
        AppEvent::Tick => panic!("expected an input event"),
    }
    assert!(matches!(tick, AppEvent::Tick));
}

#[test]
fn own_ip_classifies_incoming_foreign_ip_outgoing() {
    let interface = InterfaceAddrs::new(None, vec![IpAddress::V4(192, 0, 2, 1)]);
    assert!(IpAddress::V4(192, 0, 2, 1).is_incoming(&interface));
    assert!(!IpAddress::V4(203, 0, 113, 5).is_incoming(&interface));
}

#[test]
fn address_family_must_match() {
    // an IPv6 destination is never contained in an IPv4 address set
    let interface = InterfaceAddrs::new(None, vec![IpAddress::V4(192, 0, 2, 1)]);
    assert!(!IpAddress::V6(0, 0, 0, 0, 0, 0, 0, 1).is_incoming(&interface));
    let v6_interface = InterfaceAddrs::new(None, vec![IpAddress::V6(0, 0, 0, 0, 0, 0, 0, 1)]);
    assert!(!IpAddress::V4(192, 0, 2, 1).is_incoming(&v6_interface));
}

#[test]
fn own_mac_classifies_incoming() {
    let mac = MacAddr(1, 2, 3, 4, 5, 6);
    let interface = InterfaceAddrs::new(Some(mac), vec![]);
    assert!(mac.is_incoming(&interface));
    assert!(!MacAddr(6, 5, 4, 3, 2, 1).is_incoming(&interface));
    let bare = InterfaceAddrs::new(None, vec![]);
    assert!(!mac.is_incoming(&bare));
}

#[test]
fn parsed_headers_classify_by_the_address_the_packet_is_for() {
    let mac = MacAddr(1, 2, 3, 4, 5, 6);
    let interface = InterfaceAddrs::new(Some(mac), vec![IpAddress::V4(192, 0, 2, 1)]);

    let eth = EthernetHeader { destination: mac, source: MacAddr(9, 9, 9, 9, 9, 9), ethertype: 0x0800 };
    assert!(eth.is_incoming(&interface));

    let arp = ArpHeader {
        operation: 1,
        sender_proto_addr: IpAddress::V4(203, 0, 113, 5),
        target_proto_addr: IpAddress::V4(192, 0, 2, 1),
    };
    assert!(arp.is_incoming(&interface));

    let ip = Ipv4Header {
        source: IpAddress::V4(192, 0, 2, 1),
        destination: IpAddress::V4(203, 0, 113, 5),
        protocol: 6,
        header_len: 20,
        total_len: 40,
    };
    // only the destination decides: a packet from our address going out
    assert!(!ip.is_incoming(&interface));
}
