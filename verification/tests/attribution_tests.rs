use netwatch::attribution::{
    build_inode_pid_map, build_inode_port_pairs, join_attribution, NameTable, PortToProcessTable,
    SocketRecord, TCP_STATE_LISTEN, UDP_STATE_ESTABLISHED,
};
use netwatch::pidmap::{parse_fast_path_source, parse_line, parse_pid, parse_u64_dec};

#[test]
fn parse_u64_accepts_plain_decimals() {
    assert_eq!(parse_u64_dec(b"0"), Some(0));
    assert_eq!(parse_u64_dec(b"12345"), Some(12345));
    assert_eq!(parse_u64_dec(b"18446744073709551615"), Some(u64::MAX));
}

#[test]
fn parse_u64_rejects_junk_and_overflow() {
    assert_eq!(parse_u64_dec(b""), None);
    assert_eq!(parse_u64_dec(b"12a4"), None);
    assert_eq!(parse_u64_dec(b" 12"), None);
    assert_eq!(parse_u64_dec(b"18446744073709551616"), None);
    assert_eq!(parse_u64_dec(b"99999999999999999999999"), None);
}

#[test]
fn parse_pid_handles_signs_and_bounds() {
    assert_eq!(parse_pid(b"42"), Some(42));
    assert_eq!(parse_pid(b"-7"), Some(-7));
    assert_eq!(parse_pid(b"2147483647"), Some(i32::MAX));
    assert_eq!(parse_pid(b"2147483648"), None);
    assert_eq!(parse_pid(b"-2147483648"), Some(i32::MIN));
    assert_eq!(parse_pid(b"-2147483649"), None);
    assert_eq!(parse_pid(b"-"), None);
    assert_eq!(parse_pid(b""), None);
}

#[test]
fn parse_line_reads_pid_name_and_inodes() {
    let line = b"42 'nginx: worker' 100 101 102";
    let (pid, inodes) = parse_line(line).unwrap();
    assert_eq!(pid, 42);
    assert_eq!(inodes, vec![100, 101, 102]);
}

#[test]
fn parse_line_drops_unparseable_inode_tokens() {
    let line = b"7 'sshd'  100 xyz  101 ";
    let (pid, inodes) = parse_line(line).unwrap();
    assert_eq!(pid, 7);
    assert_eq!(inodes, vec![100, 101]);
}

#[test]
fn parse_line_rejects_malformed_lines() {
    assert!(parse_line(b"").is_none());
    assert!(parse_line(b"42 no quotes here").is_none());
    assert!(parse_line(b"42 'only one quote").is_none());
    assert!(parse_line(b"notanumber 'name' 100").is_none());
}

#[test]
fn parse_source_skips_malformed_lines() {
    let data = b"42 'nginx' 100 101\nbroken line\n7 'sshd' 200\n";
    let entries = parse_fast_path_source(data);
    assert_eq!(entries.len(), 2);
    assert_eq!(entries[0].0, 42);
    assert_eq!(entries[0].1, vec![100, 101]);
    assert_eq!(entries[1].0, 7);
    assert_eq!(entries[1].1, vec![200]);
}

fn tcp_row(port: u16, state: u8, inode: u64) -> SocketRecord {
    SocketRecord { local_port: port, state_code: state, inode }
}

#[test]
fn inode_port_pairs_keep_only_wanted_states() {
    let tcp = vec![
        tcp_row(8080, TCP_STATE_LISTEN, 100),
        tcp_row(33000, 0x01, 200), // established client connection: excluded
    ];
    let tcp6 = vec![tcp_row(8443, TCP_STATE_LISTEN, 300)];
    let udp = vec![
        tcp_row(53, UDP_STATE_ESTABLISHED, 400),
        tcp_row(68, 0x07, 500), // closed: excluded
    ];
    let udp6 = vec![];
    let pairs = build_inode_port_pairs(&tcp, &tcp6, &udp, &udp6);
    assert_eq!(pairs, vec![(100, 8080), (300, 8443), (400, 53)]);
}

#[test]
fn inode_port_pairs_last_claim_wins() {
    // a duplicate inode across rows: the later row overwrites the port,
    // as a rebuilt map would hold the last write
    let tcp = vec![
        tcp_row(8080, TCP_STATE_LISTEN, 100),
        tcp_row(9090, TCP_STATE_LISTEN, 100),
    ];
    let pairs = build_inode_port_pairs(&tcp, &vec![], &vec![], &vec![]);
    assert_eq!(pairs, vec![(100, 9090)]);
}

#[test]
fn inode_pid_map_collects_pids_per_inode() {
    let entries = vec![(42, vec![100u64, 101]), (7, vec![100u64])];
    let m = build_inode_pid_map(&entries);
    assert_eq!(m.get(100).unwrap(), &vec![42, 7]);
    assert_eq!(m.get(101).unwrap(), &vec![42]);
    assert!(m.get(999).is_none());
}

#[test]
fn refresh_join_attributes_port_to_process() {
    let entries = vec![(42, vec![100u64])];
    let ipm = build_inode_pid_map(&entries);
    let mut names = NameTable::new();
    names.push(42, Some("worker".to_string()));
    let pairs = vec![(100u64, 8080u16)];
    let table = join_attribution(&pairs, &ipm, &names);
    let records = table.get(&8080).unwrap();
    assert_eq!(records.len(), 1);
    assert_eq!(records[0].pid, 42);
    assert_eq!(records[0].name, "worker");
    assert!(table.get(&80).is_none());
}

#[test]
fn refresh_join_skips_vanished_process_keeps_port() {
    let entries = vec![(42, vec![100u64])];
    let ipm = build_inode_pid_map(&entries);
    let mut names = NameTable::new();
    names.push(42, None); // pid 42 vanished before the name lookup
    let pairs = vec![(100u64, 8080u16)];
    let table = join_attribution(&pairs, &ipm, &names);
    let records = table.get(&8080).unwrap();
    assert_eq!(records.len(), 0);
}

#[test]
fn refresh_join_ignores_unresolved_inodes() {
    let ipm = build_inode_pid_map(&vec![]);
    let names = NameTable::new();
    let pairs = vec![(100u64, 8080u16)];
    let table = join_attribution(&pairs, &ipm, &names);
    assert!(table.get(&8080).is_none());
    assert_eq!(table.ports().len(), 0);
}

#[test]
fn refresh_from_fast_path_source_runs_against_live_socket_tables() {
    // Exercises the real kernel socket-table readers; the attribution content
    // depends on the machine, so only the call's success is interesting.
    let mut table = PortToProcessTable::new();
    let source = b"1 'init' 100\n".to_vec();
    let _ok = table.refresh(Some(&source));
}

#[test]
fn refresh_fallback_walks_the_process_table() {
    let mut table = PortToProcessTable::new();
    let _ok = table.refresh(None);
}

#[test]
fn parse_line_trims_carriage_returns_and_padding() {
    let line = b"  42  'nginx' 100 101\r";
    let (pid, inodes) = parse_line(line).unwrap();
    assert_eq!(pid, 42);
    assert_eq!(inodes, vec![100, 101]);
}

#[test]
fn parse_source_handles_trailing_newline_and_empty_lines() {
    let data = b"\n42 'a' 1\n\n7 'b' 2";
    let entries = parse_fast_path_source(data);
    assert_eq!(entries.len(), 2);
    assert_eq!(entries[0], (42, vec![1]));
    assert_eq!(entries[1], (7, vec![2]));
}
