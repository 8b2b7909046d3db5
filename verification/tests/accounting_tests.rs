use netwatch::attribution::{NameTable, PortToProcessTable};
use netwatch::list::ConnectionList;
use netwatch::reporter::join_snapshot;
use netwatch::table::ConnectionTable;
use netwatch::transfer::Transfer;

fn transfer(incoming: u64, outgoing: u64) -> Transfer {
    let mut t = Transfer::new();
    t.incr_incoming(incoming);
    t.incr_outgoing(outgoing);
    t
}

#[test]
fn table_first_traffic_creates_entry_with_size() {
    let mut table = ConnectionTable::new();
    table.incr_incoming(443, 100);
    let t = table.get(443).copied().unwrap();
    assert_eq!(t.incoming, 100);
    assert_eq!(t.outgoing, 0);
    assert!(table.get(80).is_none());
}

#[test]
fn table_accumulates_per_port_and_direction() {
    let mut table = ConnectionTable::new();
    table.incr_incoming(443, 100);
    table.incr_incoming(443, 200);
    table.incr_outgoing(443, 5);
    table.incr_outgoing(80, 7);
    let https = table.get(443).copied().unwrap();
    assert_eq!(https.incoming, 300);
    assert_eq!(https.outgoing, 5);
    let http = table.get(80).copied().unwrap();
    assert_eq!(http.incoming, 0);
    assert_eq!(http.outgoing, 7);
}

#[test]
fn table_drain_snapshots_and_keeps_zeroed_ports() {
    let mut table = ConnectionTable::new();
    table.incr_incoming(443, 350);
    table.incr_outgoing(80, 25);
    let snapshot = table.drain_and_reset();
    assert_eq!(snapshot.len(), 2);
    assert_eq!(snapshot[0].0, 443);
    assert_eq!(snapshot[0].1.incoming, 350);
    assert_eq!(snapshot[0].1.outgoing, 0);
    assert_eq!(snapshot[1].0, 80);
    assert_eq!(snapshot[1].1.outgoing, 25);
    let live = table.get(443).copied().unwrap();
    assert_eq!(live.incoming, 0);
    assert_eq!(live.outgoing, 0);
}

#[test]
fn table_second_drain_snapshot_is_all_zero() {
    let mut table = ConnectionTable::new();
    table.incr_incoming(443, 350);
    table.incr_outgoing(8080, 10);
    let _first = table.drain_and_reset();
    let second = table.drain_and_reset();
    assert_eq!(second.len(), 2);
    for (_port, t) in second {
        assert_eq!(t.incoming, 0);
        assert_eq!(t.outgoing, 0);
    }
}

#[test]
fn ledger_same_pid_twice_merges_and_appends_names() {
    let mut ledger = ConnectionList::new();
    ledger.insert(42, &transfer(100, 0), "first".to_string());
    ledger.insert(42, &transfer(0, 50), "second".to_string());
    let (total, names) = ledger.get(42).unwrap();
    assert_eq!(total.incoming, 100);
    assert_eq!(total.outgoing, 50);
    assert_eq!(names.len(), 2);
    assert_eq!(names[0], "first");
    assert_eq!(names[1], "second");
    assert_eq!(ledger.pids().len(), 1);
}

#[test]
fn ledger_unknown_bucket_accumulates() {
    let mut ledger = ConnectionList::new();
    ledger.insert_unknown(&transfer(5, 0));
    ledger.insert_unknown(&transfer(10, 3));
    let unknown = ledger.unknown_total();
    assert_eq!(unknown.incoming, 15);
    assert_eq!(unknown.outgoing, 3);
}

#[test]
fn join_records_attributed_ports_per_process() {
    let entries = vec![(42, vec![100u64])];
    let built = netwatch::attribution::build_inode_pid_map(&entries);

    let mut names = NameTable::new();
    names.push(42, Some("server".to_string()));
    let pairs = vec![(100u64, 8080u16)];
    let attribution = netwatch::attribution::join_attribution(&pairs, &built, &names);

    let mut ledger = ConnectionList::new();
    let snapshot = vec![(8080u16, transfer(100, 0)), (9999u16, transfer(5, 0))];
    join_snapshot(&snapshot, &attribution, &mut ledger);

    let (total, entry_names) = ledger.get(42).unwrap();
    assert_eq!(total.incoming, 100);
    assert_eq!(total.outgoing, 0);
    assert_eq!(entry_names.len(), 1);
    assert_eq!(entry_names[0], "server");

    let unknown = ledger.unknown_total();
    assert_eq!(unknown.incoming, 5);
    assert_eq!(unknown.outgoing, 0);
}

#[test]
fn join_sends_unattributed_ports_to_unknown() {
    let attribution = PortToProcessTable::new();
    let mut ledger = ConnectionList::new();
    let snapshot = vec![(443u16, transfer(350, 0))];
    join_snapshot(&snapshot, &attribution, &mut ledger);
    assert!(ledger.get(42).is_none());
    assert_eq!(ledger.pids().len(), 0);
    assert_eq!(ledger.unknown_total().incoming, 350);
}
