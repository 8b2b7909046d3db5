use netwatch::transfer::Transfer;

#[test]
fn new_transfer_is_zero() {
    let t = Transfer::new();
    assert_eq!(t.incoming, 0);
    assert_eq!(t.outgoing, 0);
}

#[test]
fn increments_accumulate_per_direction() {
    let mut t = Transfer::new();
    t.incr_incoming(100);
    t.incr_incoming(200);
    t.incr_outgoing(7);
    assert_eq!(t.incoming, 300);
    assert_eq!(t.outgoing, 7);
}

#[test]
fn reset_zeroes_both_counters() {
    let mut t = Transfer::new();
    t.incr_incoming(5);
    t.incr_outgoing(9);
    t.reset();
    assert_eq!(t.incoming, 0);
    assert_eq!(t.outgoing, 0);
}

#[test]
fn merge_adds_field_wise() {
    let mut a = Transfer::new();
    a.incr_incoming(10);
    a.incr_outgoing(20);
    let mut b = Transfer::new();
    b.incr_incoming(1);
    b.incr_outgoing(2);
    a.merge(&b);
    assert_eq!(a.incoming, 11);
    assert_eq!(a.outgoing, 22);
}

#[test]
fn merge_is_commutative_on_values() {
    let mut a = Transfer::new();
    a.incr_incoming(3);
    a.incr_outgoing(4);
    let mut b = Transfer::new();
    b.incr_incoming(30);
    b.incr_outgoing(40);
    let mut ab = a;
    ab.merge(&b);
    let mut ba = b;
    ba.merge(&a);
    assert_eq!(ab, ba);
}

#[test]
fn merge_is_associative_on_values() {
    let mut a = Transfer::new();
    a.incr_incoming(1);
    let mut b = Transfer::new();
    b.incr_incoming(2);
    b.incr_outgoing(5);
    let mut c = Transfer::new();
    c.incr_outgoing(8);

    let mut left = a;
    left.merge(&b);
    left.merge(&c);

    let mut bc = b;
    bc.merge(&c);
    let mut right = a;
    right.merge(&bc);

    assert_eq!(left, right);
    assert_eq!(left.incoming, 3);
    assert_eq!(left.outgoing, 13);
}

#[test]
fn drain_and_reset_takes_snapshot_and_zeroes() {
    let mut t = Transfer::new();
    t.incr_incoming(42);
    t.incr_outgoing(7);
    let snap = t.drain_and_reset();
    assert_eq!(snap.incoming, 42);
    assert_eq!(snap.outgoing, 7);
    assert_eq!(t.incoming, 0);
    assert_eq!(t.outgoing, 0);
}

#[test]
fn second_drain_is_all_zero() {
    let mut t = Transfer::new();
    t.incr_incoming(123);
    t.incr_outgoing(456);
    let _first = t.drain_and_reset();
    let second = t.drain_and_reset();
    assert_eq!(second.incoming, 0);
    assert_eq!(second.outgoing, 0);
}

#[test]
fn stats_normalises_by_interval() {
    let mut t = Transfer::new();
    t.incr_incoming(2000);
    t.incr_outgoing(1000);
    assert_eq!(t.stats(1000), (2000, 1000));
    assert_eq!(t.stats(2000), (1000, 500));
    assert_eq!(t.stats(3000), (666, 333));
}

#[test]
fn stats_human_renders_byte_counts() {
    let mut t = Transfer::new();
    t.incr_incoming(350);
    let (incoming, outgoing) = t.stats_human(1000);
    assert_eq!(incoming, "350 B");
    assert_eq!(outgoing, "0 B");
}
