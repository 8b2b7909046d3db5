//! Per-port traffic accounting: a table from transport port to a byte
//! accumulator. Entries are created lazily on first observed traffic and are
//! never evicted; the reporter empties the counters with an atomic
//! drain-and-reset that keeps every port's entry alive at zero.

use vstd::prelude::*;

use crate::transfer::{is_zero, merged, Transfer};

verus! {

/// A transport-layer port number.
pub type Port = u16;

/// The accumulator a port maps to, or a fresh zero one where the port has
/// not been seen yet.
pub open spec fn entry_or_zero(m: Map<Port, Transfer>, port: Port) -> Transfer {
    if m.contains_key(port) {
        m[port]
    } else {
        Transfer { incoming: 0, outgoing: 0 }
    }
}

/// The direction-relevant counter of `t` can take `size` more bytes.
pub open spec fn dir_fits(t: Transfer, incoming: bool, size: u64) -> bool {
    if incoming {
        t.incoming + size <= u64::MAX
    } else {
        t.outgoing + size <= u64::MAX
    }
}

/// The accumulator `t` with `size` bytes added to the direction selected by
/// `incoming`.
pub open spec fn bumped(t: Transfer, incoming: bool, size: u64) -> Transfer {
    if incoming {
        merged(t, Transfer { incoming: size, outgoing: 0 })
    } else {
        merged(t, Transfer { incoming: 0, outgoing: size })
    }
}

/// The table's map after `size` bytes for `port` are accounted in the given
/// direction.
pub open spec fn table_after_incr(
    m: Map<Port, Transfer>,
    incoming: bool,
    port: Port,
    size: u64,
) -> Map<Port, Transfer> {
    m.insert(port, bumped(entry_or_zero(m, port), incoming, size))
}

/// The per-port snapshot a drain takes: ports in their insertion order, each
/// with the accumulator it held at the drain.
pub open spec fn drain_snapshot(m: Map<Port, Transfer>, order: Seq<Port>) -> Seq<(Port, Transfer)> {
    order.map(|_i: int, p: Port| (p, m[p]))
}

/// Every accumulator of a drained snapshot is zero.
pub open spec fn snapshot_all_zero(snap: Seq<(Port, Transfer)>) -> bool {
    forall|i: int| 0 <= i < snap.len() ==> is_zero((#[trigger] snap[i]).1)
}

/// Every accumulator held by the map is zero.
pub open spec fn all_zero(m: Map<Port, Transfer>) -> bool {
    forall|p: Port| m.contains_key(p) ==> is_zero(#[trigger] m[p])
}

/// Pushing a fresh key keeps a key order well-formed: still duplicate-free,
/// and listing exactly the inserted map's keys. Shared by every structure
/// that pairs a map with an insertion-order key list.
pub proof fn lemma_order_push<K, V>(m0: Map<K, V>, m1: Map<K, V>, o0: Seq<K>, k: K)
    requires
        o0.no_duplicates(),
        forall|p: K| m0.contains_key(p) <==> o0.contains(p),
        !m0.contains_key(k),
        m1.dom() == m0.dom().insert(k),
    ensures
        o0.push(k).no_duplicates(),
        forall|p: K| m1.contains_key(p) <==> o0.push(k).contains(p),
{
    let o1 = o0.push(k);
    assert(o1[o1.len() - 1] == k);
    assert forall|i: int, j: int|
        0 <= i < o1.len() && 0 <= j < o1.len() && i != j implies o1[i] != o1[j] by {
        if i < o1.len() - 1 && j < o1.len() - 1 {
            assert(o0[i] == o1[i]);
            assert(o0[j] == o1[j]);
        } else if i == o1.len() - 1 {
            if o0[j] == k {
                assert(o0.contains(k));
            }
        } else {
            if o0[i] == k {
                assert(o0.contains(k));
            }
        }
    }
    assert forall|p: K| m1.contains_key(p) implies o1.contains(p) by {
        assert(m1.dom().contains(p));
        if p == k {
            assert(o1[o1.len() - 1] == p);
        } else {
            assert(m0.dom().contains(p));
            assert(o0.contains(p));
            let j = choose|j: int| 0 <= j < o0.len() && o0[j] == p;
            assert(o1[j] == p);
        }
    }
    assert forall|p: K| o1.contains(p) implies m1.contains_key(p) by {
        let j = choose|j: int| 0 <= j < o1.len() && o1[j] == p;
        if j < o1.len() - 1 {
            assert(o0[j] == p);
            assert(o0.contains(p));
            assert(m0.dom().contains(p));
            assert(m1.dom().contains(p));
        } else {
            assert(m1.dom().contains(k));
        }
    }
}

/// Traffic accumulated per destination port. Written by the capture path
/// through `incr_incoming` / `incr_outgoing`, drained periodically by the
/// reporter.
pub struct ConnectionTable {
    inner: std::collections::HashMap<Port, Transfer>,
    order: Vec<Port>,
}

impl ConnectionTable {
    /// The table as a map from port to its accumulator.
    pub closed spec fn map(&self) -> Map<Port, Transfer> {
        self.inner@
    }

    /// The ports of the table, in the order their traffic was first seen.
    pub closed spec fn port_order(&self) -> Seq<Port> {
        self.order@
    }

    /// Well-formed: the recorded order lists exactly the table's ports, each
    /// once.
    pub closed spec fn wf(&self) -> bool {
        &&& self.order@.no_duplicates()
        &&& forall|p: Port| self.inner@.contains_key(p) <==> self.order@.contains(p)
    }

    pub fn new() -> (t: ConnectionTable)
        ensures
            t.wf(),
            t.map() == Map::<Port, Transfer>::empty(),
            t.port_order() == Seq::<Port>::empty(),
    {
        ConnectionTable { inner: std::collections::HashMap::new(), order: Vec::new() }
    }

    /// The accumulator for `port`, if any traffic for it has been seen.
    pub fn get(&self, port: Port) -> (r: Option<&Transfer>)
        requires
            self.wf(),
        ensures
            match r {
                Some(t) => self.map().contains_key(port) && *t == self.map()[port],
                None => !self.map().contains_key(port),
            },
    {
        self.inner.get(&port)
    }

    /// Add `size` bytes for `port` in the given direction, creating the
    /// port's accumulator if this is its first observed traffic.
    fn incr(&mut self, is_incoming: bool, port: Port, size: u64)
        requires
            old(self).wf(),
            dir_fits(entry_or_zero(old(self).map(), port), is_incoming, size),
        ensures
            final(self).wf(),
            final(self).map() == table_after_incr(old(self).map(), is_incoming, port, size),
            final(self).port_order() == if old(self).map().contains_key(port) {
                old(self).port_order()
            } else {
                old(self).port_order().push(port)
            },
    {
        let mut entry: Transfer = match self.inner.get(&port) {
            Some(t) => *t,
            None => Transfer::new(),
        };
        if !self.inner.contains_key(&port) {
            self.order.push(port);
        }
        if is_incoming {
            entry.incr_incoming(size);
        } else {
            entry.incr_outgoing(size);
        }
        self.inner.insert(port, entry);
        proof {
            assert(self.map() =~= table_after_incr(old(self).map(), is_incoming, port, size));
            if !old(self).map().contains_key(port) {
                assert(self.map().dom() =~= old(self).map().dom().insert(port));
                lemma_order_push(old(self).map(), self.map(), old(self).port_order(), port);
            } else {
                assert(self.map().dom() =~= old(self).map().dom());
            }
        }
    }

    pub fn incr_outgoing(&mut self, port: Port, size: u64)
        requires
            old(self).wf(),
            entry_or_zero(old(self).map(), port).outgoing + size <= u64::MAX,
        ensures
            final(self).wf(),
            final(self).map() == table_after_incr(old(self).map(), false, port, size),
            final(self).port_order() == if old(self).map().contains_key(port) {
                old(self).port_order()
            } else {
                old(self).port_order().push(port)
            },
    {
        self.incr(false, port, size);
    }

    pub fn incr_incoming(&mut self, port: Port, size: u64)
        requires
            old(self).wf(),
            entry_or_zero(old(self).map(), port).incoming + size <= u64::MAX,
        ensures
            final(self).wf(),
            final(self).map() == table_after_incr(old(self).map(), true, port, size),
            final(self).port_order() == if old(self).map().contains_key(port) {
                old(self).port_order()
            } else {
                old(self).port_order().push(port)
            },
    {
        self.incr(true, port, size);
    }

    /// Atomically snapshot every port's accumulator and zero the live table.
    /// Each accounted byte shows up in exactly one drain's snapshot: the
    /// ports stay, their counters start over at zero.
    pub fn drain_and_reset(&mut self) -> (snapshot: Vec<(Port, Transfer)>)
        requires
            old(self).wf(),
        ensures
            final(self).wf(),
            snapshot@ == drain_snapshot(old(self).map(), old(self).port_order()),
            final(self).port_order() == old(self).port_order(),
            final(self).map().dom() == old(self).map().dom(),
            all_zero(final(self).map()),
    {
        let mut snapshot: Vec<(Port, Transfer)> = Vec::new();
        let n = self.order.len();
        for i in 0..n
            invariant
                self.wf(),
                n == self.order@.len(),
                self.order@ == old(self).port_order(),
                self.map().dom() == old(self).map().dom(),
                snapshot@.len() == i,
                forall|j: int|
                    0 <= j < i ==> snapshot@[j] == (old(self).port_order()[j], old(self).map()[
                        old(self).port_order()[j]
                    ]),
                forall|j: int|
                    i <= j < n ==> self.map()[#[trigger] old(self).port_order()[j]] == old(
                        self,
                    ).map()[old(self).port_order()[j]],
                forall|j: int|
                    0 <= j < i ==> is_zero(self.map()[#[trigger] old(self).port_order()[j]]),
        {
            let port = self.order[i];
            proof {
                assert(old(self).port_order().contains(old(self).port_order()[i as int]));
            }
            let entry: Transfer = match self.inner.get(&port) {
                Some(t) => *t,
                None => Transfer::new(),
            };
            snapshot.push((port, entry));
            self.inner.insert(port, Transfer::new());
            proof {
                assert(self.map().dom() =~= old(self).map().dom());
                assert forall|j: int| 0 <= j < i + 1 implies is_zero(
                    self.map()[#[trigger] old(self).port_order()[j]],
                ) by {
                    if old(self).port_order()[j] != port {
                        assert(self.map()[old(self).port_order()[j]] == old(self).map()[old(
                            self,
                        ).port_order()[j]] || is_zero(self.map()[old(self).port_order()[j]]));
                    }
                }
            }
        }
        proof {
            assert(snapshot@ =~= drain_snapshot(old(self).map(), old(self).port_order()));
            assert forall|p: Port| self.map().contains_key(p) implies is_zero(
                #[trigger] self.map()[p],
            ) by {
                assert(old(self).port_order().contains(p));
                let j = choose|j: int|
                    0 <= j < old(self).port_order().len() && old(self).port_order()[j] == p;
                assert(is_zero(self.map()[old(self).port_order()[j]]));
            }
        }
        snapshot
    }
}

/// Two immediate drains: after a drain has zeroed every live accumulator, a
/// second drain's snapshot is all-zero, whatever ports the table holds.
pub proof fn lemma_second_drain_all_zero(m: Map<Port, Transfer>, order: Seq<Port>)
    requires
        all_zero(m),
        forall|i: int| 0 <= i < order.len() ==> m.contains_key(#[trigger] order[i]),
    ensures
        snapshot_all_zero(drain_snapshot(m, order)),
{
}

} // verus!
