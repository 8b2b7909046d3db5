//! The reporter's join step: folding one drained per-port snapshot together
//! with the current port-to-process attribution into the per-process ledger.
//! Traffic on an attributed port is recorded against each process the port
//! resolved to; traffic on a port no process owns goes to the catch-all
//! bucket.

use vstd::prelude::*;

use crate::attribution::{Pid, PortToProcessTable};
use crate::list::{info_or_empty, ledger_after_record, ConnectionList};
use crate::table::Port;
use crate::transfer::{merge_fits, merged, Transfer};

verus! {

/// The ledger map after one port's traffic is recorded against each of its
/// attribution records, in order; a record whose counters cannot take the
/// delta is skipped.
pub open spec fn spec_record_all(
    m: Map<Pid, (Transfer, Seq<Seq<char>>)>,
    records: Seq<(Pid, Seq<char>)>,
    t: Transfer,
) -> Map<Pid, (Transfer, Seq<Seq<char>>)>
    decreases records.len(),
{
    if records.len() == 0 {
        m
    } else {
        let prev = spec_record_all(m, records.drop_last(), t);
        let rec = records.last();
        if merge_fits(info_or_empty(prev, rec.0).0, t) {
            ledger_after_record(prev, rec.0, t, rec.1)
        } else {
            prev
        }
    }
}

/// The ledger after one snapshot entry: an attributed port's traffic goes to
/// each of its records, an unattributed port's traffic to the catch-all
/// bucket.
pub open spec fn spec_join_entry(
    m: Map<Pid, (Transfer, Seq<Seq<char>>)>,
    unknown: Transfer,
    port: Port,
    t: Transfer,
    att: Map<Port, Seq<(Pid, Seq<char>)>>,
) -> (Map<Pid, (Transfer, Seq<Seq<char>>)>, Transfer) {
    if att.contains_key(port) {
        (spec_record_all(m, att[port], t), unknown)
    } else if merge_fits(unknown, t) {
        (m, merged(unknown, t))
    } else {
        (m, unknown)
    }
}

/// The ledger after a whole snapshot, entry by entry in snapshot order.
pub open spec fn spec_join_snapshot(
    m: Map<Pid, (Transfer, Seq<Seq<char>>)>,
    unknown: Transfer,
    snap: Seq<(Port, Transfer)>,
    att: Map<Port, Seq<(Pid, Seq<char>)>>,
) -> (Map<Pid, (Transfer, Seq<Seq<char>>)>, Transfer)
    decreases snap.len(),
{
    if snap.len() == 0 {
        (m, unknown)
    } else {
        let prev = spec_join_snapshot(m, unknown, snap.drop_last(), att);
        spec_join_entry(prev.0, prev.1, snap.last().0, snap.last().1, att)
    }
}

/// Whether the ledger entry for `pid` can take `t` without overflowing.
fn record_fits(ledger: &ConnectionList, pid: Pid, t: &Transfer) -> (r: bool)
    requires
        ledger.wf(),
    ensures
        r == merge_fits(info_or_empty(ledger.map(), pid).0, *t),
{
    match ledger.get(pid) {
        Some(info) => info.0.incoming <= u64::MAX - t.incoming && info.0.outgoing <= u64::MAX
            - t.outgoing,
        None => true,
    }
}

/// Join one drained per-port snapshot with the attribution map into the
/// ledger: each entry of an attributed port is recorded — with its display
/// name — against every process the port resolved to; an unattributed port's
/// traffic merges into the catch-all bucket. An addition whose counters
/// cannot take it is skipped.
pub fn join_snapshot(
    snapshot: &Vec<(Port, Transfer)>,
    attribution: &PortToProcessTable,
    ledger: &mut ConnectionList,
)
    requires
        old(ledger).wf(),
        attribution.wf(),
    ensures
        final(ledger).wf(),
        (final(ledger).map(), final(ledger).spec_unknown()) == spec_join_snapshot(
            old(ledger).map(),
            old(ledger).spec_unknown(),
            snapshot@,
            attribution.map(),
        ),
{
    let n = snapshot.len();
    for i in 0..n
        invariant
            n == snapshot@.len(),
            ledger.wf(),
            attribution.wf(),
            (ledger.map(), ledger.spec_unknown()) == spec_join_snapshot(
                old(ledger).map(),
                old(ledger).spec_unknown(),
                snapshot@.take(i as int),
                attribution.map(),
            ),
    {
        let (port, t) = snapshot[i];
        let ghost m0 = ledger.map();
        let ghost u0 = ledger.spec_unknown();
        match attribution.get(&port) {
            Some(records) => {
                let rn = records.len();
                proof {
                    assert(attribution.map()[port].take(0) =~= Seq::<(Pid, Seq<char>)>::empty());
                }
                for k in 0..rn
                    invariant
                        rn == records@.len(),
                        records@.map(|_i: int, rec: crate::attribution::ProcessRecord| rec@)
                            == attribution.map()[port],
                        attribution.map().contains_key(port),
                        ledger.wf(),
                        attribution.wf(),
                        ledger.spec_unknown() == u0,
                        ledger.map() == spec_record_all(
                            m0,
                            attribution.map()[port].take(k as int),
                            t,
                        ),
                {
                    let pid = records[k].pid;
                    proof {
                        assert(attribution.map()[port][k as int] == records@[k as int]@);
                    }
                    if record_fits(ledger, pid, &t) {
                        ledger.insert(pid, &t, records[k].name.clone());
                    }
                    proof {
                        assert(attribution.map()[port].take(k + 1).drop_last()
                            =~= attribution.map()[port].take(k as int));
                        assert(attribution.map()[port].take(k + 1).last() == attribution.map()[
                            port
                        ][k as int]);
                    }
                }
                proof {
                    assert(attribution.map()[port].take(rn as int) =~= attribution.map()[port]);
                }
            },
            None => {
                if ledger.unknown_total().incoming <= u64::MAX - t.incoming
                    && ledger.unknown_total().outgoing <= u64::MAX - t.outgoing {
                    ledger.insert_unknown(&t);
                }
            },
        }
        proof {
            assert(snapshot@.take(i + 1).drop_last() =~= snapshot@.take(i as int));
            assert(snapshot@.take(i + 1).last() == snapshot@[i as int]);
        }
    }
    proof {
        assert(snapshot@.take(n as int) =~= snapshot@);
    }
}

} // verus!
