//! Per-process traffic ledger: a map from process id to an accumulator and
//! the display names observed for that process, plus one catch-all
//! accumulator for traffic that could not be attributed to any process.

use vstd::prelude::*;

use crate::table::lemma_order_push;
use crate::transfer::{is_zero, merge_fits, merged, Transfer};

verus! {

/// A process identifier.
pub type Pid = i32;

/// What the ledger holds for one process: its accumulated traffic and every
/// display name observed for it, duplicates included, in observation order.
pub type Info = (Transfer, Vec<String>);

/// The ledger entry for `pid`, or a fresh one where the pid is unknown.
pub open spec fn info_or_empty(
    m: Map<Pid, (Transfer, Seq<Seq<char>>)>,
    pid: Pid,
) -> (Transfer, Seq<Seq<char>>) {
    if m.contains_key(pid) {
        m[pid]
    } else {
        (Transfer { incoming: 0, outgoing: 0 }, Seq::<Seq<char>>::empty())
    }
}

/// The ledger's map after traffic `delta` under `name` is recorded for
/// `pid`: the delta merges into the pid's accumulator and the name is
/// appended to its observation history.
pub open spec fn ledger_after_record(
    m: Map<Pid, (Transfer, Seq<Seq<char>>)>,
    pid: Pid,
    delta: Transfer,
    name: Seq<char>,
) -> Map<Pid, (Transfer, Seq<Seq<char>>)> {
    let prev = info_or_empty(m, pid);
    m.insert(pid, (merged(prev.0, delta), prev.1.push(name)))
}

/// Traffic attributed per process, with a catch-all accumulator for traffic
/// whose port no known process owns.
pub struct ConnectionList {
    connections: std::collections::HashMap<Pid, Info>,
    order: Vec<Pid>,
    unknown: Transfer,
}

impl ConnectionList {
    /// The ledger as a map from pid to accumulator and observed names.
    pub closed spec fn map(&self) -> Map<Pid, (Transfer, Seq<Seq<char>>)> {
        self.connections@.map_values(|v: Info| (v.0, v.1@.map(|_i: int, s: String| s@)))
    }

    /// The pids of the ledger, in first-recorded order.
    pub closed spec fn pid_order(&self) -> Seq<Pid> {
        self.order@
    }

    /// The catch-all accumulator.
    pub closed spec fn spec_unknown(&self) -> Transfer {
        self.unknown
    }

    /// Well-formed: the recorded order lists exactly the ledger's pids, each
    /// once.
    pub closed spec fn wf(&self) -> bool {
        &&& self.order@.no_duplicates()
        &&& forall|p: Pid| self.connections@.contains_key(p) <==> self.order@.contains(p)
    }

    pub fn new() -> (l: ConnectionList)
        ensures
            l.wf(),
            l.map() == Map::<Pid, (Transfer, Seq<Seq<char>>)>::empty(),
            l.pid_order() == Seq::<Pid>::empty(),
            is_zero(l.spec_unknown()),
    {
        let l = ConnectionList {
            connections: std::collections::HashMap::new(),
            order: Vec::new(),
            unknown: Transfer::new(),
        };
        proof {
            assert(l.map() =~= Map::<Pid, (Transfer, Seq<Seq<char>>)>::empty());
        }
        l
    }

    /// Record `transfer` for `pid` under `process_name`: merge into the
    /// existing entry and append the name, or create the entry where the pid
    /// is new.
    pub fn insert(&mut self, pid: Pid, transfer: &Transfer, process_name: String)
        requires
            old(self).wf(),
            merge_fits(info_or_empty(old(self).map(), pid).0, *transfer),
        ensures
            final(self).wf(),
            final(self).map() == ledger_after_record(
                old(self).map(),
                pid,
                *transfer,
                process_name@,
            ),
            final(self).spec_unknown() == old(self).spec_unknown(),
            final(self).pid_order() == if old(self).map().contains_key(pid) {
                old(self).pid_order()
            } else {
                old(self).pid_order().push(pid)
            },
    {
        let mut entry: Info = match self.connections.get(&pid) {
            Some(i) => (i.0, i.1.clone()),
            None => (Transfer::new(), Vec::new()),
        };
        proof {
            assert(entry.0 == info_or_empty(self.map(), pid).0);
            assert(entry.1@.map(|_i: int, s: String| s@) =~= info_or_empty(self.map(), pid).1);
        }
        if !self.connections.contains_key(&pid) {
            self.order.push(pid);
        }
        entry.0.merge(transfer);
        let ghost names_before = entry.1@;
        entry.1.push(process_name);
        self.connections.insert(pid, entry);
        proof {
            assert(entry.1@.map(|_i: int, s: String| s@) =~= names_before.map(
                |_i: int, s: String| s@,
            ).push(process_name@));
            assert(self.map() =~= ledger_after_record(
                old(self).map(),
                pid,
                *transfer,
                process_name@,
            ));
            if !old(self).connections@.contains_key(pid) {
                assert(self.connections@.dom() =~= old(self).connections@.dom().insert(pid));
                lemma_order_push(
                    old(self).connections@,
                    self.connections@,
                    old(self).pid_order(),
                    pid,
                );
            } else {
                assert(self.connections@.dom() =~= old(self).connections@.dom());
            }
        }
    }

    /// Merge traffic that no process could be attributed for into the
    /// catch-all accumulator.
    pub fn insert_unknown(&mut self, transfer: &Transfer)
        requires
            old(self).wf(),
            merge_fits(old(self).spec_unknown(), *transfer),
        ensures
            final(self).wf(),
            final(self).spec_unknown() == merged(old(self).spec_unknown(), *transfer),
            final(self).map() == old(self).map(),
            final(self).pid_order() == old(self).pid_order(),
    {
        self.unknown.merge(transfer);
    }

    /// The catch-all accumulator's current value.
    pub fn unknown_total(&self) -> (t: Transfer)
        ensures
            t == self.spec_unknown(),
    {
        self.unknown
    }

    /// The pids of the ledger, in first-recorded order.
    pub fn pids(&self) -> (r: &Vec<Pid>)
        ensures
            r@ == self.pid_order(),
    {
        &self.order
    }

    /// The entry recorded for `pid`, if any.
    pub fn get(&self, pid: Pid) -> (r: Option<&Info>)
        requires
            self.wf(),
        ensures
            match r {
                Some(i) => self.map().contains_key(pid) && i.0 == self.map()[pid].0 && i.1@.map(
                    |_i: int, s: String| s@,
                ) == self.map()[pid].1,
                None => !self.map().contains_key(pid),
            },
    {
        let r = self.connections.get(&pid);
        proof {
            match r {
                Some(i) => {
                    assert(self.map()[pid] == (i.0, i.1@.map(|_i: int, s: String| s@)));
                },
                None => {},
            }
        }
        r
    }
}

/// Recording traffic twice for the same, previously unseen pid — under two
/// display names — leaves one ledger entry: its name history holds exactly
/// the two names in order, and its accumulator is the field-wise sum of the
/// two deltas.
pub proof fn lemma_record_same_pid_twice(
    m: Map<Pid, (Transfer, Seq<Seq<char>>)>,
    pid: Pid,
    d1: Transfer,
    n1: Seq<char>,
    d2: Transfer,
    n2: Seq<char>,
)
    requires
        !m.contains_key(pid),
        merge_fits(d1, d2),
    ensures
        ({
            let m2 = ledger_after_record(ledger_after_record(m, pid, d1, n1), pid, d2, n2);
            &&& m2.dom() == m.dom().insert(pid)
            &&& m2[pid].1 == seq![n1, n2]
            &&& m2[pid].0 == merged(d1, d2)
        }),
{
    let m1 = ledger_after_record(m, pid, d1, n1);
    let m2 = ledger_after_record(m1, pid, d2, n2);
    assert(m1[pid].1 =~= seq![n1]);
    assert(m2[pid].1 =~= seq![n1, n2]);
    assert(m2.dom() =~= m.dom().insert(pid));
}

} // verus!
