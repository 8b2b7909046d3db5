//! Port-to-process attribution: correlating the kernel's socket tables with
//! the processes that hold each socket.
//!
//! A refresh reads the TCP and UDP socket tables (IPv4 and IPv6), keeps
//! listening TCP sockets and established UDP sockets, and maps each socket
//! inode to its local port. Socket inodes are then resolved to process ids —
//! through the privileged fast-path source where it exists, else by walking
//! every process's file-descriptor table — and joined into a fresh map from
//! port to the processes that own it. A process that exits between the walk
//! and the join is skipped for that refresh; it never aborts the refresh.

use vstd::prelude::*;

use crate::pidmap::{deep_entries, parse_fast_path_source, spec_parse_source_from};
use crate::table::{lemma_order_push, Port};

verus! {

/// A process identifier.
pub type Pid = i32;

/// A socket inode number.
pub type Inode = u64;

/// The kernel's encoding of a listening TCP socket's state.
pub const TCP_STATE_LISTEN: u8 = 0x0A;

/// The kernel's encoding of an established UDP socket's state.
pub const UDP_STATE_ESTABLISHED: u8 = 0x01;

/// One row of a kernel socket table: the socket's local port, its state in
/// the kernel's encoding, and its inode.
#[derive(Debug, Clone, Copy, PartialEq, Eq, Structural)]
pub struct SocketRecord {
    pub local_port: Port,
    pub state_code: u8,
    pub inode: Inode,
}

// ----------------------------------------------------------------------
// inode -> port

/// The first position at or after `from` whose pair claims `inode`, or the
/// pairs' length where none does.
pub open spec fn inode_index_from(pairs: Seq<(Inode, Port)>, inode: Inode, from: int) -> int
    decreases pairs.len() - from,
    when 0 <= from <= pairs.len()
{
    if from >= pairs.len() {
        pairs.len() as int
    } else if pairs[from].0 == inode {
        from
    } else {
        inode_index_from(pairs, inode, from + 1)
    }
}

pub proof fn lemma_inode_index_from_bounds(pairs: Seq<(Inode, Port)>, inode: Inode, from: int)
    requires
        0 <= from <= pairs.len(),
    ensures
        from <= inode_index_from(pairs, inode, from) <= pairs.len(),
        inode_index_from(pairs, inode, from) < pairs.len() ==> pairs[inode_index_from(
            pairs,
            inode,
            from,
        )].0 == inode,
    decreases pairs.len() - from,
{
    if from < pairs.len() && pairs[from].0 != inode {
        lemma_inode_index_from_bounds(pairs, inode, from + 1);
    }
}

/// The pairs extended by the table rows in `want_state`, in table order; a
/// row whose inode is already claimed overwrites the claimed port, so the
/// last claim of an inode wins — as the rebuilt kernel map would hold the
/// last write.
pub open spec fn add_socket_records(
    pairs: Seq<(Inode, Port)>,
    entries: Seq<SocketRecord>,
    want_state: u8,
) -> Seq<(Inode, Port)>
    decreases entries.len(),
{
    if entries.len() == 0 {
        pairs
    } else {
        let prev = add_socket_records(pairs, entries.drop_last(), want_state);
        let e = entries.last();
        if e.state_code == want_state {
            let idx = inode_index_from(prev, e.inode, 0);
            if idx == prev.len() {
                prev.push((e.inode, e.local_port))
            } else {
                prev.update(idx, (e.inode, e.local_port))
            }
        } else {
            prev
        }
    }
}

/// The inode-to-port pairs of one refresh: listening TCP sockets of both
/// families, then established UDP sockets of both families.
pub open spec fn spec_inode_port_pairs(
    tcp: Seq<SocketRecord>,
    tcp6: Seq<SocketRecord>,
    udp: Seq<SocketRecord>,
    udp6: Seq<SocketRecord>,
) -> Seq<(Inode, Port)> {
    add_socket_records(
        add_socket_records(
            add_socket_records(
                add_socket_records(Seq::<(Inode, Port)>::empty(), tcp, TCP_STATE_LISTEN),
                tcp6,
                TCP_STATE_LISTEN,
            ),
            udp,
            UDP_STATE_ESTABLISHED,
        ),
        udp6,
        UDP_STATE_ESTABLISHED,
    )
}

/// The position of the pair claiming `inode`, or the pairs' length where
/// none does.
fn find_inode_index(pairs: &Vec<(Inode, Port)>, inode: Inode) -> (r: usize)
    ensures
        r == inode_index_from(pairs@, inode, 0),
        r <= pairs@.len(),
{
    proof {
        lemma_inode_index_from_bounds(pairs@, inode, 0);
    }
    let mut i: usize = 0;
    while i < pairs.len()
        invariant
            0 <= i <= pairs@.len(),
            inode_index_from(pairs@, inode, 0) == inode_index_from(pairs@, inode, i as int),
        decreases pairs@.len() - i,
    {
        if pairs[i].0 == inode {
            return i;
        }
        i = i + 1;
    }
    pairs.len()
}

/// Append the rows of one socket table that are in `want_state`.
fn add_socket_table(pairs: &mut Vec<(Inode, Port)>, entries: &Vec<SocketRecord>, want_state: u8)
    ensures
        final(pairs)@ == add_socket_records(old(pairs)@, entries@, want_state),
{
    let n = entries.len();
    for i in 0..n
        invariant
            n == entries@.len(),
            pairs@ == add_socket_records(old(pairs)@, entries@.take(i as int), want_state),
    {
        let e = entries[i];
        proof {
            assert(entries@.take(i + 1).drop_last() =~= entries@.take(i as int));
            assert(entries@.take(i + 1).last() == entries@[i as int]);
        }
        if e.state_code == want_state {
            let idx = find_inode_index(pairs, e.inode);
            if idx == pairs.len() {
                pairs.push((e.inode, e.local_port));
            } else {
                pairs.set(idx, (e.inode, e.local_port));
            }
        }
    }
    proof {
        assert(entries@.take(n as int) =~= entries@);
    }
}

/// Build the inode-to-port pairs for one refresh from the four socket
/// tables: only listening TCP sockets and established UDP sockets are kept.
pub fn build_inode_port_pairs(
    tcp: &Vec<SocketRecord>,
    tcp6: &Vec<SocketRecord>,
    udp: &Vec<SocketRecord>,
    udp6: &Vec<SocketRecord>,
) -> (pairs: Vec<(Inode, Port)>)
    ensures
        pairs@ == spec_inode_port_pairs(tcp@, tcp6@, udp@, udp6@),
{
    let mut pairs: Vec<(Inode, Port)> = Vec::new();
    add_socket_table(&mut pairs, tcp, TCP_STATE_LISTEN);
    add_socket_table(&mut pairs, tcp6, TCP_STATE_LISTEN);
    add_socket_table(&mut pairs, udp, UDP_STATE_ESTABLISHED);
    add_socket_table(&mut pairs, udp6, UDP_STATE_ESTABLISHED);
    pairs
}

// ----------------------------------------------------------------------
// inode -> pids

/// The pid lists a map holds for `inode`, or none yet.
pub open spec fn pids_or_empty(m: Map<Inode, Seq<Pid>>, inode: Inode) -> Seq<Pid> {
    if m.contains_key(inode) {
        m[inode]
    } else {
        Seq::<Pid>::empty()
    }
}

/// The map after `pid` is recorded as holding each inode of `inodes`, left
/// to right.
pub open spec fn spec_add_inodes(
    m: Map<Inode, Seq<Pid>>,
    pid: Pid,
    inodes: Seq<Inode>,
) -> Map<Inode, Seq<Pid>>
    decreases inodes.len(),
{
    if inodes.len() == 0 {
        m
    } else {
        let prev = spec_add_inodes(m, pid, inodes.drop_last());
        let inode = inodes.last();
        prev.insert(inode, pids_or_empty(prev, inode).push(pid))
    }
}

/// The map after every process entry is recorded, in order.
pub open spec fn spec_aggregate_entries(
    m: Map<Inode, Seq<Pid>>,
    entries: Seq<(Pid, Seq<Inode>)>,
) -> Map<Inode, Seq<Pid>>
    decreases entries.len(),
{
    if entries.len() == 0 {
        m
    } else {
        let prev = spec_aggregate_entries(m, entries.drop_last());
        spec_add_inodes(prev, entries.last().0, entries.last().1)
    }
}

/// A map from socket inode to the ids of the processes holding it, rebuilt
/// from scratch on every refresh.
pub struct InodePidMap {
    inner: std::collections::HashMap<Inode, Vec<Pid>>,
    order: Vec<Inode>,
}

impl InodePidMap {
    /// The map from inode to the pids holding it.
    pub closed spec fn map(&self) -> Map<Inode, Seq<Pid>> {
        self.inner@.map_values(|v: Vec<Pid>| v@)
    }

    /// Well-formed: the recorded order lists exactly the map's inodes, each
    /// once.
    pub closed spec fn wf(&self) -> bool {
        &&& self.order@.no_duplicates()
        &&& forall|i: Inode| self.inner@.contains_key(i) <==> self.order@.contains(i)
    }

    pub fn new() -> (m: InodePidMap)
        ensures
            m.wf(),
            m.map() == Map::<Inode, Seq<Pid>>::empty(),
    {
        let m = InodePidMap { inner: std::collections::HashMap::new(), order: Vec::new() };
        proof {
            assert(m.map() =~= Map::<Inode, Seq<Pid>>::empty());
        }
        m
    }

    /// Record that `pid` holds `inode`.
    fn add(&mut self, inode: Inode, pid: Pid)
        requires
            old(self).wf(),
        ensures
            final(self).wf(),
            final(self).map() == old(self).map().insert(
                inode,
                pids_or_empty(old(self).map(), inode).push(pid),
            ),
    {
        let mut pids: Vec<Pid> = match self.inner.get(&inode) {
            Some(v) => v.clone(),
            None => Vec::new(),
        };
        proof {
            assert(pids@ == pids_or_empty(self.map(), inode));
        }
        if !self.inner.contains_key(&inode) {
            self.order.push(inode);
        }
        pids.push(pid);
        self.inner.insert(inode, pids);
        proof {
            assert(self.map() =~= old(self).map().insert(
                inode,
                pids_or_empty(old(self).map(), inode).push(pid),
            ));
            if !old(self).inner@.contains_key(inode) {
                assert(self.inner@.dom() =~= old(self).inner@.dom().insert(inode));
                lemma_order_push(old(self).inner@, self.inner@, old(self).order@, inode);
            } else {
                assert(self.inner@.dom() =~= old(self).inner@.dom());
            }
        }
    }

    /// The pids recorded for `inode`, if any.
    pub fn get(&self, inode: Inode) -> (r: Option<&Vec<Pid>>)
        requires
            self.wf(),
        ensures
            match r {
                Some(v) => self.map().contains_key(inode) && v@ == self.map()[inode],
                None => !self.map().contains_key(inode),
            },
    {
        let r = self.inner.get(&inode);
        proof {
            match r {
                Some(v) => {
                    assert(self.map()[inode] == v@);
                },
                None => {},
            }
        }
        r
    }
}

/// Build the inode-to-pids map from per-process entries — each a pid with
/// the socket inodes it holds — whichever strategy produced them.
pub fn build_inode_pid_map(entries: &Vec<(Pid, Vec<Inode>)>) -> (m: InodePidMap)
    ensures
        m.wf(),
        m.map() == spec_aggregate_entries(
            Map::<Inode, Seq<Pid>>::empty(),
            deep_entries(entries@),
        ),
{
    let mut m = InodePidMap::new();
    let n = entries.len();
    proof {
        assert(deep_entries(entries@.take(0)) =~= Seq::<(Pid, Seq<Inode>)>::empty());
    }
    for i in 0..n
        invariant
            n == entries@.len(),
            m.wf(),
            m.map() == spec_aggregate_entries(
                Map::<Inode, Seq<Pid>>::empty(),
                deep_entries(entries@.take(i as int)),
            ),
    {
        let pid = entries[i].0;
        let inode_count = entries[i].1.len();
        proof {
            assert(entries@[i as int].1@.take(0) =~= Seq::<Inode>::empty());
        }
        for k in 0..inode_count
            invariant
                n == entries@.len(),
                0 <= i < n,
                inode_count == entries@[i as int].1@.len(),
                pid == entries@[i as int].0,
                m.wf(),
                m.map() == spec_add_inodes(
                    spec_aggregate_entries(
                        Map::<Inode, Seq<Pid>>::empty(),
                        deep_entries(entries@.take(i as int)),
                    ),
                    pid,
                    entries@[i as int].1@.take(k as int),
                ),
        {
            let inode = entries[i].1[k];
            m.add(inode, pid);
            proof {
                assert(entries@[i as int].1@.take(k + 1).drop_last() =~= entries@[i as int].1@.take(
                    k as int,
                ));
                assert(entries@[i as int].1@.take(k + 1).last() == entries@[i as int].1@[k as int]);
            }
        }
        proof {
            assert(entries@[i as int].1@.take(inode_count as int) =~= entries@[i as int].1@);
            assert(deep_entries(entries@.take(i + 1)).drop_last() =~= deep_entries(
                entries@.take(i as int),
            ));
            assert(deep_entries(entries@.take(i + 1)).last() == (
                entries@[i as int].0,
                entries@[i as int].1@,
            ));
        }
    }
    proof {
        assert(entries@.take(n as int) =~= entries@);
        assert(deep_entries(entries@.take(n as int)) =~= deep_entries(entries@));
    }
    m
}

// ----------------------------------------------------------------------
// Attribution records and the name table

/// A snapshot of one process's identity at refresh time: its pid and its
/// display name. It goes stale if the process exits before the next refresh.
#[derive(Debug, Clone, PartialEq, Eq)]
pub struct ProcessRecord {
    pub pid: Pid,
    pub name: String,
}

impl View for ProcessRecord {
    type V = (Pid, Seq<char>);

    open spec fn view(&self) -> (Pid, Seq<char>) {
        (self.pid, self.name@)
    }
}

/// The display name the table resolves `pid` to, from `from` on: the first
/// entry for the pid decides; an entry holding no name, or no entry at all,
/// means the process has vanished.
pub open spec fn spec_lookup_name_from(
    names: Seq<(Pid, Option<String>)>,
    pid: Pid,
    from: int,
) -> Option<Seq<char>>
    decreases names.len() - from,
    when 0 <= from <= names.len()
{
    if from >= names.len() {
        None
    } else if names[from].0 == pid {
        match names[from].1 {
            Some(n) => Some(n@),
            None => None,
        }
    } else {
        spec_lookup_name_from(names, pid, from + 1)
    }
}

/// The resolved display names of one refresh: what the display-name lookup
/// answered for each candidate pid, in query order.
pub struct NameTable {
    entries: Vec<(Pid, Option<String>)>,
}

impl NameTable {
    /// The queried pids with their answers.
    pub closed spec fn entries_view(&self) -> Seq<(Pid, Option<String>)> {
        self.entries@
    }

    pub fn new() -> (t: NameTable)
        ensures
            t.entries_view() == Seq::<(Pid, Option<String>)>::empty(),
    {
        NameTable { entries: Vec::new() }
    }

    /// Record what the display-name lookup answered for `pid`.
    pub fn push(&mut self, pid: Pid, name: Option<String>)
        ensures
            final(self).entries_view() == old(self).entries_view().push((pid, name)),
    {
        self.entries.push((pid, name));
    }

    /// Resolve `pid` to its display name, or to nothing where the process
    /// has vanished.
    pub fn lookup(&self, pid: Pid) -> (r: Option<&String>)
        ensures
            match r {
                Some(n) => spec_lookup_name_from(self.entries_view(), pid, 0) == Some(n@),
                None => spec_lookup_name_from(self.entries_view(), pid, 0) is None,
            },
    {
        let n = self.entries.len();
        let mut i: usize = 0;
        while i < n
            invariant
                n == self.entries@.len(),
                0 <= i <= n,
                spec_lookup_name_from(self.entries@, pid, 0) == spec_lookup_name_from(
                    self.entries@,
                    pid,
                    i as int,
                ),
            decreases n - i,
        {
            if self.entries[i].0 == pid {
                return match &self.entries[i].1 {
                    Some(name) => Some(name),
                    None => None,
                };
            }
            i = i + 1;
        }
        None
    }
}

// ----------------------------------------------------------------------
// The join: port -> attribution records

/// The records one inode's pids contribute, in order: a record per pid the
/// name lookup resolved; a vanished pid contributes nothing.
pub open spec fn spec_records_of(
    pids: Seq<Pid>,
    names: Seq<(Pid, Option<String>)>,
) -> Seq<(Pid, Seq<char>)>
    decreases pids.len(),
{
    if pids.len() == 0 {
        Seq::<(Pid, Seq<char>)>::empty()
    } else {
        let prev = spec_records_of(pids.drop_last(), names);
        match spec_lookup_name_from(names, pids.last(), 0) {
            Some(n) => prev.push((pids.last(), n)),
            None => prev,
        }
    }
}

/// The records a join's map holds for `port`, or none yet.
pub open spec fn records_or_empty(
    m: Map<Port, Seq<(Pid, Seq<char>)>>,
    port: Port,
) -> Seq<(Pid, Seq<char>)> {
    if m.contains_key(port) {
        m[port]
    } else {
        Seq::<(Pid, Seq<char>)>::empty()
    }
}

/// The joined map: each inode-to-port pair whose inode resolved to pids
/// contributes those pids' records to its port — an entry exists for the
/// port even where every pid vanished; a pair whose inode resolved to no
/// process leaves no entry.
pub open spec fn spec_join(
    pairs: Seq<(Inode, Port)>,
    ipm: Map<Inode, Seq<Pid>>,
    names: Seq<(Pid, Option<String>)>,
) -> Map<Port, Seq<(Pid, Seq<char>)>>
    decreases pairs.len(),
{
    if pairs.len() == 0 {
        Map::<Port, Seq<(Pid, Seq<char>)>>::empty()
    } else {
        let prev = spec_join(pairs.drop_last(), ipm, names);
        let pair = pairs.last();
        if ipm.contains_key(pair.0) {
            prev.insert(
                pair.1,
                records_or_empty(prev, pair.1) + spec_records_of(ipm[pair.0], names),
            )
        } else {
            prev
        }
    }
}

/// The port-to-processes attribution map of the latest successful refresh.
#[derive(Debug)]
pub struct PortToProcessTable {
    inner: std::collections::HashMap<Port, Vec<ProcessRecord>>,
    order: Vec<Port>,
}

impl PortToProcessTable {
    /// The attribution map: each port with the identities of the processes
    /// that own it.
    pub closed spec fn map(&self) -> Map<Port, Seq<(Pid, Seq<char>)>> {
        self.inner@.map_values(|v: Vec<ProcessRecord>| v@.map(|_i: int, r: ProcessRecord| r@))
    }

    /// Well-formed: the recorded order lists exactly the map's ports, each
    /// once.
    pub closed spec fn wf(&self) -> bool {
        &&& self.order@.no_duplicates()
        &&& forall|p: Port| self.inner@.contains_key(p) <==> self.order@.contains(p)
    }

    pub fn new() -> (t: PortToProcessTable)
        ensures
            t.wf(),
            t.map() == Map::<Port, Seq<(Pid, Seq<char>)>>::empty(),
    {
        let t = PortToProcessTable {
            inner: std::collections::HashMap::new(),
            order: Vec::new(),
        };
        proof {
            assert(t.map() =~= Map::<Port, Seq<(Pid, Seq<char>)>>::empty());
        }
        t
    }

    /// The processes attributed to `port`, if the port is mapped at all.
    pub fn get(&self, port: &Port) -> (r: Option<&Vec<ProcessRecord>>)
        requires
            self.wf(),
        ensures
            match r {
                Some(v) => self.map().contains_key(*port) && v@.map(
                    |_i: int, rec: ProcessRecord| rec@,
                ) == self.map()[*port],
                None => !self.map().contains_key(*port),
            },
    {
        let r = self.inner.get(port);
        proof {
            match r {
                Some(v) => {
                    assert(self.map()[*port] == v@.map(|_i: int, rec: ProcessRecord| rec@));
                },
                None => {},
            }
        }
        r
    }

    /// The order the join first saw the mapped ports in.
    pub closed spec fn port_order(&self) -> Seq<Port> {
        self.order@
    }

    /// The mapped ports, in the order the join first saw them.
    pub fn ports(&self) -> (r: &Vec<Port>)
        ensures
            r@ == self.port_order(),
    {
        &self.order
    }

    /// Add the records of one inode's pids to `port`, creating the port's
    /// entry even where every pid vanished.
    fn add_port_records(&mut self, port: Port, pids: &Vec<Pid>, names: &NameTable)
        requires
            old(self).wf(),
        ensures
            final(self).wf(),
            final(self).map() == old(self).map().insert(
                port,
                records_or_empty(old(self).map(), port) + spec_records_of(
                    pids@,
                    names.entries_view(),
                ),
            ),
    {
        let was_present = self.inner.contains_key(&port);
        let mut recs: Vec<ProcessRecord> = match self.inner.remove(&port) {
            Some(v) => v,
            None => Vec::new(),
        };
        proof {
            assert(recs@.map(|_i: int, r: ProcessRecord| r@) =~= records_or_empty(
                old(self).map(),
                port,
            ));
            assert(pids@.take(0) =~= Seq::<Pid>::empty());
        }
        let n = pids.len();
        for k in 0..n
            invariant
                n == pids@.len(),
                recs@.map(|_i: int, r: ProcessRecord| r@) == records_or_empty(old(self).map(), port)
                    + spec_records_of(pids@.take(k as int), names.entries_view()),
        {
            let pid = pids[k];
            let ghost recs_before = recs@;
            match names.lookup(pid) {
                Some(name) => {
                    recs.push(ProcessRecord { pid, name: name.clone() });
                    proof {
                        assert(recs@.map(|_i: int, r: ProcessRecord| r@) =~= recs_before.map(
                            |_i: int, r: ProcessRecord| r@,
                        ).push((pid, name@)));
                    }
                },
                None => {},
            }
            proof {
                assert(pids@.take(k + 1).drop_last() =~= pids@.take(k as int));
                assert(pids@.take(k + 1).last() == pids@[k as int]);
                assert(recs@.map(|_i: int, r: ProcessRecord| r@) =~= records_or_empty(
                    old(self).map(),
                    port,
                ) + spec_records_of(pids@.take(k + 1), names.entries_view()));
            }
        }
        if !was_present {
            self.order.push(port);
        }
        self.inner.insert(port, recs);
        proof {
            assert(pids@.take(n as int) =~= pids@);
            assert(self.inner@ == old(self).inner@.insert(port, recs));
            assert(self.map() =~= old(self).map().insert(
                port,
                records_or_empty(old(self).map(), port) + spec_records_of(
                    pids@,
                    names.entries_view(),
                ),
            ));
            if !old(self).inner@.contains_key(port) {
                assert(self.map().dom() =~= old(self).map().dom().insert(port));
                lemma_order_push(
                    old(self).map(),
                    self.map(),
                    old(self).order@,
                    port,
                );
            } else {
                assert(self.map().dom() =~= old(self).map().dom());
            }
        }
    }
}

/// Join the inode-to-port pairs with the inode-to-pids map and the resolved
/// names into a fresh attribution table: the result replaces, never merges
/// with, any earlier one.
pub fn join_attribution(
    pairs: &Vec<(Inode, Port)>,
    ipm: &InodePidMap,
    names: &NameTable,
) -> (t: PortToProcessTable)
    requires
        ipm.wf(),
    ensures
        t.wf(),
        t.map() == spec_join(pairs@, ipm.map(), names.entries_view()),
{
    let mut t = PortToProcessTable::new();
    let n = pairs.len();
    proof {
        assert(spec_join(pairs@.take(0), ipm.map(), names.entries_view()) =~= Map::<
            Port,
            Seq<(Pid, Seq<char>)>,
        >::empty());
    }
    for i in 0..n
        invariant
            n == pairs@.len(),
            t.wf(),
            ipm.wf(),
            t.map() == spec_join(pairs@.take(i as int), ipm.map(), names.entries_view()),
    {
        let (inode, port) = pairs[i];
        match ipm.get(inode) {
            Some(pids) => {
                t.add_port_records(port, pids, names);
            },
            None => {},
        }
        proof {
            assert(pairs@.take(i + 1).drop_last() =~= pairs@.take(i as int));
            assert(pairs@.take(i + 1).last() == pairs@[i as int]);
        }
    }
    proof {
        assert(pairs@.take(n as int) =~= pairs@);
    }
    t
}

// ----------------------------------------------------------------------
// The kernel sources, behind trusted wrappers

/// Relies on procfs::net::tcp: the rows of /proc/net/tcp, each reduced to
/// its local port, its state in the kernel's encoding (TcpState::to_u8;
/// LISTEN is 0x0A) and its socket inode. What comes back depends on the
/// machine's state; nothing more is assumed of it. None where the table
/// cannot be read.
#[verifier::external_body]
fn read_tcp_table() -> (r: Option<Vec<SocketRecord>>) {
    match procfs::net::tcp() {
        Ok(rows) => Some(rows.into_iter().map(|e| SocketRecord {
            local_port: e.local_address.port(),
            state_code: e.state.to_u8(),
            inode: e.inode,
        }).collect()),
        Err(_) => None,
    }
}

/// Relies on procfs::net::tcp6, reduced exactly as `read_tcp_table`.
#[verifier::external_body]
fn read_tcp6_table() -> (r: Option<Vec<SocketRecord>>) {
    match procfs::net::tcp6() {
        Ok(rows) => Some(rows.into_iter().map(|e| SocketRecord {
            local_port: e.local_address.port(),
            state_code: e.state.to_u8(),
            inode: e.inode,
        }).collect()),
        Err(_) => None,
    }
}

/// Relies on procfs::net::udp: the rows of /proc/net/udp, each reduced to
/// its local port, its state in the kernel's encoding (UdpState::to_u8;
/// ESTABLISHED is 0x01) and its socket inode. None where the table cannot
/// be read.
#[verifier::external_body]
fn read_udp_table() -> (r: Option<Vec<SocketRecord>>) {
    match procfs::net::udp() {
        Ok(rows) => Some(rows.into_iter().map(|e| SocketRecord {
            local_port: e.local_address.port(),
            state_code: e.state.to_u8(),
            inode: e.inode,
        }).collect()),
        Err(_) => None,
    }
}

/// Relies on procfs::net::udp6, reduced exactly as `read_udp_table`.
#[verifier::external_body]
fn read_udp6_table() -> (r: Option<Vec<SocketRecord>>) {
    match procfs::net::udp6() {
        Ok(rows) => Some(rows.into_iter().map(|e| SocketRecord {
            local_port: e.local_address.port(),
            state_code: e.state.to_u8(),
            inode: e.inode,
        }).collect()),
        Err(_) => None,
    }
}

/// A live process handle of the procfs crate, opaque to the contracts.
#[verifier::external_type_specification]
#[verifier::external_body]
pub struct ExProcess(procfs::process::Process);

/// Relies on procfs::process::all_processes: one handle per process the
/// walk could read; a process that vanished mid-walk is skipped. None where
/// the process table cannot be read at all.
#[verifier::external_body]
fn list_processes() -> (r: Option<Vec<procfs::process::Process>>) {
    match procfs::process::all_processes() {
        Ok(iter) => Some(iter.filter_map(|p| p.ok()).collect()),
        Err(_) => None,
    }
}

/// Relies on the procfs Process::pid field: the id of the process the
/// handle was opened for.
#[verifier::external_body]
fn process_pid(p: &procfs::process::Process) -> (r: Pid) {
    p.pid
}

/// Relies on Process::fd and FDTarget::Socket: the socket inodes among the
/// process's open descriptors, in table order. None where the descriptor
/// table cannot be read — most often because the process exited.
#[verifier::external_body]
fn process_socket_inodes(p: &procfs::process::Process) -> (r: Option<Vec<Inode>>) {
    match p.fd() {
        Ok(fds) => Some(fds.filter_map(|fd| fd.ok()).filter_map(|fd| match fd.target {
            procfs::process::FDTarget::Socket(inode) => Some(inode),
            _ => None,
        }).collect()),
        Err(_) => None,
    }
}

/// Relies on Process::new and Process::cmdline: the process's command line,
/// its arguments joined with single spaces. None where the process has
/// exited or cannot be read: the vanished-process case.
#[verifier::external_body]
fn process_display_name(pid: Pid) -> (r: Option<String>) {
    let p = match procfs::process::Process::new(pid) {
        Ok(p) => p,
        Err(_) => return None,
    };
    match p.cmdline() {
        Ok(args) => Some(args.join(" ")),
        Err(_) => None,
    }
}

// ----------------------------------------------------------------------
// The refresh

/// The fallback strategy: walk every process's file-descriptor table and
/// keep the socket inodes. None where the process table cannot be read at
/// all; a single unreadable process is skipped.
fn fallback_process_entries() -> (r: Option<Vec<(Pid, Vec<Inode>)>>) {
    match list_processes() {
        Some(procs) => {
            let mut entries: Vec<(Pid, Vec<Inode>)> = Vec::new();
            let n = procs.len();
            for i in 0..n
                invariant
                    n == procs@.len(),
            {
                let pid = process_pid(&procs[i]);
                match process_socket_inodes(&procs[i]) {
                    Some(inodes) => entries.push((pid, inodes)),
                    None => (),
                }
            }
            Some(entries)
        },
        None => None,
    }
}

/// One name-lookup answer per process entry, for that entry's pid, in entry
/// order: the plan by which a refresh queries the display-name lookup.
pub open spec fn names_answer_entries(
    names: Seq<(Pid, Option<String>)>,
    entries: Seq<(Pid, Seq<Inode>)>,
) -> bool {
    &&& names.len() == entries.len()
    &&& forall|k: int| 0 <= k < entries.len() ==> names[k].0 == (#[trigger] entries[k]).0
}

/// The attribution map one refresh assembles from what it read: the join of
/// that call's inode-to-port pairs with the inode-to-pid map aggregated from
/// its process entries, under one name answer per entry. The previous map
/// does not appear: a successful refresh replaces it wholesale.
pub open spec fn spec_refresh_result(
    m: Map<Port, Seq<(Pid, Seq<char>)>>,
    pairs: Seq<(Inode, Port)>,
    entries: Seq<(Pid, Seq<Inode>)>,
    names: Seq<(Pid, Option<String>)>,
) -> bool {
    &&& names_answer_entries(names, entries)
    &&& m == spec_join(
        pairs,
        spec_aggregate_entries(Map::<Inode, Seq<Pid>>::empty(), entries),
        names,
    )
}

/// Resolve the display name of every pid the entries mention, through the
/// display-name lookup — one query per entry, in entry order; a vanished
/// process is recorded as such, never an error.
fn collect_names(entries: &Vec<(Pid, Vec<Inode>)>) -> (names: NameTable)
    ensures
        names_answer_entries(names.entries_view(), deep_entries(entries@)),
{
    let mut names = NameTable::new();
    let n = entries.len();
    for i in 0..n
        invariant
            n == entries@.len(),
            names.entries_view().len() == i,
            forall|k: int|
                0 <= k < i ==> names.entries_view()[k].0 == (#[trigger] entries@[k]).0,
    {
        let pid = entries[i].0;
        names.push(pid, process_display_name(pid));
    }
    names
}

impl PortToProcessTable {
    /// Rebuild the attribution map from scratch: read the kernel socket
    /// tables, resolve socket inodes to processes — from the fast-path
    /// source where the caller probed and read one this refresh, else by the
    /// process-table walk — and join. On success the fresh map replaces the
    /// old one wholesale: it is the join of this call's reads alone, and
    /// where a fast-path source was handed in, the process entries are
    /// exactly its parse. Where a kernel source cannot be read the refresh
    /// fails and the previous, stale-but-valid map is retained.
    pub fn refresh(&mut self, fast_path_source: Option<&[u8]>) -> (ok: bool)
        requires
            old(self).wf(),
        ensures
            final(self).wf(),
            !ok ==> final(self).map() == old(self).map() && final(self).port_order() == old(
                self,
            ).port_order(),
            ok ==> exists|
                pairs: Seq<(Inode, Port)>,
                entries: Seq<(Pid, Seq<Inode>)>,
                names: Seq<(Pid, Option<String>)>,
            |
                {
                    &&& #[trigger] spec_refresh_result(final(self).map(), pairs, entries, names)
                    &&& fast_path_source is Some ==> entries == spec_parse_source_from(
                        fast_path_source->Some_0@,
                        0,
                    )
                },
    {
        let tcp = match read_tcp_table() {
            Some(v) => v,
            None => return false,
        };
        let tcp6 = match read_tcp6_table() {
            Some(v) => v,
            None => return false,
        };
        let udp = match read_udp_table() {
            Some(v) => v,
            None => return false,
        };
        let udp6 = match read_udp6_table() {
            Some(v) => v,
            None => return false,
        };
        let pairs = build_inode_port_pairs(&tcp, &tcp6, &udp, &udp6);
        let entries: Vec<(Pid, Vec<Inode>)> = match fast_path_source {
            Some(data) => parse_fast_path_source(data),
            None => match fallback_process_entries() {
                Some(e) => e,
                None => return false,
            },
        };
        let ipm = build_inode_pid_map(&entries);
        let names = collect_names(&entries);
        let fresh = join_attribution(&pairs, &ipm, &names);
        proof {
            assert(spec_refresh_result(
                fresh.map(),
                pairs@,
                deep_entries(entries@),
                names.entries_view(),
            ));
        }
        *self = fresh;
        proof {
            assert(exists|
                gp: Seq<(Inode, Port)>,
                ge: Seq<(Pid, Seq<Inode>)>,
                gn: Seq<(Pid, Option<String>)>,
            |
                {
                    &&& #[trigger] spec_refresh_result(self.map(), gp, ge, gn)
                    &&& fast_path_source is Some ==> ge == spec_parse_source_from(
                        fast_path_source->Some_0@,
                        0,
                    )
                }) by {
                assert(spec_refresh_result(
                    self.map(),
                    pairs@,
                    deep_entries(entries@),
                    names.entries_view(),
                ));
            }
        }
        true
    }
}

} // verus!
