//! Decisions of the daemon's multiplexer that lets several GUIs attach to one
//! proto client: which connection an outgoing Envelope goes to, what a newly
//! attached GUI is sent first, and what a departing GUI leaves behind. The
//! caller moves the bytes.

use std::collections::HashMap;

use vstd::prelude::*;

use crate::gui_ids::{remapped, routed, without_connection, EnvelopeIds, GuiIdMap, GuiIdMapView, OutgoingRoute};

verus! {

/// What a newly attached GUI is sent before anything else.
pub enum AttachAction<M> {
    /// The first GUI gets every Envelope that arrived while none was attached,
    /// in arrival order.
    Replay(Vec<M>),
    /// A further GUI gets a `RemoteStarted` Envelope.
    Started,
}

/// Where an outgoing Envelope goes.
pub enum Delivery<M> {
    /// No GUI is attached: it waits for the first one.
    Queued,
    /// Server-initiated: to every attached GUI.
    ToAll { targets: Vec<u64>, message: M },
    /// A response: to the GUI that asked, under the id it chose.
    ToOne { conn: u64, responding_to: u32, message: M },
    /// A response whose GUI has gone.
    Dropped,
}

/// The multiplexer's state: the id map, the attached GUIs, and the Envelopes
/// waiting for a first GUI.
pub struct GuiMuxState<M> {
    ids: GuiIdMap,
    connections: Vec<u64>,
    pending_out: Vec<M>,
    next_conn: u64,
}

pub struct GuiMuxView<M> {
    pub ids: GuiIdMapView,
    pub connections: Seq<u64>,
    pub pending_out: Seq<M>,
    pub next_conn: u64,
}

impl<M> View for GuiMuxState<M> {
    type V = GuiMuxView<M>;

    closed spec fn view(&self) -> GuiMuxView<M> {
        GuiMuxView {
            ids: self.ids@,
            connections: self.connections@,
            pending_out: self.pending_out@,
            next_conn: self.next_conn,
        }
    }
}

/// `connections` without `conn`.
pub open spec fn without(connections: Seq<u64>, conn: u64) -> Seq<u64> {
    connections.filter(|c: u64| c != conn)
}

impl<M> GuiMuxState<M> {
    #[verifier::type_invariant]
    closed spec fn inv(self) -> bool {
        &&& self.connections@.no_duplicates()
        &&& forall|i: int| 0 <= i < self.connections@.len() ==> 1 <= #[trigger] self.connections@[i] <= self.next_conn
    }

    pub fn new() -> (state: GuiMuxState<M>)
        ensures
            state@.ids.next_id == 0,
            state@.ids.requests == Map::<u32, (u64, u32)>::empty(),
            state@.connections.len() == 0,
            state@.pending_out.len() == 0,
            state@.next_conn == 0,
    {
        GuiMuxState { ids: GuiIdMap::new(), connections: Vec::new(), pending_out: Vec::new(), next_conn: 0 }
    }

    /// A GUI attaches: it gets the next connection id. The first GUI is
    /// handed every queued Envelope; a later one gets `Started`.
    pub fn attach(&mut self) -> (r: (u64, AttachAction<M>))
        requires
            old(self)@.next_conn < u64::MAX,
        ensures
            r.0 == old(self)@.next_conn + 1,
            final(self)@.next_conn == r.0,
            final(self)@.connections == old(self)@.connections.push(r.0),
            final(self)@.ids == old(self)@.ids,
            !old(self)@.connections.contains(r.0),
            if old(self)@.connections.len() == 0 {
                &&& r.1 matches AttachAction::Replay(replayed) && replayed@ == old(self)@.pending_out
                &&& final(self)@.pending_out.len() == 0
            } else {
                &&& r.1 matches AttachAction::Started
                &&& final(self)@.pending_out == old(self)@.pending_out
            },
    {
        proof {
            use_type_invariant(&*self);
        }
        let conn = self.next_conn + 1;
        let is_first = self.connections.len() == 0;
        proof {
            if self.connections@.contains(conn) {
                let w = choose|w: int| 0 <= w < self.connections@.len() && self.connections@[w] == conn;
                assert(self.connections@[w] <= self.next_conn);
            }
        }
        let mut connections = Vec::new();
        std::mem::swap(&mut connections, &mut self.connections);
        let ghost before = connections@;
        connections.push(conn);
        proof {
            assert forall|i: int, j: int| 0 <= i < j < connections@.len() implies connections@[i] != connections@[j] by {
                if j == connections@.len() - 1 {
                    assert(before[i] <= old(self)@.next_conn);
                } else {
                    assert(before.no_duplicates());
                    assert(connections@[i] == before[i] && connections@[j] == before[j]);
                }
            }
        }
        let mut pending = Vec::new();
        std::mem::swap(&mut pending, &mut self.pending_out);
        let mut ids = GuiIdMap::new();
        std::mem::swap(&mut ids, &mut self.ids);
        if is_first {
            *self = GuiMuxState { ids, connections, pending_out: Vec::new(), next_conn: conn };
            (conn, AttachAction::Replay(pending))
        } else {
            *self = GuiMuxState { ids, connections, pending_out: pending, next_conn: conn };
            (conn, AttachAction::Started)
        }
    }

    /// An Envelope from GUI `conn` gets a daemon-unique id.
    pub fn incoming(&mut self, conn: u64, ids: EnvelopeIds) -> (r: EnvelopeIds)
        ensures
            (final(self)@.ids, r) == remapped(old(self)@.ids, conn, ids),
            final(self)@.connections == old(self)@.connections,
            final(self)@.pending_out == old(self)@.pending_out,
            final(self)@.next_conn == old(self)@.next_conn,
    {
        proof {
            use_type_invariant(&*self);
        }
        let mut map = GuiIdMap::new();
        std::mem::swap(&mut map, &mut self.ids);
        let r = map.remap_incoming(conn, ids);
        self.ids = map;
        r
    }

    /// Decides where a daemon-originated Envelope goes. Its id entry is
    /// consumed either way; with no GUI attached it is queued.
    pub fn route_outgoing(&mut self, message: M, ids: EnvelopeIds) -> (d: Delivery<M>)
        ensures
            final(self)@.ids == routed(old(self)@.ids, ids).0,
            final(self)@.connections == old(self)@.connections,
            final(self)@.next_conn == old(self)@.next_conn,
            if old(self)@.connections.len() == 0 {
                &&& d matches Delivery::Queued
                &&& final(self)@.pending_out == old(self)@.pending_out.push(message)
            } else {
                &&& final(self)@.pending_out == old(self)@.pending_out
                &&& match routed(old(self)@.ids, ids).1 {
                    OutgoingRoute::Broadcast => d matches Delivery::ToAll { targets, message: m }
                        && targets@ == old(self)@.connections && m == message,
                    OutgoingRoute::Unicast { conn, responding_to } => if old(self)@.connections.contains(conn) {
                        d matches Delivery::ToOne { conn: c, responding_to: r, message: m } && c == conn
                            && r == responding_to && m == message
                    } else {
                        d matches Delivery::Dropped
                    },
                }
            },
    {
        proof {
            use_type_invariant(&*self);
        }
        let mut map = GuiIdMap::new();
        std::mem::swap(&mut map, &mut self.ids);
        let route = map.route_outgoing(ids);
        self.ids = map;
        if self.connections.len() == 0 {
            let mut pending = Vec::new();
            std::mem::swap(&mut pending, &mut self.pending_out);
            pending.push(message);
            self.pending_out = pending;
            return Delivery::Queued;
        }
        match route {
            OutgoingRoute::Broadcast => Delivery::ToAll { targets: self.connections.clone(), message },
            OutgoingRoute::Unicast { conn, responding_to } => {
                if contains_conn(&self.connections, conn) {
                    Delivery::ToOne { conn, responding_to, message }
                } else {
                    Delivery::Dropped
                }
            },
        }
    }

    /// GUI `conn` left: it is no longer a target and its pending request ids
    /// are forgotten.
    pub fn detach(&mut self, conn: u64)
        ensures
            final(self)@.connections == without(old(self)@.connections, conn),
            final(self)@.ids.requests == without_connection(old(self)@.ids.requests, conn),
            final(self)@.ids.next_id == old(self)@.ids.next_id,
            final(self)@.pending_out == old(self)@.pending_out,
            final(self)@.next_conn == old(self)@.next_conn,
    {
        proof {
            use_type_invariant(&*self);
        }
        let mut map = GuiIdMap::new();
        std::mem::swap(&mut map, &mut self.ids);
        map.drop_connection(conn);
        self.ids = map;
        let mut kept: Vec<u64> = Vec::new();
        let mut i: usize = 0;
        while i < self.connections.len()
            invariant
                i <= self.connections@.len(),
                kept@ == without(self.connections@.take(i as int), conn),
            decreases self.connections@.len() - i,
        {
            let c = self.connections[i];
            proof {
                assert(self.connections@.take(i + 1).drop_last() =~= self.connections@.take(i as int));
                reveal(Seq::filter);
            }
            if c != conn {
                kept.push(c);
            }
            i += 1;
        }
        assert(self.connections@.take(self.connections@.len() as int) =~= self.connections@);
        let ghost old_connections = self.connections@;
        proof {
            assert(kept@.no_duplicates()) by {
                lemma_filter_no_duplicates(old_connections, conn);
            }
            assert forall|i: int| 0 <= i < kept@.len() implies 1 <= #[trigger] kept@[i] <= self.next_conn by {
                lemma_filter_subset(old_connections, conn, kept@[i]);
            }
        }
        self.connections = kept;
    }

    /// The attached GUIs, in attach order.
    pub fn connections(&self) -> (r: &Vec<u64>)
        ensures
            r@ == self@.connections,
    {
        &self.connections
    }

    pub fn pending_request_count(&self) -> (n: usize)
        ensures
            n == self@.ids.requests.len(),
    {
        self.ids.pending_request_count()
    }
}

/// Which of a GUI proxy's three unix sockets a connection is.
#[derive(Clone, Copy, Debug, PartialEq, Eq, Structural)]
pub enum StreamKind {
    Stdin,
    Stdout,
    Stderr,
}

/// The sockets of one GUI proxy seen so far. A GUI is attached once all
/// three have connected.
pub struct PartialTriple<S> {
    pub stdin: Option<S>,
    pub stdout: Option<S>,
    pub stderr: Option<S>,
}

/// `t` with the slot of `kind` holding `stream`.
pub open spec fn with_stream<S>(t: PartialTriple<S>, kind: StreamKind, stream: S) -> PartialTriple<S> {
    match kind {
        StreamKind::Stdin => PartialTriple { stdin: Some(stream), ..t },
        StreamKind::Stdout => PartialTriple { stdout: Some(stream), ..t },
        StreamKind::Stderr => PartialTriple { stderr: Some(stream), ..t },
    }
}

impl<S> PartialTriple<S> {
    pub fn new() -> (t: PartialTriple<S>)
        ensures
            t.stdin is None && t.stdout is None && t.stderr is None,
    {
        PartialTriple { stdin: None, stdout: None, stderr: None }
    }

    /// Files a newly accepted socket. When that completes the triple, the
    /// three sockets are handed out and the slots are emptied; otherwise the
    /// socket waits for the others (a later socket of the same kind replaces
    /// it).
    pub fn insert(&mut self, kind: StreamKind, stream: S) -> (r: Option<(S, S, S)>)
        ensures
            ({
                let filled = with_stream(*old(self), kind, stream);
                if filled.stdin is Some && filled.stdout is Some && filled.stderr is Some {
                    &&& r == Some((filled.stdin->0, filled.stdout->0, filled.stderr->0))
                    &&& final(self).stdin is None && final(self).stdout is None && final(self).stderr is None
                } else {
                    &&& r is None
                    &&& *final(self) == filled
                }
            }),
    {
        match kind {
            StreamKind::Stdin => self.stdin = Some(stream),
            StreamKind::Stdout => self.stdout = Some(stream),
            StreamKind::Stderr => self.stderr = Some(stream),
        }
        match (self.stdin.take(), self.stdout.take(), self.stderr.take()) {
            (Some(stdin), Some(stdout), Some(stderr)) => Some((stdin, stdout, stderr)),
            (stdin, stdout, stderr) => {
                self.stdin = stdin;
                self.stdout = stdout;
                self.stderr = stderr;
                None
            },
        }
    }
}

/// Sockets accepted so far, sorted into proxies: by the connecting
/// process's pid where the platform reports one, otherwise into one shared
/// triple, so that two proxies cannot mix their streams.
pub struct GuiPairing<S> {
    by_pid: HashMap<u32, PartialTriple<S>>,
    unkeyed: PartialTriple<S>,
}

/// A triple with no socket yet.
pub open spec fn empty_triple<S>() -> PartialTriple<S> {
    PartialTriple { stdin: None, stdout: None, stderr: None }
}

/// Whether a triple holds all three sockets.
pub open spec fn complete<S>(t: PartialTriple<S>) -> bool {
    t.stdin is Some && t.stdout is Some && t.stderr is Some
}

impl<S> GuiPairing<S> {
    /// The triples waiting per pid.
    pub closed spec fn waiting(self) -> Map<u32, PartialTriple<S>> {
        self.by_pid@
    }

    /// The triple of sockets without a pid.
    pub closed spec fn unkeyed(self) -> PartialTriple<S> {
        self.unkeyed
    }

    /// Nothing accepted yet.
    pub fn new() -> (p: GuiPairing<S>)
        ensures
            p.waiting() == Map::<u32, PartialTriple<S>>::empty(),
            p.unkeyed() == empty_triple::<S>(),
    {
        GuiPairing { by_pid: HashMap::new(), unkeyed: PartialTriple::new() }
    }

    /// Files a socket of `kind` from process `pid`. When it completes that
    /// process's triple, the three sockets are handed out and the process is
    /// forgotten.
    pub fn accept(&mut self, pid: Option<u32>, kind: StreamKind, stream: S) -> (r: Option<(S, S, S)>)
        ensures
            match pid {
                Some(p) => {
                    let before = if old(self).waiting().contains_key(p) {
                        old(self).waiting()[p]
                    } else {
                        empty_triple::<S>()
                    };
                    let filled = with_stream(before, kind, stream);
                    &&& final(self).unkeyed() == old(self).unkeyed()
                    &&& complete(filled) ==> r == Some((filled.stdin->0, filled.stdout->0, filled.stderr->0))
                        && final(self).waiting() == old(self).waiting().remove(p)
                    &&& !complete(filled) ==> r is None && final(self).waiting() == old(self).waiting().insert(p, filled)
                },
                None => {
                    let filled = with_stream(old(self).unkeyed(), kind, stream);
                    &&& final(self).waiting() == old(self).waiting()
                    &&& complete(filled) ==> r == Some((filled.stdin->0, filled.stdout->0, filled.stderr->0))
                        && final(self).unkeyed() == empty_triple::<S>()
                    &&& !complete(filled) ==> r is None && final(self).unkeyed() == filled
                },
            },
    {
        match pid {
            Some(p) => {
                assert(vstd::std_specs::hash::obeys_key_model::<u32>());
                assert(vstd::std_specs::hash::builds_valid_hashers::<std::hash::RandomState>());
                let mut triple = match self.by_pid.remove(&p) {
                    Some(t) => t,
                    None => PartialTriple::new(),
                };
                let r = triple.insert(kind, stream);
                if r.is_none() {
                    self.by_pid.insert(p, triple);
                }
                r
            },
            None => self.unkeyed.insert(kind, stream),
        }
    }
}

/// Whether `conn` is among `connections`.
fn contains_conn(connections: &Vec<u64>, conn: u64) -> (r: bool)
    ensures
        r == connections@.contains(conn),
{
    let mut i: usize = 0;
    while i < connections.len()
        invariant
            i <= connections@.len(),
            forall|j: int| 0 <= j < i ==> connections@[j] != conn,
        decreases connections@.len() - i,
    {
        if connections[i] == conn {
            return true;
        }
        i += 1;
    }
    false
}

proof fn lemma_filter_subset(s: Seq<u64>, conn: u64, x: u64)
    requires
        without(s, conn).contains(x),
    ensures
        s.contains(x),
    decreases s.len(),
{
    reveal(Seq::filter);
    if s.len() > 0 {
        if x != s.last() || s.last() == conn {
            assert(without(s, conn) == without(s.drop_last(), conn) || without(s, conn) == without(s.drop_last(), conn).push(s.last()));
            if without(s, conn) == without(s.drop_last(), conn) {
                lemma_filter_subset(s.drop_last(), conn, x);
            } else {
                let w = choose|w: int| 0 <= w < without(s, conn).len() && without(s, conn)[w] == x;
                if w < without(s, conn).len() - 1 {
                    assert(without(s.drop_last(), conn)[w] == x);
                    lemma_filter_subset(s.drop_last(), conn, x);
                }
            }
            let w = choose|w: int| 0 <= w < s.drop_last().len() && s.drop_last()[w] == x;
            assert(s[w] == x);
        } else {
            assert(s[s.len() - 1] == x);
        }
    }
}

proof fn lemma_filter_no_duplicates(s: Seq<u64>, conn: u64)
    requires
        s.no_duplicates(),
    ensures
        without(s, conn).no_duplicates(),
    decreases s.len(),
{
    reveal(Seq::filter);
    if s.len() > 0 {
        assert(s.drop_last().no_duplicates());
        lemma_filter_no_duplicates(s.drop_last(), conn);
        if s.last() != conn {
            if without(s.drop_last(), conn).contains(s.last()) {
                lemma_filter_subset(s.drop_last(), conn, s.last());
                let w = choose|w: int| 0 <= w < s.drop_last().len() && s.drop_last()[w] == s.last();
                assert(s[w] == s[s.len() - 1]);
            }
        }
    }
}

} // verus!
