//! Remap Envelope ids so several GUIs can share one daemon proto client.
//!
//! Each GUI numbers `Envelope.id` from its own counter, so merging two stdin
//! streams as they are would collide request ids. This map gives every inbound
//! message a daemon-unique id and remembers which connection must receive the
//! matching response.

use std::collections::HashMap;

use vstd::prelude::*;
use vstd::std_specs::iter::IteratorSpec;

verus! {

broadcast use vstd::std_specs::hash::group_hash_axioms;

/// Ids copied off an `Envelope` for remapping. The rest of the payload is
/// left alone.
#[derive(Clone, Copy, Debug, PartialEq, Eq, Structural)]
pub struct EnvelopeIds {
    pub id: u32,
    pub responding_to: Option<u32>,
}

/// How a daemon-originated Envelope is written to GUI connections.
#[derive(Clone, Copy, Debug, PartialEq, Eq, Structural)]
pub enum OutgoingRoute {
    /// Server-initiated request or notification: every attached GUI.
    Broadcast,
    /// Response to a GUI request: only the originator, with its original id.
    Unicast { conn: u64, responding_to: u32 },
}

/// Connection-scoped Envelope id map.
#[derive(Debug)]
pub struct GuiIdMap {
    next_id: u32,
    /// Remapped inbound id -> (connection, the GUI's original id).
    requests: HashMap<u32, (u64, u32)>,
}

/// The ids a map has handed out and the requests still waiting for a response.
#[verifier::ext_equal]
pub struct GuiIdMapView {
    pub next_id: u32,
    pub requests: Map<u32, (u64, u32)>,
}

impl View for GuiIdMap {
    type V = GuiIdMapView;

    closed spec fn view(&self) -> GuiIdMapView {
        GuiIdMapView { next_id: self.next_id, requests: self.requests@ }
    }
}

/// The request map without the entries of connection `conn`.
pub open spec fn without_connection(requests: Map<u32, (u64, u32)>, conn: u64) -> Map<u32, (u64, u32)> {
    Map::new(|k: u32| requests.contains_key(k) && requests[k].0 != conn, |k: u32| requests[k])
}

/// The id that follows `next_id`: one more, saturating at `u32::MAX`.
pub open spec fn following_id(next_id: u32) -> u32 {
    if next_id == u32::MAX { u32::MAX } else { (next_id + 1) as u32 }
}

/// What `remap_incoming` makes of a map and an inbound Envelope.
pub open spec fn remapped(m: GuiIdMapView, conn: u64, ids: EnvelopeIds) -> (GuiIdMapView, EnvelopeIds) {
    let id = following_id(m.next_id);
    let requests = if ids.responding_to is None {
        m.requests.insert(id, (conn, ids.id))
    } else {
        m.requests
    };
    (GuiIdMapView { next_id: id, requests }, EnvelopeIds { id, responding_to: ids.responding_to })
}

/// What `route_outgoing` makes of a map and an outbound Envelope.
pub open spec fn routed(m: GuiIdMapView, ids: EnvelopeIds) -> (GuiIdMapView, OutgoingRoute) {
    match ids.responding_to {
        Some(target) => if m.requests.contains_key(target) {
            (
                GuiIdMapView { next_id: m.next_id, requests: m.requests.remove(target) },
                OutgoingRoute::Unicast {
                    conn: m.requests[target].0,
                    responding_to: m.requests[target].1,
                },
            )
        } else {
            (m, OutgoingRoute::Broadcast)
        },
        None => (m, OutgoingRoute::Broadcast),
    }
}

impl GuiIdMapView {
    /// Finitely many requests are pending, and every pending request id has
    /// been handed out: it lies in `1..=next_id`.
    pub open spec fn wf(self) -> bool {
        &&& self.requests.dom().finite()
        &&& forall|k: u32| #[trigger] self.requests.contains_key(k) ==> 1 <= k <= self.next_id
    }
}

impl GuiIdMap {
    #[verifier::type_invariant]
    closed spec fn inv(self) -> bool {
        self@.wf()
    }

    pub fn new() -> (map: GuiIdMap)
        ensures
            map@.next_id == 0,
            map@.requests == Map::<u32, (u64, u32)>::empty(),
    {
        GuiIdMap { next_id: 0, requests: HashMap::new() }
    }

    /// Gives `ids` a daemon-unique `id`. `responding_to` is kept: on a GUI
    /// response to a server request it is a daemon-assigned id already.
    pub fn remap_incoming(&mut self, conn: u64, ids: EnvelopeIds) -> (r: EnvelopeIds)
        ensures
            (final(self)@, r) == remapped(old(self)@, conn, ids),
            r.id != 0,
            old(self)@.next_id < u32::MAX ==> !old(self)@.requests.contains_key(r.id),
            final(self)@.wf(),
    {
        proof {
            use_type_invariant(&*self);
        }
        let mut next = self.next_id.saturating_add(1);
        if next == 0 {
            next = 1;
        }
        let mut requests = HashMap::new();
        std::mem::swap(&mut requests, &mut self.requests);
        assert(requests@ == old(self)@.requests);
        assert(vstd::std_specs::hash::obeys_key_model::<u32>());
        assert(vstd::std_specs::hash::builds_valid_hashers::<std::hash::RandomState>());
        if ids.responding_to.is_none() {
            requests.insert(next, (conn, ids.id));
        }
        assert(forall|k: u32| #[trigger] requests@.contains_key(k) ==> 1 <= k <= next);
        *self = GuiIdMap { next_id: next, requests };
        EnvelopeIds { id: next, responding_to: ids.responding_to }
    }

    /// Routes a daemon-originated Envelope. A response consumes its request
    /// entry, so ids do not leak.
    pub fn route_outgoing(&mut self, ids: EnvelopeIds) -> (route: OutgoingRoute)
        ensures
            (final(self)@, route) == routed(old(self)@, ids),
            final(self)@.wf(),
    {
        proof {
            use_type_invariant(&*self);
        }
        let target = match ids.responding_to {
            None => {
                return OutgoingRoute::Broadcast;
            },
            Some(target) => target,
        };
        let mut requests = HashMap::new();
        std::mem::swap(&mut requests, &mut self.requests);
        assert(requests@ == old(self)@.requests);
        assert(vstd::std_specs::hash::obeys_key_model::<u32>());
        assert(vstd::std_specs::hash::builds_valid_hashers::<std::hash::RandomState>());
        let removed = requests.remove(&target);
        assert(requests@ == old(self)@.requests.remove(target));
        let next_id = self.next_id;
        *self = GuiIdMap { next_id, requests };
        match removed {
            Some((conn, original)) => {
                assert(old(self)@.requests.contains_key(target));
                assert(old(self)@.requests[target] == (conn, original));
                OutgoingRoute::Unicast { conn, responding_to: original }
            },
            None => {
                assert(!old(self)@.requests.contains_key(target));
                OutgoingRoute::Broadcast
            },
        }
    }

    /// Drops the pending request ids of a GUI that disconnected.
    pub fn drop_connection(&mut self, conn: u64)
        ensures
            final(self)@.next_id == old(self)@.next_id,
            final(self)@.requests == without_connection(old(self)@.requests, conn),
            final(self)@.wf(),
    {
        proof {
            use_type_invariant(&*self);
        }
        let mut requests = HashMap::new();
        std::mem::swap(&mut requests, &mut self.requests);
        let ghost start = requests@;
        assert(start == old(self)@.requests);
        assert(old(self)@.wf());
        let mut doomed: Vec<u32> = Vec::new();
        let ghost mut idx: int = 0;
        assert(vstd::std_specs::hash::obeys_key_model::<u32>());
        assert(vstd::std_specs::hash::builds_valid_hashers::<std::hash::RandomState>());
        let ghost v = vstd::std_specs::hash::spec_hash_map_iter(&requests).remaining();
        for entry in it: requests.iter()
            invariant
                requests@ == start,
                idx == it.index(),
                it.seq() == v,
                forall|j: int|
                    0 <= j < doomed@.len() ==> start.contains_key(#[trigger] doomed@[j])
                        && start[doomed@[j]].0 == conn,
                forall|i: int|
                    0 <= i < idx && (*#[trigger] v[i].1).0 == conn ==> doomed@.contains(*v[i].0),
        {
            let ghost before = doomed@;
            assert(entry == v[idx]);
            let (key, value) = entry;
            if value.0 == conn {
                doomed.push(*key);
            }
            proof {
                assert forall|i: int|
                    0 <= i < idx + 1 && (*#[trigger] v[i].1).0 == conn implies doomed@.contains(*v[i].0) by {
                    if i < idx {
                        let w = choose|w: int| 0 <= w < before.len() && before[w] == *v[i].0;
                        assert(doomed@[w] == before[w]);
                    } else {
                        assert(doomed@[doomed@.len() - 1] == *key);
                    }
                }
                idx = idx + 1;
            }
        }
        assert(idx == v.len());
        proof {
            assert forall|k: u32| #[trigger] start.contains_key(k) && start[k].0 == conn implies doomed@.contains(k) by {
                assert(v.contains((&k, &start[k])));
                let i = choose|i: int| 0 <= i < v.len() && v[i] == (&k, &start[k]);
                assert((*v[i].1).0 == conn);
            }
        }
        let mut j: usize = 0;
        while j < doomed.len()
            invariant
                j <= doomed@.len(),
                forall|j: int|
                    0 <= j < doomed@.len() ==> start.contains_key(#[trigger] doomed@[j])
                        && start[doomed@[j]].0 == conn,
                forall|k: u32| #[trigger] start.contains_key(k) && start[k].0 == conn ==> doomed@.contains(k),
                requests@ == start.remove_keys(Set::new(|k: u32| doomed@.take(j as int).contains(k))),
            decreases doomed@.len() - j,
        {
            let key = doomed[j];
            requests.remove(&key);
            let ghost prefix = doomed@.take(j as int);
            let ghost longer = doomed@.take(j + 1);
            assert(longer =~= prefix.push(key));
            assert(Set::new(|k: u32| longer.contains(k)) =~= Set::new(|k: u32| prefix.contains(k)).insert(key)) by {
                assert forall|x: u32| longer.contains(x) <==> (prefix.contains(x) || x == key) by {
                    if longer.contains(x) {
                        let w = choose|w: int| 0 <= w < longer.len() && longer[w] == x;
                        if w < prefix.len() {
                            assert(prefix[w] == x);
                        }
                    }
                    if prefix.contains(x) {
                        let w = choose|w: int| 0 <= w < prefix.len() && prefix[w] == x;
                        assert(longer[w] == x);
                    }
                    if x == key {
                        assert(longer[j as int] == x);
                    }
                }
            }
            assert(requests@ =~= start.remove_keys(Set::new(|k: u32| longer.contains(k))));
            j += 1;
        }
        proof {
            assert(doomed@.take(doomed@.len() as int) =~= doomed@);
            assert forall|k: u32| doomed@.contains(k) implies start.contains_key(k) && start[k].0 == conn by {
                let w = choose|w: int| 0 <= w < doomed@.len() && doomed@[w] == k;
                assert(start.contains_key(doomed@[w]));
            }
            assert(requests@ =~= without_connection(start, conn));
            assert(forall|k: u32| #[trigger] requests@.contains_key(k) ==> start.contains_key(k));
        }
        let next_id = self.next_id;
        assert(next_id == old(self)@.next_id);
        assert(forall|k: u32| #[trigger] requests@.contains_key(k) ==> 1 <= k <= next_id);
        *self = GuiIdMap { next_id, requests };
    }

    pub fn pending_request_count(&self) -> (n: usize)
        ensures
            n == self@.requests.len(),
    {
        self.requests.len()
    }
}


} // verus!

verus! {

/// A response to a remapped request goes only to the GUI that sent the
/// request, under the id that GUI chose, and it leaves the pending requests
/// as they were before the request came in.
pub proof fn lemma_response_reaches_originator(
    m: GuiIdMapView,
    conn: u64,
    request: EnvelopeIds,
    reply_id: u32,
)
    requires
        m.wf(),
        m.next_id < u32::MAX,
        request.responding_to is None,
    ensures
        ({
            let (after_request, remapped_ids) = remapped(m, conn, request);
            let reply = EnvelopeIds { id: reply_id, responding_to: Some(remapped_ids.id) };
            let (after_reply, route) = routed(after_request, reply);
            &&& route == (OutgoingRoute::Unicast { conn, responding_to: request.id })
            &&& after_reply.requests == m.requests
        }),
{
    let id = following_id(m.next_id);
    assert(!m.requests.contains_key(id));
    assert(m.requests.insert(id, (conn, request.id)).remove(id) =~= m.requests);
}

/// Two requests remapped one after the other get different ids while the
/// counter has room, even when their GUIs picked the same id.
pub proof fn lemma_remapped_ids_differ(
    m: GuiIdMapView,
    first_conn: u64,
    first: EnvelopeIds,
    second_conn: u64,
    second: EnvelopeIds,
)
    requires
        m.next_id < u32::MAX - 1,
    ensures
        ({
            let (after_first, first_ids) = remapped(m, first_conn, first);
            let (_, second_ids) = remapped(after_first, second_conn, second);
            first_ids.id != second_ids.id
        }),
{
}

/// Remapping, routing and dropping a connection keep every pending request
/// id within the ids handed out.
pub proof fn lemma_operations_keep_wf(m: GuiIdMapView, conn: u64, ids: EnvelopeIds)
    requires
        m.wf(),
    ensures
        remapped(m, conn, ids).0.wf(),
        routed(m, ids).0.wf(),
        (GuiIdMapView { next_id: m.next_id, requests: without_connection(m.requests, conn) }).wf(),
{
    lemma_without_connection_finite(m.requests, conn);
}

proof fn lemma_without_connection_finite(requests: Map<u32, (u64, u32)>, conn: u64)
    requires
        requests.dom().finite(),
    ensures
        without_connection(requests, conn).dom().finite(),
        without_connection(requests, conn).dom() == requests.dom().filter(
            |k: u32| requests[k].0 != conn,
        ),
{
    assert(without_connection(requests, conn).dom() =~= requests.dom().filter(
        |k: u32| requests[k].0 != conn,
    ));
    requests.dom().lemma_len_filter(|k: u32| requests[k].0 != conn);
}

/// The pending requests of connection `conn`.
pub open spec fn pending_of(requests: Map<u32, (u64, u32)>, conn: u64) -> Set<u32> {
    requests.dom().filter(|k: u32| requests[k].0 == conn)
}

/// A response consumes its request: it goes to the GUI that asked, under the
/// id that GUI chose, one request fewer is pending, and a second response to
/// the same id finds nothing and is broadcast.
pub proof fn lemma_response_consumes_entry(m: GuiIdMapView, target: u32, reply_id: u32)
    requires
        m.wf(),
        m.requests.contains_key(target),
    ensures
        ({
            let reply = EnvelopeIds { id: reply_id, responding_to: Some(target) };
            let (after, route) = routed(m, reply);
            &&& route == (OutgoingRoute::Unicast {
                conn: m.requests[target].0,
                responding_to: m.requests[target].1,
            })
            &&& after.requests.len() == m.requests.len() - 1
            &&& after.wf()
            &&& routed(after, reply).1 == OutgoingRoute::Broadcast
        }),
{
}

/// Dropping a connection forgets exactly its pending requests: the count
/// falls by their number, a later response to one of them is broadcast,
/// every other connection's requests still route to it under their original
/// ids, and dropping the connection again changes nothing.
pub proof fn lemma_drop_connection_forgets_only_its_requests(
    m: GuiIdMapView,
    conn: u64,
    target: u32,
    reply_id: u32,
)
    requires
        m.wf(),
    ensures
        ({
            let dropped = GuiIdMapView { next_id: m.next_id, requests: without_connection(m.requests, conn) };
            let reply = EnvelopeIds { id: reply_id, responding_to: Some(target) };
            &&& dropped.wf()
            &&& dropped.requests.len() == m.requests.len() - pending_of(m.requests, conn).len()
            &&& (m.requests.contains_key(target) && m.requests[target].0 == conn) ==> routed(
                dropped,
                reply,
            ).1 == OutgoingRoute::Broadcast
            &&& (m.requests.contains_key(target) && m.requests[target].0 != conn) ==> routed(
                dropped,
                reply,
            ).1 == routed(m, reply).1
            &&& without_connection(dropped.requests, conn) == dropped.requests
        }),
{
    lemma_without_connection_finite(m.requests, conn);
    let dom = m.requests.dom();
    let mine = pending_of(m.requests, conn);
    let rest = dom.filter(|k: u32| m.requests[k].0 != conn);
    dom.lemma_len_filter(|k: u32| m.requests[k].0 == conn);
    dom.lemma_len_filter(|k: u32| m.requests[k].0 != conn);
    assert(mine + rest =~= dom);
    assert(mine.disjoint(rest));
    vstd::set_lib::lemma_set_disjoint_lens(mine, rest);
    let dropped = without_connection(m.requests, conn);
    assert(without_connection(dropped, conn) =~= dropped);
}

/// One step of a map's life: a GUI request or response arrives, the daemon
/// sends something, or a GUI leaves.
pub enum IdMapOp {
    Remap { conn: u64, ids: EnvelopeIds },
    Route { ids: EnvelopeIds },
    Drop { conn: u64 },
}

pub open spec fn apply_op(m: GuiIdMapView, op: IdMapOp) -> GuiIdMapView {
    match op {
        IdMapOp::Remap { conn, ids } => remapped(m, conn, ids).0,
        IdMapOp::Route { ids } => routed(m, ids).0,
        IdMapOp::Drop { conn } => GuiIdMapView {
            next_id: m.next_id,
            requests: without_connection(m.requests, conn),
        },
    }
}

/// The map after `ops`, in order.
pub open spec fn apply_ops(m: GuiIdMapView, ops: Seq<IdMapOp>) -> GuiIdMapView
    decreases ops.len(),
{
    if ops.len() == 0 {
        m
    } else {
        apply_op(apply_ops(m, ops.drop_last()), ops.last())
    }
}

/// How many of `ops` remap an inbound Envelope, each handing out an id.
pub open spec fn remap_count(ops: Seq<IdMapOp>) -> nat
    decreases ops.len(),
{
    if ops.len() == 0 {
        0
    } else {
        remap_count(ops.drop_last()) + if ops.last() is Remap { 1nat } else { 0nat }
    }
}

/// Whether `op` leaves the request `id` of connection `conn` pending: it is
/// not that connection leaving, nor a response to that id.
pub open spec fn leaves_request(op: IdMapOp, conn: u64, id: u32) -> bool {
    match op {
        IdMapOp::Drop { conn: c } => c != conn,
        IdMapOp::Route { ids } => ids.responding_to != Some(id),
        IdMapOp::Remap { .. } => true,
    }
}

proof fn lemma_entry_kept(start: GuiIdMapView, ops: Seq<IdMapOp>, id: u32)
    requires
        start.wf(),
        start.requests.contains_key(id),
        start.next_id + remap_count(ops) < u32::MAX,
        forall|i: int| 0 <= i < ops.len() ==> leaves_request(#[trigger] ops[i], start.requests[id].0, id),
    ensures
        apply_ops(start, ops).wf(),
        apply_ops(start, ops).requests.contains_key(id),
        apply_ops(start, ops).requests[id] == start.requests[id],
        start.next_id <= apply_ops(start, ops).next_id <= start.next_id + remap_count(ops),
    decreases ops.len(),
{
    if ops.len() > 0 {
        let prefix = ops.drop_last();
        assert forall|i: int| 0 <= i < prefix.len() implies leaves_request(
            #[trigger] prefix[i],
            start.requests[id].0,
            id,
        ) by {
            assert(prefix[i] == ops[i]);
        }
        lemma_entry_kept(start, prefix, id);
        let cur = apply_ops(start, prefix);
        let op = ops.last();
        assert(leaves_request(ops[ops.len() - 1], start.requests[id].0, id));
        match op {
            IdMapOp::Remap { conn, ids } => {
                lemma_operations_keep_wf(cur, conn, ids);
            },
            IdMapOp::Route { ids } => {
                lemma_operations_keep_wf(cur, 0, ids);
            },
            IdMapOp::Drop { conn } => {
                lemma_operations_keep_wf(cur, conn, EnvelopeIds { id: 0, responding_to: None });
            },
        }
    }
}

/// A request keeps its route across whatever happens before its response,
/// as long as its GUI stays, no other response answers its id first, and the
/// id counter does not run full meanwhile (only remaps hand out ids; routes
/// and departures do not count): the response then
/// goes to that GUI under its own id, consumes the request, and a second
/// response to the same id is broadcast.
pub proof fn lemma_request_routes_back_after_ops(
    m: GuiIdMapView,
    conn: u64,
    request: EnvelopeIds,
    ops: Seq<IdMapOp>,
    reply_id: u32,
)
    requires
        m.wf(),
        request.responding_to is None,
        m.next_id + remap_count(ops) + 1 < u32::MAX,
        forall|i: int|
            0 <= i < ops.len() ==> leaves_request(
                #[trigger] ops[i],
                conn,
                remapped(m, conn, request).1.id,
            ),
    ensures
        ({
            let (after_request, remapped_ids) = remapped(m, conn, request);
            let later = apply_ops(after_request, ops);
            let reply = EnvelopeIds { id: reply_id, responding_to: Some(remapped_ids.id) };
            let (after_reply, route) = routed(later, reply);
            &&& route == (OutgoingRoute::Unicast { conn, responding_to: request.id })
            &&& after_reply.requests.len() == later.requests.len() - 1
            &&& routed(after_reply, reply).1 == OutgoingRoute::Broadcast
        }),
{
    let (after_request, remapped_ids) = remapped(m, conn, request);
    lemma_operations_keep_wf(m, conn, request);
    lemma_entry_kept(after_request, ops, remapped_ids.id);
    lemma_response_consumes_entry(apply_ops(after_request, ops), remapped_ids.id, reply_id);
}

} // verus!
