//! Payload shapes carried in the Envelope messages at fields >= 2000.
//!
//! The wire format is ACP JSON-RPC (or a compatible JSON object) as a string.

use vstd::prelude::*;

use crate::event_seq::EventSeq;

verus! {

/// One JSON-RPC line (no trailing newline) tunneled in `SessionAgentRpc`.
#[derive(Clone, Debug, PartialEq, Eq)]
pub struct JsonRpcLine(pub String);

impl JsonRpcLine {
    pub fn new(json: String) -> (line: JsonRpcLine)
        ensures
            line.0@ == json@,
    {
        JsonRpcLine(json)
    }

    pub fn as_str(&self) -> (s: &str)
        ensures
            s@ == self.0@,
    {
        self.0.as_str()
    }
}

/// Catch-up cursor sent on reconnect (`SessionSubscribe.last_seq`).
#[derive(Clone, Copy, Debug, PartialEq, Eq, Structural)]
pub struct SubscribeRequest {
    pub last_seq: EventSeq,
}

/// Log entries the client has not seen yet (`SessionCatchUp`).
#[derive(Clone, Debug, PartialEq, Eq)]
pub struct CatchUpResponse {
    pub from_seq: EventSeq,
    pub to_seq: EventSeq,
    pub events_json: Vec<String>,
}

/// The entries of a list of strings, each by its characters.
pub open spec fn strings_view(v: Seq<String>) -> Seq<Seq<char>> {
    v.map_values(|s: String| s@)
}

impl CatchUpResponse {
    /// Nothing to replay: both ends of the window are `head`.
    pub fn empty(head: EventSeq) -> (r: CatchUpResponse)
        ensures
            r.from_seq == head,
            r.to_seq == head,
            r.events_json@.len() == 0,
    {
        CatchUpResponse { from_seq: head, to_seq: head, events_json: Vec::new() }
    }

    pub fn is_empty(&self) -> (r: bool)
        ensures
            r == (self.events_json@.len() == 0),
    {
        self.events_json.len() == 0
    }
}

/// The catch-up window as the Envelope message carries it: positions as
/// plain integers.
#[derive(Clone, Debug, PartialEq, Eq)]
pub struct SessionCatchUp {
    pub from_seq: u64,
    pub to_seq: u64,
    pub events_json: Vec<String>,
}

fn copy_strings(v: &Vec<String>) -> (c: Vec<String>)
    ensures
        strings_view(c@) == strings_view(v@),
{
    let mut c: Vec<String> = Vec::new();
    let mut i: usize = 0;
    while i < v.len()
        invariant
            i <= v@.len(),
            strings_view(c@) == strings_view(v@.take(i as int)),
        decreases v@.len() - i,
    {
        let ghost before = c@;
        c.push(v[i].clone());
        assert(strings_view(c@) =~= strings_view(before).push(v@[i as int]@));
        assert(strings_view(v@.take(i + 1)) =~= strings_view(v@.take(i as int)).push(v@[i as int]@));
        i += 1;
    }
    assert(v@.take(v@.len() as int) =~= v@);
    c
}

/// The catch-up a GUI received, with its positions as sequence numbers.
pub fn catch_up_from_proto(catch_up: &SessionCatchUp) -> (r: CatchUpResponse)
    ensures
        r.from_seq.0 == catch_up.from_seq,
        r.to_seq.0 == catch_up.to_seq,
        strings_view(r.events_json@) == strings_view(catch_up.events_json@),
{
    CatchUpResponse {
        from_seq: EventSeq(catch_up.from_seq),
        to_seq: EventSeq(catch_up.to_seq),
        events_json: copy_strings(&catch_up.events_json),
    }
}

/// The Envelope form of a catch-up the daemon answers a subscribe with.
pub fn catch_up_to_proto(catch_up: CatchUpResponse) -> (r: SessionCatchUp)
    ensures
        r.from_seq == catch_up.from_seq.0,
        r.to_seq == catch_up.to_seq.0,
        r.events_json == catch_up.events_json,
{
    SessionCatchUp {
        from_seq: catch_up.from_seq.0,
        to_seq: catch_up.to_seq.0,
        events_json: catch_up.events_json,
    }
}

} // verus!
