//! GUI-side bookkeeping of how far each ACP session has been replayed from
//! the daemon's event log, so that a reconnect asks only for the rest.

use vstd::prelude::*;

use crate::acp_connect::NATIVE_AGENT_ID;

verus! {

/// The agent id put on the wire: empty for the native agent, which the
/// daemon treats as native, and the id itself otherwise.
pub fn wire_agent_id(agent_id: &str) -> (wire: String)
    ensures
        wire@ == if agent_id@ == NATIVE_AGENT_ID@ { Seq::<char>::empty() } else { agent_id@ },
{
    let given = agent_id.to_owned();
    let native = String::from_str(NATIVE_AGENT_ID);
    if given == native {
        String::new()
    } else {
        given
    }
}

/// The last event-log position applied for each session, and over all
/// sessions. Positions are global log indices, not counts.
#[derive(Debug)]
pub struct SessionSeqs {
    by_session: Vec<(String, u64)>,
    global_last_seq: u64,
}

/// The positions as a map from session id, and the overall position.
pub struct SessionSeqsView {
    pub by_session: Map<Seq<char>, u64>,
    pub global_last_seq: u64,
}

/// The session ids in `entries`.
pub open spec fn entry_keys(entries: Seq<(String, u64)>) -> Seq<Seq<char>> {
    entries.map_values(|e: (String, u64)| e.0@)
}

/// The entries as a map; each key occurs once.
pub open spec fn entries_map(entries: Seq<(String, u64)>) -> Map<Seq<char>, u64>
    decreases entries.len(),
{
    if entries.len() == 0 {
        Map::empty()
    } else {
        entries_map(entries.drop_last()).insert(entries.last().0@, entries.last().1)
    }
}

pub open spec fn max_u64(a: u64, b: u64) -> u64 {
    if a >= b { a } else { b }
}

/// The map after recording that `session` reached `seq`: its position and
/// the overall one only grow.
pub open spec fn recorded(v: SessionSeqsView, session: Seq<char>, seq: u64) -> SessionSeqsView {
    let old_seq = if v.by_session.contains_key(session) { v.by_session[session] } else { 0 };
    SessionSeqsView {
        by_session: v.by_session.insert(session, max_u64(old_seq, seq)),
        global_last_seq: max_u64(v.global_last_seq, seq),
    }
}

impl View for SessionSeqs {
    type V = SessionSeqsView;

    closed spec fn view(&self) -> SessionSeqsView {
        SessionSeqsView { by_session: entries_map(self.by_session@), global_last_seq: self.global_last_seq }
    }
}

proof fn lemma_entries_map_lookup(entries: Seq<(String, u64)>, i: int)
    requires
        entry_keys(entries).no_duplicates(),
        0 <= i < entries.len(),
    ensures
        entries_map(entries).contains_key(entries[i].0@),
        entries_map(entries)[entries[i].0@] == entries[i].1,
    decreases entries.len(),
{
    if i < entries.len() - 1 {
        assert(entry_keys(entries.drop_last()) =~= entry_keys(entries).drop_last());
        lemma_entries_map_lookup(entries.drop_last(), i);
        assert(entry_keys(entries)[i] != entry_keys(entries)[entries.len() - 1]);
    }
}

proof fn lemma_entries_map_domain(entries: Seq<(String, u64)>, key: Seq<char>)
    ensures
        entries_map(entries).contains_key(key) <==> entry_keys(entries).contains(key),
    decreases entries.len(),
{
    if entries.len() > 0 {
        lemma_entries_map_domain(entries.drop_last(), key);
        assert(entry_keys(entries.drop_last()) =~= entry_keys(entries).drop_last());
        assert(entry_keys(entries)[entries.len() - 1] == entries.last().0@);
        if key == entries.last().0@ {
            assert(entry_keys(entries).contains(key));
        }
        if entry_keys(entries).contains(key) {
            let w = choose|w: int| 0 <= w < entry_keys(entries).len() && entry_keys(entries)[w] == key;
            if w < entries.len() - 1 {
                assert(entry_keys(entries.drop_last())[w] == key);
            }
        }
        if entry_keys(entries.drop_last()).contains(key) {
            let w = choose|w: int| 0 <= w < entry_keys(entries.drop_last()).len() && entry_keys(entries.drop_last())[w] == key;
            assert(entry_keys(entries)[w] == key);
        }
    }
}

proof fn lemma_entries_map_update(entries: Seq<(String, u64)>, i: int, value: u64)
    requires
        entry_keys(entries).no_duplicates(),
        0 <= i < entries.len(),
    ensures
        entries_map(entries.update(i, (entries[i].0, value))) == entries_map(entries).insert(entries[i].0@, value),
    decreases entries.len(),
{
    let updated = entries.update(i, (entries[i].0, value));
    if i == entries.len() - 1 {
        assert(updated.drop_last() =~= entries.drop_last());
        lemma_entries_map_domain(entries.drop_last(), entries[i].0@);
        assert(entry_keys(entries.drop_last()) =~= entry_keys(entries).drop_last());
        assert(!entry_keys(entries.drop_last()).contains(entries[i].0@)) by {
            if entry_keys(entries.drop_last()).contains(entries[i].0@) {
                let w = choose|w: int| 0 <= w < entry_keys(entries.drop_last()).len() && entry_keys(entries.drop_last())[w] == entries[i].0@;
                assert(entry_keys(entries)[w] == entry_keys(entries)[i]);
            }
        }
        assert(entries_map(updated) =~= entries_map(entries).insert(entries[i].0@, value));
    } else {
        assert(updated.drop_last() =~= entries.drop_last().update(i, (entries[i].0, value)));
        assert(entry_keys(entries.drop_last()) =~= entry_keys(entries).drop_last());
        lemma_entries_map_update(entries.drop_last(), i, value);
        assert(entry_keys(entries)[i] != entry_keys(entries)[entries.len() - 1]);
        assert(entries_map(updated) =~= entries_map(entries).insert(entries[i].0@, value));
    }
}

/// Where `session` stands in `entries`, if it does.
fn position_of(entries: &Vec<(String, u64)>, session: &str) -> (r: Option<usize>)
    ensures
        match r {
            Some(i) => i < entries@.len() && entries@[i as int].0@ == session@,
            None => !entry_keys(entries@).contains(session@),
        },
{
    let wanted = session.to_owned();
    let mut i: usize = 0;
    while i < entries.len()
        invariant
            i <= entries@.len(),
            wanted@ == session@,
            forall|j: int| 0 <= j < i ==> entries@[j].0@ != session@,
        decreases entries@.len() - i,
    {
        if entries[i].0 == wanted {
            return Some(i);
        }
        i += 1;
    }
    proof {
        if entry_keys(entries@).contains(session@) {
            let w = choose|w: int| 0 <= w < entry_keys(entries@).len() && entry_keys(entries@)[w] == session@;
            assert(entries@[w].0@ == session@);
        }
    }
    None
}


impl SessionSeqs {
    #[verifier::type_invariant]
    closed spec fn inv(self) -> bool {
        entry_keys(self.by_session@).no_duplicates()
    }

    pub fn new() -> (seqs: SessionSeqs)
        ensures
            seqs@.by_session == Map::<Seq<char>, u64>::empty(),
            seqs@.global_last_seq == 0,
    {
        SessionSeqs { by_session: Vec::new(), global_last_seq: 0 }
    }

    /// The last position applied for `session`, or 0 when none was.
    pub fn last_seq_for(&self, session: &str) -> (seq: u64)
        ensures
            seq == if self@.by_session.contains_key(session@) { self@.by_session[session@] } else { 0 },
    {
        proof {
            use_type_invariant(self);
        }
        match position_of(&self.by_session, session) {
            Some(i) => {
                proof {
                    lemma_entries_map_lookup(self.by_session@, i as int);
                }
                self.by_session[i].1
            },
            None => {
                proof {
                    lemma_entries_map_domain(self.by_session@, session@);
                }
                0
            },
        }
    }

    /// The last position applied over all sessions.
    pub fn global_last_seq(&self) -> (seq: u64)
        ensures
            seq == self@.global_last_seq,
    {
        self.global_last_seq
    }

    /// Records that `session` has applied the event at `seq` (a catch-up up
    /// to `seq`, or a pushed update numbered `seq`). Positions never move
    /// back.
    pub fn record(&mut self, session: &str, seq: u64)
        ensures
            final(self)@ == recorded(old(self)@, session@, seq),
    {
        proof {
            use_type_invariant(&*self);
        }
        let global = if self.global_last_seq >= seq { self.global_last_seq } else { seq };
        let mut entries = Vec::new();
        std::mem::swap(&mut entries, &mut self.by_session);
        let ghost start = entries@;
        assert(start == old(self).by_session@);
        let found = position_of(&entries, session);
        match found {
            Some(i) => {
                let current = entries[i].1;
                let key = entries[i].0.clone();
                let best = if current >= seq { current } else { seq };
                proof {
                    lemma_entries_map_lookup(start, i as int);
                    lemma_entries_map_update(start, i as int, best);
                }
                entries.set(i, (key, best));
                assert(entry_keys(entries@) =~= entry_keys(start));
            },
            None => {
                proof {
                    lemma_entries_map_domain(start, session@);
                }
                entries.push((session.to_owned(), seq));
                assert(entries@.drop_last() =~= start);
                assert(entry_keys(entries@) =~= entry_keys(start).push(session@));
            },
        }
        *self = SessionSeqs { by_session: entries, global_last_seq: global };
        proof {
            assert(self@.by_session =~= recorded(old(self)@, session@, seq).by_session);
        }
    }

    /// Records a pushed `session/update` numbered `seq` for `session`. Only a
    /// logged update (`seq > 0`) that was applied to a live thread of this
    /// GUI moves the positions; an unlogged update, one for a thread this GUI
    /// does not hold, or one that failed to apply leaves them as they were.
    pub fn record_pushed(&mut self, session: &str, seq: u64, applied: bool)
        ensures
            final(self)@ == if seq > 0 && applied {
                recorded(old(self)@, session@, seq)
            } else {
                old(self)@
            },
    {
        if seq > 0 && applied {
            self.record(session, seq);
        }
    }

    /// Records a catch-up that reached `to_seq` for no particular session
    /// (a new session's first subscribe): only the overall position moves.
    pub fn record_global(&mut self, to_seq: u64)
        ensures
            final(self)@.by_session == old(self)@.by_session,
            final(self)@.global_last_seq == max_u64(old(self)@.global_last_seq, to_seq),
    {
        proof {
            use_type_invariant(&*self);
        }
        if to_seq > self.global_last_seq {
            self.global_last_seq = to_seq;
        }
    }
}

/// Recording never moves a position back, and afterwards the session's
/// position is at least the recorded one: a reconnect never asks for less
/// than what was already applied, nor replays what was.
pub proof fn lemma_positions_only_grow(v: SessionSeqsView, session: Seq<char>, seq: u64, other: Seq<char>)
    ensures
        recorded(v, session, seq).global_last_seq >= v.global_last_seq,
        recorded(v, session, seq).global_last_seq >= seq,
        recorded(v, session, seq).by_session[session] >= seq,
        v.by_session.contains_key(other) ==> recorded(v, session, seq).by_session.contains_key(other)
            && recorded(v, session, seq).by_session[other] >= v.by_session[other],
{
}

/// Recording is per session: the session's position becomes the larger of
/// its own previous position (0 when it had none) and `seq`, whatever the
/// other sessions or the overall position are; every other session keeps its
/// position; the overall position becomes the larger of itself and `seq`.
pub proof fn lemma_record_is_per_session_max(
    v: SessionSeqsView,
    session: Seq<char>,
    seq: u64,
    other: Seq<char>,
)
    requires
        other != session,
    ensures
        recorded(v, session, seq).by_session.contains_key(session),
        recorded(v, session, seq).by_session[session] == if v.by_session.contains_key(session)
            && v.by_session[session] >= seq {
            v.by_session[session]
        } else {
            seq
        },
        recorded(v, session, seq).by_session.contains_key(other) == v.by_session.contains_key(other),
        v.by_session.contains_key(other) ==> recorded(v, session, seq).by_session[other]
            == v.by_session[other],
        recorded(v, session, seq).global_last_seq == if v.global_last_seq >= seq {
            v.global_last_seq
        } else {
            seq
        },
{
}

} // verus!
