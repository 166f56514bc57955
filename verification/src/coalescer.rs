//! The daemon's buffer of streamed agent text. Deltas for one session and
//! one kind of chunk (message or thought) are joined until the slow-link
//! threshold says they are due, so that a slow link does not carry one
//! message per model token. Any other update first sends everything that is
//! buffered, so that nothing overtakes text streamed before it.

use std::time::Duration;

use vstd::prelude::*;

use crate::coalesce::{flush_due, CoalesceConfig};
use crate::time::{duration_nanos, duration_saturating_sub};

verus! {

/// The `sessionUpdate` tag of an agent message chunk.
pub const AGENT_MESSAGE_CHUNK: &'static str = "agent_message_chunk";

/// The `sessionUpdate` tag of an agent thought chunk.
pub const AGENT_THOUGHT_CHUNK: &'static str = "agent_thought_chunk";

pub open spec fn text_view(text: Option<&str>) -> Option<Seq<char>> {
    match text {
        Some(t) => Some(t@),
        None => None,
    }
}

/// `(thought, text)` for a non-empty message (`false`) or thought (`true`)
/// chunk, otherwise none.
pub open spec fn delta_of(update_kind: Seq<char>, text: Option<Seq<char>>) -> Option<(bool, Seq<char>)> {
    let thought = if update_kind == AGENT_MESSAGE_CHUNK@ {
        Some(false)
    } else if update_kind == AGENT_THOUGHT_CHUNK@ {
        Some(true)
    } else {
        None
    };
    match (thought, text) {
        (Some(th), Some(t)) => if t.len() > 0 { Some((th, t)) } else { None },
        _ => None,
    }
}

/// Whether a `session/update` is streamed text to coalesce, given its
/// `sessionUpdate` tag and the chunk's text: `(thought, text)` for a
/// non-empty message or thought chunk, otherwise none (the update is sent as
/// it is).
pub fn delta_text(update_kind: &str, text: Option<&str>) -> (r: Option<(bool, String)>)
    ensures
        match r {
            Some((thought, t)) => delta_of(update_kind@, text_view(text)) == Some((thought, t@)),
            None => delta_of(update_kind@, text_view(text)) is None,
        },
{
    let thought = if same_text(update_kind, AGENT_MESSAGE_CHUNK) {
        false
    } else if same_text(update_kind, AGENT_THOUGHT_CHUNK) {
        true
    } else {
        return None;
    };
    match text {
        Some(given) => if given.unicode_len() > 0 {
            Some((thought, given.to_owned()))
        } else {
            None
        },
        None => None,
    }
}

/// Text waiting to be sent for one session and one kind of chunk.
pub struct PendingDelta {
    pub session_id: String,
    /// A thought chunk rather than a message chunk.
    pub thought: bool,
    pub text: String,
    /// When the first of the joined deltas arrived.
    pub started_at: Duration,
    /// Whether the joined chunk goes into the event log.
    pub persist: bool,
    pub agent_id: String,
}

/// Joined text to send as one `session/update` chunk.
pub struct FlushedDelta {
    pub session_id: String,
    pub thought: bool,
    pub text: String,
    pub persist: bool,
    pub agent_id: String,
}

impl View for PendingDelta {
    /// Session, thought, text, start in nanoseconds, persist, agent.
    type V = (Seq<char>, bool, Seq<char>, u128, bool, Seq<char>);

    open spec fn view(&self) -> (Seq<char>, bool, Seq<char>, u128, bool, Seq<char>) {
        (
            self.session_id@,
            self.thought,
            self.text@,
            duration_nanos(self.started_at),
            self.persist,
            self.agent_id@,
        )
    }
}

impl View for FlushedDelta {
    /// Session, thought, text, persist, agent.
    type V = (Seq<char>, bool, Seq<char>, bool, Seq<char>);

    open spec fn view(&self) -> (Seq<char>, bool, Seq<char>, bool, Seq<char>) {
        (self.session_id@, self.thought, self.text@, self.persist, self.agent_id@)
    }
}

/// Where the buffer for `session` and `thought` stands in `s`, or -1.
pub open spec fn key_index(
    s: Seq<(Seq<char>, bool, Seq<char>, u128, bool, Seq<char>)>,
    session: Seq<char>,
    thought: bool,
) -> int
    decreases s.len(),
{
    if s.len() == 0 {
        -1
    } else {
        let i = key_index(s.drop_last(), session, thought);
        if i >= 0 {
            i
        } else if s.last().0 == session && s.last().1 == thought {
            s.len() - 1
        } else {
            -1
        }
    }
}

/// The buffers after a delta arrives at time `now`: appended to its
/// buffer, which keeps its start, agent and is persisted if either was; or
/// a new buffer at the end.
pub open spec fn with_delta(
    s: Seq<(Seq<char>, bool, Seq<char>, u128, bool, Seq<char>)>,
    session: Seq<char>,
    thought: bool,
    text: Seq<char>,
    now: u128,
    persist: bool,
    agent: Seq<char>,
) -> Seq<(Seq<char>, bool, Seq<char>, u128, bool, Seq<char>)> {
    let i = key_index(s, session, thought);
    if i >= 0 {
        s.update(i, (s[i].0, s[i].1, s[i].2 + text, s[i].3, s[i].4 || persist, s[i].5))
    } else {
        s.push((session, thought, text, now, persist, agent))
    }
}

/// What a flush sends: each non-empty buffer, in order.
pub open spec fn flushed(s: Seq<(Seq<char>, bool, Seq<char>, u128, bool, Seq<char>)>) -> Seq<
    (Seq<char>, bool, Seq<char>, bool, Seq<char>),
>
    decreases s.len(),
{
    if s.len() == 0 {
        Seq::empty()
    } else {
        let rest = flushed(s.drop_last());
        let p = s.last();
        if p.2.len() > 0 {
            rest.push((p.0, p.1, p.2, p.4, p.5))
        } else {
            rest
        }
    }
}

/// No two buffers share a session and kind.
pub open spec fn distinct_keys(s: Seq<(Seq<char>, bool, Seq<char>, u128, bool, Seq<char>)>) -> bool {
    forall|i: int, j: int|
        0 <= i < j < s.len() ==> !(#[trigger] s[i].0 == #[trigger] s[j].0 && s[i].1 == s[j].1)
}

proof fn lemma_key_index(
    s: Seq<(Seq<char>, bool, Seq<char>, u128, bool, Seq<char>)>,
    session: Seq<char>,
    thought: bool,
)
    ensures
        -1 <= key_index(s, session, thought) < s.len(),
        key_index(s, session, thought) >= 0 ==> s[key_index(s, session, thought)].0 == session
            && s[key_index(s, session, thought)].1 == thought,
        key_index(s, session, thought) >= 0 ==> forall|t: int|
            0 <= t < key_index(s, session, thought) ==> !(s[t].0 == session && s[t].1 == thought),
        key_index(s, session, thought) < 0 ==> forall|t: int|
            0 <= t < s.len() ==> !(s[t].0 == session && s[t].1 == thought),
    decreases s.len(),
{
    if s.len() > 0 {
        lemma_key_index(s.drop_last(), session, thought);
        let i = key_index(s.drop_last(), session, thought);
        if i >= 0 {
            assert forall|t: int| 0 <= t < i implies !(s[t].0 == session && s[t].1 == thought) by {
                assert(s[t] == s.drop_last()[t]);
            }
        } else {
            assert forall|t: int| 0 <= t < s.len() - 1 implies !(s[t].0 == session && s[t].1
                == thought) by {
                assert(s[t] == s.drop_last()[t]);
            }
        }
    }
}

proof fn lemma_flushed_push(
    s: Seq<(Seq<char>, bool, Seq<char>, u128, bool, Seq<char>)>,
    k: int,
)
    requires
        0 <= k < s.len(),
    ensures
        flushed(s.take(k + 1)) == if s[k].2.len() > 0 {
            flushed(s.take(k)).push((s[k].0, s[k].1, s[k].2, s[k].4, s[k].5))
        } else {
            flushed(s.take(k))
        },
{
    assert(s.take(k + 1).drop_last() =~= s.take(k));
}

/// The text buffered per session and kind, with the timer that sends it.
pub struct DeltaCoalescer {
    config: CoalesceConfig,
    pending: Vec<PendingDelta>,
    flush_scheduled: bool,
}

/// What to do after a delta was buffered.
pub enum DeltaDecision {
    /// Send these chunks now; nothing is buffered any more.
    Flush(Vec<FlushedDelta>),
    /// Start a timer of this length and call `timer_fired` when it ends.
    StartTimer(Duration),
    /// A timer is already running.
    Wait,
}

impl View for DeltaCoalescer {
    type V = Seq<(Seq<char>, bool, Seq<char>, u128, bool, Seq<char>)>;

    closed spec fn view(&self) -> Seq<(Seq<char>, bool, Seq<char>, u128, bool, Seq<char>)> {
        self.pending@.map_values(|p: PendingDelta| p@)
    }
}

/// The chunks in `out`, as plain values.
pub open spec fn flushed_view(out: Seq<FlushedDelta>) -> Seq<(Seq<char>, bool, Seq<char>, bool, Seq<char>)> {
    out.map_values(|f: FlushedDelta| f@)
}

fn same_text(a: &str, b: &str) -> (r: bool)
    ensures
        r == (a@ == b@),
{
    a.to_owned() == b.to_owned()
}

fn clone_pending(p: &PendingDelta) -> (c: PendingDelta)
    ensures
        c@ == p@,
{
    PendingDelta {
        session_id: p.session_id.clone(),
        thought: p.thought,
        text: p.text.clone(),
        started_at: p.started_at,
        persist: p.persist,
        agent_id: p.agent_id.clone(),
    }
}

impl DeltaCoalescer {
    #[verifier::type_invariant]
    closed spec fn inv(self) -> bool {
        distinct_keys(self@)
    }

    /// The threshold in use.
    pub closed spec fn config(self) -> CoalesceConfig {
        self.config
    }

    /// Whether a flush timer is running.
    pub closed spec fn timer_running(self) -> bool {
        self.flush_scheduled
    }

    /// Nothing buffered and no timer, with the slow-link threshold.
    pub fn new() -> (c: DeltaCoalescer)
        ensures
            c@ == Seq::<(Seq<char>, bool, Seq<char>, u128, bool, Seq<char>)>::empty(),
            !c.timer_running(),
            duration_nanos(c.config().max_interval) == 50_000_000,
            c.config().max_characters == 64,
    {
        let c = DeltaCoalescer { config: CoalesceConfig::slow_link(), pending: Vec::new(), flush_scheduled: false };
        assert(c@ =~= Seq::<(Seq<char>, bool, Seq<char>, u128, bool, Seq<char>)>::empty());
        c
    }

    /// Sends everything buffered (buffers whose text is empty are dropped)
    /// and stops the timer.
    pub fn flush(&mut self) -> (out: Vec<FlushedDelta>)
        ensures
            flushed_view(out@) == flushed(old(self)@),
            final(self)@ == Seq::<(Seq<char>, bool, Seq<char>, u128, bool, Seq<char>)>::empty(),
            !final(self).timer_running(),
            final(self).config() == old(self).config(),
    {
        let mut pending = Vec::new();
        std::mem::swap(&mut pending, &mut self.pending);
        self.flush_scheduled = false;
        let ghost s = old(self)@;
        assert(pending@.map_values(|p: PendingDelta| p@) == s);
        let mut out: Vec<FlushedDelta> = Vec::new();
        let mut k: usize = 0;
        while k < pending.len()
            invariant
                k <= pending@.len(),
                pending@.map_values(|p: PendingDelta| p@) == s,
                flushed_view(out@) == flushed(s.take(k as int)),
            decreases pending@.len() - k,
        {
            proof {
                lemma_flushed_push(s, k as int);
                assert(s[k as int] == pending@[k as int]@);
            }
            let p = &pending[k];
            if p.text.as_str().unicode_len() > 0 {
                let f = FlushedDelta {
                    session_id: p.session_id.clone(),
                    thought: p.thought,
                    text: p.text.clone(),
                    persist: p.persist,
                    agent_id: p.agent_id.clone(),
                };
                out.push(f);
                assert(flushed_view(out@) =~= flushed_view(out@.drop_last()).push(f@));
            }
            k += 1;
        }
        assert(s.take(pending@.len() as int) =~= s);
        assert(self@ =~= Seq::<(Seq<char>, bool, Seq<char>, u128, bool, Seq<char>)>::empty());
        out
    }

    /// The timer ended: everything buffered is sent.
    pub fn timer_fired(&mut self) -> (out: Vec<FlushedDelta>)
        ensures
            flushed_view(out@) == flushed(old(self)@),
            final(self)@ == Seq::<(Seq<char>, bool, Seq<char>, u128, bool, Seq<char>)>::empty(),
            !final(self).timer_running(),
            final(self).config() == old(self).config(),
    {
        self.flush()
    }

    /// Buffers a delta of streamed text that arrived at `now`. When its
    /// buffer is due, everything buffered is sent; otherwise a timer is
    /// started unless one runs.
    pub fn add_delta(
        &mut self,
        session_id: &str,
        thought: bool,
        text: &str,
        persist: bool,
        agent_id: &str,
        now: Duration,
    ) -> (d: DeltaDecision)
        ensures
            ({
                let s = with_delta(
                    old(self)@,
                    session_id@,
                    thought,
                    text@,
                    duration_nanos(now),
                    persist,
                    agent_id@,
                );
                let entry = s[key_index(s, session_id@, thought)];
                let waited = if duration_nanos(now) >= entry.3 {
                    duration_nanos(now) - entry.3
                } else {
                    0
                };
                let due = flush_due(
                    duration_nanos(old(self).config().max_interval),
                    old(self).config().max_characters,
                    waited as u128,
                    entry.2.len() as usize,
                );
                &&& final(self).config() == old(self).config()
                &&& due ==> (d matches DeltaDecision::Flush(out) && flushed_view(out@) == flushed(s)
                    && final(self)@.len() == 0 && !final(self).timer_running())
                &&& !due ==> final(self)@ == s && final(self).timer_running()
                &&& (!due && old(self).timer_running()) ==> d is Wait
                &&& (!due && !old(self).timer_running()) ==> (d matches DeltaDecision::StartTimer(
                    delay,
                ) && delay == old(self).config().max_interval)
            }),
    {
        proof {
            use_type_invariant(&*self);
        }
        let ghost s0 = old(self)@;
        let mut pending = Vec::new();
        std::mem::swap(&mut pending, &mut self.pending);
        assert(pending@.map_values(|p: PendingDelta| p@) == s0);
        proof {
            lemma_key_index(s0, session_id@, thought);
        }
        let mut i: usize = 0;
        let mut found = false;
        while i < pending.len()
            invariant_except_break
                !found,
            invariant
                i <= pending@.len(),
                pending@.map_values(|p: PendingDelta| p@) == s0,
                forall|t: int| 0 <= t < i ==> !(s0[t].0 == session_id@ && s0[t].1 == thought),
            ensures
                i <= pending@.len(),
                found ==> i < pending@.len() && s0[i as int].0 == session_id@ && s0[i as int].1
                    == thought,
                forall|t: int| 0 <= t < i ==> !(s0[t].0 == session_id@ && s0[t].1 == thought),
                !found ==> i == pending@.len(),
            decreases pending@.len() - i,
        {
            assert(s0[i as int] == pending@[i as int]@);
            if pending[i].thought == thought && same_text(pending[i].session_id.as_str(), session_id) {
                found = true;
                break;
            }
            i += 1;
        }
        let ghost s = with_delta(s0, session_id@, thought, text@, duration_nanos(now), persist, agent_id@);
        let idx: usize;
        if found {
            let mut entry = clone_pending(&pending[i]);
            entry.text.append(text);
            entry.persist = entry.persist || persist;
            pending.set(i, entry);
            idx = i;
            proof {
                assert(key_index(s0, session_id@, thought) == i as int);
                assert(pending@.map_values(|p: PendingDelta| p@) =~= s);
            }
        } else {
            let entry = PendingDelta {
                session_id: session_id.to_owned(),
                thought,
                text: text.to_owned(),
                started_at: now,
                persist,
                agent_id: agent_id.to_owned(),
            };
            pending.push(entry);
            idx = i;
            proof {
                assert(key_index(s0, session_id@, thought) == -1);
                assert(pending@.map_values(|p: PendingDelta| p@) =~= s);
            }
        }
        proof {
            lemma_key_index(s, session_id@, thought);
            assert(s[idx as int].0 == session_id@ && s[idx as int].1 == thought);
            assert(key_index(s, session_id@, thought) == idx as int) by {
                let j = key_index(s, session_id@, thought);
                if 0 <= j && j < idx as int {
                    assert(s[j] == s0[j]);
                    assert(!(s0[j].0 == session_id@ && s0[j].1 == thought));
                }
            }
            assert(distinct_keys(s)) by {
                assert forall|a: int, b: int| 0 <= a < b < s.len() implies !(#[trigger] s[a].0
                    == #[trigger] s[b].0 && s[a].1 == s[b].1) by {
                    if a != idx as int && b != idx as int {
                        assert(s[a] == s0[a] && s[b] == s0[b]);
                    } else if a == idx as int {
                        assert(s[b] == s0[b] || b == s0.len());
                    } else {
                        assert(s[a] == s0[a]);
                    }
                }
            }
        }
        let waited = duration_saturating_sub(now, pending[idx].started_at);
        let chars = pending[idx].text.as_str().unicode_len();
        assert(pending@[idx as int]@ == s[idx as int]);
        let due = self.config.should_flush(waited, chars);
        self.pending = pending;
        if due {
            DeltaDecision::Flush(self.flush())
        } else if self.flush_scheduled {
            DeltaDecision::Wait
        } else {
            self.flush_scheduled = true;
            DeltaDecision::StartTimer(self.config.max_interval)
        }
    }
}

/// No streamed text is lost or reordered: after a delta for a session and
/// kind is buffered, the text that is buffered or sent for that session and
/// kind is what was buffered before followed by the delta.
pub proof fn lemma_delta_appends_text(
    s: Seq<(Seq<char>, bool, Seq<char>, u128, bool, Seq<char>)>,
    session: Seq<char>,
    thought: bool,
    text: Seq<char>,
    now: u128,
    persist: bool,
    agent: Seq<char>,
)
    ensures
        ({
            let after = with_delta(s, session, thought, text, now, persist, agent);
            let before_text = if key_index(s, session, thought) >= 0 {
                s[key_index(s, session, thought)].2
            } else {
                Seq::<char>::empty()
            };
            &&& key_index(after, session, thought) >= 0
            &&& after[key_index(after, session, thought)].2 == before_text + text
            &&& after.len() >= s.len()
            &&& forall|t: int|
                0 <= t < s.len() && !(s[t].0 == session && s[t].1 == thought) ==> after[t] == s[t]
        }),
{
    lemma_key_index(s, session, thought);
    let after = with_delta(s, session, thought, text, now, persist, agent);
    lemma_key_index(after, session, thought);
    let i = key_index(s, session, thought);
    let at = if i >= 0 { i } else { s.len() as int };
    assert(after[at].0 == session && after[at].1 == thought);
    let j = key_index(after, session, thought);
    if 0 <= j && j < at {
        assert(after[j] == s[j]);
    }
    assert(j == at);
    if i < 0 {
        assert(Seq::<char>::empty() + text =~= text);
    }
    assert forall|t: int|
        0 <= t < s.len() && !(s[t].0 == session && s[t].1 == thought) implies after[t] == s[t] by {
        assert(t != at);
    }
}

/// A joined buffer is persisted when any of its deltas was: after a delta is
/// buffered, its buffer's persist flag is the earlier flag (false for a new
/// buffer) or the delta's; the buffer keeps the start time and agent of its
/// first delta, or takes the delta's when it is new.
pub proof fn lemma_delta_joins_persist(
    s: Seq<(Seq<char>, bool, Seq<char>, u128, bool, Seq<char>)>,
    session: Seq<char>,
    thought: bool,
    text: Seq<char>,
    now: u128,
    persist: bool,
    agent: Seq<char>,
)
    ensures
        ({
            let after = with_delta(s, session, thought, text, now, persist, agent);
            let i = key_index(s, session, thought);
            let entry = after[key_index(after, session, thought)];
            &&& entry.4 == ((i >= 0 && s[i].4) || persist)
            &&& i >= 0 ==> entry.3 == s[i].3 && entry.5 == s[i].5
            &&& i < 0 ==> entry.3 == now && entry.5 == agent
        }),
{
    lemma_delta_appends_text(s, session, thought, text, now, persist, agent);
    lemma_key_index(s, session, thought);
    let after = with_delta(s, session, thought, text, now, persist, agent);
    lemma_key_index(after, session, thought);
    let i = key_index(s, session, thought);
    let at = if i >= 0 { i } else { s.len() as int };
    assert(after[at].0 == session && after[at].1 == thought);
    let j = key_index(after, session, thought);
    if 0 <= j && j < at {
        assert(after[j] == s[j]);
    }
    assert(j == at);
}

/// A flush sends every non-empty buffer with its text, persist flag and
/// agent, and nothing else.
pub proof fn lemma_flush_sends_each_buffer(
    s: Seq<(Seq<char>, bool, Seq<char>, u128, bool, Seq<char>)>,
    k: int,
)
    requires
        0 <= k < s.len(),
        s[k].2.len() > 0,
    ensures
        flushed(s).contains((s[k].0, s[k].1, s[k].2, s[k].4, s[k].5)),
    decreases s.len(),
{
    if k == s.len() - 1 {
        let rest = flushed(s.drop_last());
        assert(flushed(s) == rest.push((s[k].0, s[k].1, s[k].2, s[k].4, s[k].5)));
        assert(flushed(s)[rest.len() as int] == (s[k].0, s[k].1, s[k].2, s[k].4, s[k].5));
    } else {
        assert(s.drop_last()[k] == s[k]);
        lemma_flush_sends_each_buffer(s.drop_last(), k);
        let rest = flushed(s.drop_last());
        let w = choose|w: int| 0 <= w < rest.len() && rest[w] == (s[k].0, s[k].1, s[k].2, s[k].4, s[k].5);
        assert(flushed(s)[w] == rest[w]);
    }
}

} // verus!
