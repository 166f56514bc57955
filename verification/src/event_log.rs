//! Append-only agent event log. A disconnect neither rewinds nor drops
//! entries; a reconnecting client asks for what it has not seen.

use vstd::prelude::*;

use crate::acp_tunnel::{strings_view, CatchUpResponse};
use crate::event_seq::{saturating_sum, EventSeq};
use crate::text::push_char;

verus! {

/// Server-side log of ACP JSON-RPC notifications (typically `session/update`).
#[derive(Clone, Debug, Default)]
pub struct EventLog {
    events: Vec<String>,
}

impl View for EventLog {
    type V = Seq<Seq<char>>;

    closed spec fn view(&self) -> Seq<Seq<char>> {
        strings_view(self.events@)
    }
}

/// The events after the first `last` ones; none once `last` reaches the end.
pub open spec fn unseen_events(events: Seq<Seq<char>>, last: u64) -> Seq<Seq<char>> {
    if last >= events.len() {
        Seq::empty()
    } else {
        events.skip(last as int)
    }
}

/// What `catch_up(last)` answers for a log holding `events`.
pub open spec fn catch_up_matches(events: Seq<Seq<char>>, last: u64, r: CatchUpResponse) -> bool {
    &&& strings_view(r.events_json@) == unseen_events(events, last)
    &&& r.to_seq.0 == events.len()
    &&& r.from_seq.0 == if last >= events.len() { events.len() as u64 } else { saturating_sum(last, 1) }
}

/// Index of the first `\n` in `text`, if any.
pub open spec fn newline_index(text: Seq<char>) -> Option<int>
    decreases text.len(),
{
    if text.len() == 0 {
        None
    } else if text[0] == '\n' {
        Some(0)
    } else {
        match newline_index(text.drop_first()) {
            Some(i) => Some(i + 1),
            None => None,
        }
    }
}

/// A line without the `\r` of a `\r\n` ending.
pub open spec fn strip_cr(line: Seq<char>) -> Seq<char> {
    if line.len() > 0 && line.last() == '\r' {
        line.drop_last()
    } else {
        line
    }
}

/// `[line]`, or nothing when the line is empty.
pub open spec fn keep_nonempty(line: Seq<char>) -> Seq<Seq<char>> {
    if line.len() == 0 {
        Seq::empty()
    } else {
        seq![line]
    }
}

/// The non-empty lines of a jsonl snapshot. Lines end at `\n` or `\r\n`; the
/// last line needs no ending.
pub open spec fn jsonl_entries(text: Seq<char>) -> Seq<Seq<char>>
    decreases text.len(),
{
    match newline_index(text) {
        None => keep_nonempty(text),
        Some(i) => if 0 <= i < text.len() {
            keep_nonempty(strip_cr(text.take(i))) + jsonl_entries(text.skip(i + 1))
        } else {
            Seq::empty()
        },
    }
}

/// The jsonl record of one entry: the entry and a newline.
pub open spec fn jsonl_text(entries: Seq<Seq<char>>) -> Seq<char>
    decreases entries.len(),
{
    if entries.len() == 0 {
        Seq::empty()
    } else {
        entries[0].push('\n') + jsonl_text(entries.drop_first())
    }
}

/// An entry that survives a jsonl round trip: not empty, no newline, and no
/// carriage return at its end.
pub open spec fn is_jsonl_safe(entry: Seq<char>) -> bool {
    &&& entry.len() > 0
    &&& forall|i: int| 0 <= i < entry.len() ==> #[trigger] entry[i] != '\n'
    &&& entry.last() != '\r'
}

proof fn lemma_newline_index_bounds(text: Seq<char>)
    ensures
        match newline_index(text) {
            Some(i) => 0 <= i < text.len() && text[i] == '\n' && forall|j: int|
                0 <= j < i ==> #[trigger] text[j] != '\n',
            None => forall|j: int| 0 <= j < text.len() ==> #[trigger] text[j] != '\n',
        },
    decreases text.len(),
{
    if text.len() > 0 {
        lemma_newline_index_bounds(text.drop_first());
        if text[0] != '\n' {
            match newline_index(text.drop_first()) {
                Some(i) => {
                    assert forall|j: int| 0 <= j < i + 1 implies #[trigger] text[j] != '\n' by {
                        if j > 0 {
                            assert(text[j] == text.drop_first()[j - 1]);
                        }
                    }
                },
                None => {
                    assert forall|j: int| 0 <= j < text.len() implies #[trigger] text[j] != '\n' by {
                        if j > 0 {
                            assert(text[j] == text.drop_first()[j - 1]);
                        }
                    }
                },
            }
        }
    }
}

/// A prefix without newlines shifts the first newline by its length.
proof fn lemma_newline_index_after(prefix: Seq<char>, rest: Seq<char>)
    requires
        forall|j: int| 0 <= j < prefix.len() ==> #[trigger] prefix[j] != '\n',
    ensures
        newline_index(prefix + rest) == match newline_index(rest) {
            Some(i) => Some(i + prefix.len()),
            None => None::<int>,
        },
    decreases prefix.len(),
{
    if prefix.len() > 0 {
        assert((prefix + rest).drop_first() =~= prefix.drop_first() + rest);
        assert((prefix + rest)[0] == prefix[0]);
        lemma_newline_index_after(prefix.drop_first(), rest);
    } else {
        assert(prefix + rest =~= rest);
    }
}

/// Entries of `current + rest` where `current` holds no newline.
proof fn lemma_entries_split(current: Seq<char>, rest: Seq<char>)
    requires
        forall|j: int| 0 <= j < current.len() ==> #[trigger] current[j] != '\n',
        rest.len() > 0,
        rest[0] == '\n',
    ensures
        jsonl_entries(current + rest) == keep_nonempty(strip_cr(current)) + jsonl_entries(
            rest.drop_first(),
        ),
{
    lemma_newline_index_after(current, rest);
    assert(newline_index(rest) == Some(0int));
    let text = current + rest;
    let i = current.len() as int;
    assert(text.take(i) =~= current);
    assert(text.skip(i + 1) =~= rest.drop_first());
}

/// Entries of a text without newlines.
proof fn lemma_entries_last(current: Seq<char>)
    requires
        forall|j: int| 0 <= j < current.len() ==> #[trigger] current[j] != '\n',
    ensures
        jsonl_entries(current) == keep_nonempty(current),
{
    lemma_newline_index_after(current, Seq::empty());
    assert(current + Seq::<char>::empty() =~= current);
}

/// The first newline of a text stays the first one when more text follows.
proof fn lemma_newline_index_extend(text: Seq<char>, more: Seq<char>)
    requires
        newline_index(text) is Some,
    ensures
        newline_index(text + more) == newline_index(text),
{
    lemma_newline_index_bounds(text);
    let i = newline_index(text)->0;
    let head = text.take(i);
    let tail = text.skip(i) + more;
    assert forall|j: int| 0 <= j < head.len() implies #[trigger] head[j] != '\n' by {
        assert(head[j] == text[j]);
    }
    assert(text + more =~= head + tail);
    assert(tail[0] == '\n');
    assert(newline_index(tail) == Some(0int));
    lemma_newline_index_after(head, tail);
}

/// The entries of a text that is empty or ends a line, followed by more
/// text, are its entries followed by those of the rest.
proof fn lemma_entries_concat(text: Seq<char>, more: Seq<char>)
    requires
        text.len() == 0 || text.last() == '\n',
    ensures
        jsonl_entries(text + more) == jsonl_entries(text) + jsonl_entries(more),
    decreases text.len(),
{
    if text.len() == 0 {
        assert(text + more =~= more);
        assert(newline_index(text) == None::<int>);
        assert(jsonl_entries(text) =~= Seq::<Seq<char>>::empty());
        assert(jsonl_entries(text) + jsonl_entries(more) =~= jsonl_entries(more));
    } else {
        lemma_newline_index_bounds(text);
        if newline_index(text) is None {
            assert(text[text.len() - 1] == '\n');
        }
        let i = newline_index(text)->0;
        lemma_newline_index_extend(text, more);
        let whole = text + more;
        lemma_newline_index_bounds(whole);
        assert(whole.take(i) =~= text.take(i));
        assert(whole.skip(i + 1) =~= text.skip(i + 1) + more);
        let rest = text.skip(i + 1);
        if rest.len() > 0 {
            assert(rest.last() == text.last());
        }
        lemma_entries_concat(rest, more);
        let line = keep_nonempty(strip_cr(text.take(i)));
        assert(jsonl_entries(whole) == line + jsonl_entries(rest + more));
        assert(jsonl_entries(text) == line + jsonl_entries(rest));
        assert(line + (jsonl_entries(rest) + jsonl_entries(more)) =~= (line + jsonl_entries(rest))
            + jsonl_entries(more));
    }
}

/// Appending the jsonl record of a safe entry to a snapshot that is empty
/// or ends a line adds exactly that entry when the snapshot is read back.
pub proof fn lemma_jsonl_append(text: Seq<char>, json: Seq<char>)
    requires
        text.len() == 0 || text.last() == '\n',
        is_jsonl_safe(json),
    ensures
        jsonl_entries(text + json.push('\n')) == jsonl_entries(text).push(json),
{
    lemma_entries_concat(text, json.push('\n'));
    let record = json + seq!['\n'];
    assert(json.push('\n') =~= record);
    lemma_entries_split(json, seq!['\n']);
    assert(seq!['\n'].drop_first() =~= Seq::<char>::empty());
    assert(newline_index(Seq::<char>::empty()) == None::<int>);
    assert(jsonl_entries(Seq::<char>::empty()) =~= Seq::<Seq<char>>::empty());
    assert(strip_cr(json) == json);
    assert(jsonl_entries(record) =~= seq![json]);
    assert(jsonl_entries(text) + seq![json] =~= jsonl_entries(text).push(json));
}

/// Reading back a jsonl snapshot gives the entries that were written, when
/// every entry is jsonl-safe (compact JSON always is).
pub proof fn lemma_jsonl_round_trip(entries: Seq<Seq<char>>)
    requires
        forall|i: int| 0 <= i < entries.len() ==> is_jsonl_safe(#[trigger] entries[i]),
    ensures
        jsonl_entries(jsonl_text(entries)) == entries,
    decreases entries.len(),
{
    if entries.len() == 0 {
        assert(newline_index(Seq::<char>::empty()) == None::<int>);
    } else {
        let first = entries[0];
        assert(is_jsonl_safe(first));
        let rest_text = jsonl_text(entries.drop_first());
        assert(first.push('\n') + rest_text =~= first + (seq!['\n'] + rest_text));
        lemma_entries_split(first, seq!['\n'] + rest_text);
        assert((seq!['\n'] + rest_text).drop_first() =~= rest_text);
        assert(strip_cr(first) == first);
        assert forall|i: int| 0 <= i < entries.drop_first().len() implies is_jsonl_safe(
            #[trigger] entries.drop_first()[i],
        ) by {
            assert(entries.drop_first()[i] == entries[i + 1]);
        }
        lemma_jsonl_round_trip(entries.drop_first());
        assert(seq![first] + entries.drop_first() =~= entries);
    }
}

impl EventLog {
    pub fn new() -> (log: EventLog)
        ensures
            log@.len() == 0,
    {
        EventLog { events: Vec::new() }
    }

    /// The position of the newest event: the number of events.
    pub fn head(&self) -> (seq: EventSeq)
        ensures
            seq.0 == self@.len(),
    {
        EventSeq(self.events.len() as u64)
    }

    pub fn is_empty(&self) -> (r: bool)
        ensures
            r == (self@.len() == 0),
    {
        self.events.len() == 0
    }

    /// Appends one JSON line and returns the new head (a 1-based count).
    pub fn append(&mut self, json: String) -> (seq: EventSeq)
        requires
            old(self)@.len() < u64::MAX,
        ensures
            final(self)@ == old(self)@.push(json@),
            seq.0 == final(self)@.len(),
    {
        self.events.push(json);
        proof {
            assert(strings_view(self.events@) =~= strings_view(old(self).events@).push(json@));
        }
        self.head()
    }

    /// Files a `session/update` that is about to be pushed: a persisted one
    /// is appended and travels with its position, so a reconnecting GUI can
    /// tell what it has seen; a transient one is not logged and travels with
    /// position 0.
    pub fn record_update(&mut self, json: String, persist: bool) -> (seq: u64)
        requires
            old(self)@.len() < u64::MAX,
        ensures
            persist ==> final(self)@ == old(self)@.push(json@) && seq == final(self)@.len(),
            !persist ==> final(self)@ == old(self)@ && seq == 0,
    {
        if persist {
            self.append(json).0
        } else {
            0
        }
    }

    /// Events after `last_seq`. `last_seq == 0` means the client has nothing.
    pub fn catch_up(&self, last_seq: EventSeq) -> (r: CatchUpResponse)
        ensures
            catch_up_matches(self@, last_seq.0, r),
    {
        let len = self.events.len();
        if last_seq.0 >= len as u64 {
            let r = CatchUpResponse::empty(self.head());
            assert(strings_view(r.events_json@) =~= Seq::<Seq<char>>::empty());
            return r;
        }
        let start = last_seq.0 as usize;
        let mut events_json: Vec<String> = Vec::new();
        let mut i = start;
        while i < len
            invariant
                start <= i <= len,
                len == self.events@.len(),
                strings_view(events_json@) =~= strings_view(self.events@).subrange(start as int, i as int),
            decreases len - i,
        {
            let ghost prev = events_json@;
            events_json.push(self.events[i].clone());
            assert(strings_view(events_json@) =~= strings_view(prev).push(self.events@[i as int]@));
            i += 1;
        }
        assert(strings_view(self.events@).subrange(start as int, len as int) =~= strings_view(
            self.events@,
        ).skip(start as int));
        CatchUpResponse { from_seq: last_seq.next(), to_seq: self.head(), events_json }
    }

    /// A log holding the non-empty lines of a jsonl snapshot, in order.
    pub fn from_jsonl(text: &str) -> (log: EventLog)
        ensures
            log@ == jsonl_entries(text@),
    {
        let mut events: Vec<String> = Vec::new();
        let mut current = String::new();
        let ghost mut consumed: int = 0;
        assert(current@ + text@.skip(0) =~= text@);
        assert(strings_view(events@) =~= Seq::<Seq<char>>::empty());
        assert(Seq::<Seq<char>>::empty() + jsonl_entries(text@) =~= jsonl_entries(text@));
        for c in it: text.chars()
            invariant
                it.seq() == text@,
                consumed == it.index(),
                forall|j: int| 0 <= j < current@.len() ==> #[trigger] current@[j] != '\n',
                jsonl_entries(text@) == strings_view(events@) + jsonl_entries(
                    current@ + text@.skip(consumed),
                ),
        {
            let ghost rest = text@.skip(consumed);
            assert(rest[0] == c);
            if c == '\n' {
                proof {
                    lemma_entries_split(current@, rest);
                    assert(rest.drop_first() =~= text@.skip(consumed + 1));
                }
                let line = strip_carriage_return(current);
                let ghost prev = events@;
                if line.as_str().unicode_len() > 0 {
                    events.push(line);
                    proof {
                        assert(strings_view(events@) =~= strings_view(prev).push(line@));
                    }
                }
                current = String::new();
            } else {
                let ghost before = current@;
                push_char(&mut current, c);
                proof {
                    assert(current@ + text@.skip(consumed + 1) =~= before + rest);
                }
            }
            proof {
                consumed = consumed + 1;
            }
        }
        proof {
            lemma_entries_last(current@);
            assert(current@ + text@.skip(consumed) =~= current@);
        }
        let ghost prev = events@;
        let ghost last = current@;
        if current.as_str().unicode_len() > 0 {
            events.push(current);
            proof {
                assert(strings_view(events@) =~= strings_view(prev).push(last));
            }
        }
        proof {
            assert(strings_view(events@) =~= jsonl_entries(text@));
        }
        EventLog { events }
    }
}

/// `line` without the `\r` of a `\r\n` ending.
fn strip_carriage_return(line: String) -> (r: String)
    ensures
        r@ == strip_cr(line@),
{
    let s = line.as_str();
    let n = s.unicode_len();
    if n > 0 && s.get_char(n - 1) == '\r' {
        s.substring_char(0, n - 1).to_owned()
    } else {
        line
    }
}

/// The jsonl record of one entry: `json` and a newline.
pub fn jsonl_record(json: &str) -> (r: String)
    ensures
        r@ == json@.push('\n'),
{
    let mut r = json.to_owned();
    push_char(&mut r, '\n');
    r
}

} // verus!

verus! {

/// Catch-up from the position a client last saw returns exactly the events
/// appended after it, and catch-up from the new head returns nothing: a
/// disconnect loses nothing and a reattach replays only the delta.
pub proof fn lemma_reattach_is_delta(seen: Seq<Seq<char>>, later: Seq<Seq<char>>)
    requires
        seen.len() + later.len() <= u64::MAX,
    ensures
        unseen_events(seen + later, seen.len() as u64) == later,
        unseen_events(seen + later, (seen.len() + later.len()) as u64) == Seq::<Seq<char>>::empty(),
{
    if later.len() > 0 {
        assert((seen + later).skip(seen.len() as int) =~= later);
    } else {
        assert(later =~= Seq::<Seq<char>>::empty());
    }
}

} // verus!
