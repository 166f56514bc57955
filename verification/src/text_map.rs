//! A small map keyed by text, each key once, in insertion order.

use vstd::prelude::*;

verus! {

/// The keys of `entries`.
pub open spec fn text_keys<V>(entries: Seq<(String, V)>) -> Seq<Seq<char>> {
    entries.map_values(|e: (String, V)| e.0@)
}

/// The entries as a map; a later entry wins.
pub open spec fn text_entries_map<V>(entries: Seq<(String, V)>) -> Map<Seq<char>, V>
    decreases entries.len(),
{
    if entries.len() == 0 {
        Map::empty()
    } else {
        text_entries_map(entries.drop_last()).insert(entries.last().0@, entries.last().1)
    }
}

proof fn lemma_domain<V>(entries: Seq<(String, V)>, key: Seq<char>)
    ensures
        text_entries_map(entries).contains_key(key) <==> text_keys(entries).contains(key),
    decreases entries.len(),
{
    if entries.len() > 0 {
        lemma_domain(entries.drop_last(), key);
        assert(text_keys(entries.drop_last()) =~= text_keys(entries).drop_last());
        assert(text_keys(entries)[entries.len() - 1] == entries.last().0@);
        if text_keys(entries).contains(key) {
            let w = choose|w: int| 0 <= w < text_keys(entries).len() && text_keys(entries)[w] == key;
            if w < entries.len() - 1 {
                assert(text_keys(entries.drop_last())[w] == key);
            }
        }
        if text_keys(entries.drop_last()).contains(key) {
            let w = choose|w: int|
                0 <= w < text_keys(entries.drop_last()).len() && text_keys(entries.drop_last())[w] == key;
            assert(text_keys(entries)[w] == key);
        }
    }
}

proof fn lemma_lookup<V>(entries: Seq<(String, V)>, i: int)
    requires
        text_keys(entries).no_duplicates(),
        0 <= i < entries.len(),
    ensures
        text_entries_map(entries).contains_key(entries[i].0@),
        text_entries_map(entries)[entries[i].0@] == entries[i].1,
    decreases entries.len(),
{
    if i < entries.len() - 1 {
        assert(text_keys(entries.drop_last()) =~= text_keys(entries).drop_last());
        lemma_lookup(entries.drop_last(), i);
        assert(text_keys(entries)[i] != text_keys(entries)[entries.len() - 1]);
    }
}

proof fn lemma_set<V>(entries: Seq<(String, V)>, i: int, e: (String, V))
    requires
        text_keys(entries).no_duplicates(),
        0 <= i < entries.len(),
        e.0@ == entries[i].0@,
    ensures
        text_entries_map(entries.update(i, e)) == text_entries_map(entries).insert(e.0@, e.1),
    decreases entries.len(),
{
    let updated = entries.update(i, e);
    assert(text_keys(entries.drop_last()) =~= text_keys(entries).drop_last());
    if i == entries.len() - 1 {
        assert(updated.drop_last() =~= entries.drop_last());
        lemma_domain(entries.drop_last(), e.0@);
        assert(!text_keys(entries.drop_last()).contains(e.0@)) by {
            if text_keys(entries.drop_last()).contains(e.0@) {
                let w = choose|w: int|
                    0 <= w < text_keys(entries.drop_last()).len() && text_keys(entries.drop_last())[w]
                        == e.0@;
                assert(text_keys(entries)[w] == text_keys(entries)[i]);
            }
        }
        assert(text_entries_map(updated) =~= text_entries_map(entries).insert(e.0@, e.1));
    } else {
        assert(updated.drop_last() =~= entries.drop_last().update(i, e));
        lemma_set(entries.drop_last(), i, e);
        assert(text_keys(entries)[i] != text_keys(entries)[entries.len() - 1]);
        assert(text_entries_map(updated) =~= text_entries_map(entries).insert(e.0@, e.1));
    }
}

fn position_of<V>(entries: &Vec<(String, V)>, key: &str) -> (r: Option<usize>)
    ensures
        match r {
            Some(i) => i < entries@.len() && entries@[i as int].0@ == key@,
            None => !text_keys(entries@).contains(key@),
        },
{
    let wanted = key.to_owned();
    let mut i: usize = 0;
    while i < entries.len()
        invariant
            i <= entries@.len(),
            wanted@ == key@,
            forall|j: int| 0 <= j < i ==> entries@[j].0@ != key@,
        decreases entries@.len() - i,
    {
        if entries[i].0 == wanted {
            return Some(i);
        }
        i += 1;
    }
    proof {
        if text_keys(entries@).contains(key@) {
            let w = choose|w: int| 0 <= w < text_keys(entries@).len() && text_keys(entries@)[w] == key@;
            assert(entries@[w].0@ == key@);
        }
    }
    None
}

/// Values by text key.
pub struct TextMap<V> {
    entries: Vec<(String, V)>,
}

impl<V> View for TextMap<V> {
    type V = Map<Seq<char>, V>;

    closed spec fn view(&self) -> Map<Seq<char>, V> {
        text_entries_map(self.entries@)
    }
}

impl<V> TextMap<V> {
    #[verifier::type_invariant]
    closed spec fn inv(self) -> bool {
        text_keys(self.entries@).no_duplicates()
    }

    pub fn new() -> (m: TextMap<V>)
        ensures
            m@ == Map::<Seq<char>, V>::empty(),
    {
        let m = TextMap { entries: Vec::new() };
        assert(text_keys(m.entries@) =~= Seq::<Seq<char>>::empty());
        m
    }

    /// The value under `key`.
    pub fn get(&self, key: &str) -> (r: Option<&V>)
        ensures
            match r {
                Some(v) => self@.contains_key(key@) && self@[key@] == *v,
                None => !self@.contains_key(key@),
            },
    {
        proof {
            use_type_invariant(self);
        }
        match position_of(&self.entries, key) {
            Some(i) => {
                proof {
                    lemma_lookup(self.entries@, i as int);
                }
                Some(&self.entries[i].1)
            },
            None => {
                proof {
                    lemma_domain(self.entries@, key@);
                }
                None
            },
        }
    }

    /// Puts `value` under `key`, replacing what was there.
    pub fn insert(&mut self, key: &str, value: V)
        ensures
            final(self)@ == old(self)@.insert(key@, value),
    {
        proof {
            use_type_invariant(&*self);
        }
        let mut entries = Vec::new();
        std::mem::swap(&mut entries, &mut self.entries);
        let ghost start = entries@;
        let entry = (key.to_owned(), value);
        match position_of(&entries, key) {
            Some(i) => {
                proof {
                    lemma_set(start, i as int, entry);
                }
                entries.set(i, entry);
                assert(text_keys(entries@) =~= text_keys(start));
            },
            None => {
                proof {
                    lemma_domain(start, key@);
                }
                entries.push(entry);
                assert(entries@.drop_last() =~= start);
                assert(text_keys(entries@) =~= text_keys(start).push(key@));
            },
        }
        self.entries = entries;
    }
}

} // verus!
