//! API keys held by the headless daemon, which has no session keyring: a
//! map from provider URL to user name and secret, kept in a private file,
//! and the change that `zed/set_credentials` asks for.

use vstd::prelude::*;

use crate::acp_connect::SetCredentialsRequest;

verus! {

/// The user name stored with a key when the GUI names none.
pub const DEFAULT_USERNAME: &'static str = "Bearer";

/// The user name to store: the one given unless it is missing or empty,
/// then `Bearer`.
pub fn credential_username(username: Option<String>) -> (name: String)
    ensures
        name@ == match username {
            Some(given) => if given@.len() > 0 { given@ } else { DEFAULT_USERNAME@ },
            None => DEFAULT_USERNAME@,
        },
{
    match username {
        Some(given) => if given.as_str().unicode_len() > 0 {
            given
        } else {
            String::from_str(DEFAULT_USERNAME)
        },
        None => String::from_str(DEFAULT_USERNAME),
    }
}

/// The `zed/set_credentials` request that forwards a key (or, without one,
/// its removal) for `url` to a daemon.
pub fn set_credentials_request(url: &str, username: Option<&str>, api_key: Option<&str>) -> (r: SetCredentialsRequest)
    ensures
        r.url@ == url@,
        match username {
            Some(name) => r.username matches Some(n) && n@ == name@,
            None => r.username is None,
        },
        match api_key {
            Some(key) => r.api_key matches Some(k) && k@ == key@,
            None => r.api_key is None,
        },
{
    SetCredentialsRequest {
        url: url.to_owned(),
        username: match username {
            Some(name) => Some(name.to_owned()),
            None => None,
        },
        api_key: match api_key {
            Some(key) => Some(key.to_owned()),
            None => None,
        },
    }
}

/// The URL whose stored token is copied to the daemons: the client's
/// credentials URL when it has one, otherwise its server URL.
pub fn cloud_credentials_url(credentials_url: Option<String>, server_url: String) -> (url: String)
    ensures
        url@ == match credentials_url {
            Some(given) => given@,
            None => server_url@,
        },
{
    match credentials_url {
        Some(given) => given,
        None => server_url,
    }
}

/// What `zed/set_credentials` does to the store.
pub enum CredentialChange {
    /// Store the key (as UTF-8 bytes) for the URL.
    Write { url: String, username: String, password: Vec<u8> },
    /// No key was given: forget the URL.
    Delete { url: String },
}

/// The change for a request: write the key when there is one, else delete.
pub fn credential_change(url: String, username: String, api_key: Option<String>) -> (c: CredentialChange)
    ensures
        match api_key {
            Some(key) => (c matches CredentialChange::Write { url: u, username: n, password: p } && u@
                == url@ && n@ == username@ && p@ == vstd::utf8::encode_utf8(key@)),
            None => (c matches CredentialChange::Delete { url: u } && u@ == url@),
        },
{
    match api_key {
        Some(key) => {
            let password = key.as_str().as_bytes_vec();
            CredentialChange::Write { url, username, password }
        },
        None => CredentialChange::Delete { url },
    }
}

/// The URLs of `entries`.
pub open spec fn entry_urls(entries: Seq<(String, String, Vec<u8>)>) -> Seq<Seq<char>> {
    entries.map_values(|e: (String, String, Vec<u8>)| e.0@)
}

/// The entries as a map; each URL occurs once.
pub open spec fn entries_map(entries: Seq<(String, String, Vec<u8>)>) -> Map<Seq<char>, (Seq<char>, Seq<u8>)>
    decreases entries.len(),
{
    if entries.len() == 0 {
        Map::empty()
    } else {
        entries_map(entries.drop_last()).insert(
            entries.last().0@,
            (entries.last().1@, entries.last().2@),
        )
    }
}

proof fn lemma_entries_map_domain(entries: Seq<(String, String, Vec<u8>)>, key: Seq<char>)
    ensures
        entries_map(entries).contains_key(key) <==> entry_urls(entries).contains(key),
    decreases entries.len(),
{
    if entries.len() > 0 {
        lemma_entries_map_domain(entries.drop_last(), key);
        assert(entry_urls(entries.drop_last()) =~= entry_urls(entries).drop_last());
        assert(entry_urls(entries)[entries.len() - 1] == entries.last().0@);
        if entry_urls(entries).contains(key) {
            let w = choose|w: int| 0 <= w < entry_urls(entries).len() && entry_urls(entries)[w] == key;
            if w < entries.len() - 1 {
                assert(entry_urls(entries.drop_last())[w] == key);
            }
        }
        if entry_urls(entries.drop_last()).contains(key) {
            let w = choose|w: int|
                0 <= w < entry_urls(entries.drop_last()).len() && entry_urls(entries.drop_last())[w] == key;
            assert(entry_urls(entries)[w] == key);
        }
    }
}

proof fn lemma_entries_map_lookup(entries: Seq<(String, String, Vec<u8>)>, i: int)
    requires
        entry_urls(entries).no_duplicates(),
        0 <= i < entries.len(),
    ensures
        entries_map(entries).contains_key(entries[i].0@),
        entries_map(entries)[entries[i].0@] == (entries[i].1@, entries[i].2@),
    decreases entries.len(),
{
    if i < entries.len() - 1 {
        assert(entry_urls(entries.drop_last()) =~= entry_urls(entries).drop_last());
        lemma_entries_map_lookup(entries.drop_last(), i);
        assert(entry_urls(entries)[i] != entry_urls(entries)[entries.len() - 1]);
    }
}

proof fn lemma_entries_map_set(entries: Seq<(String, String, Vec<u8>)>, i: int, e: (String, String, Vec<u8>))
    requires
        entry_urls(entries).no_duplicates(),
        0 <= i < entries.len(),
        e.0@ == entries[i].0@,
    ensures
        entries_map(entries.update(i, e)) == entries_map(entries).insert(e.0@, (e.1@, e.2@)),
    decreases entries.len(),
{
    let updated = entries.update(i, e);
    assert(entry_urls(entries.drop_last()) =~= entry_urls(entries).drop_last());
    if i == entries.len() - 1 {
        assert(updated.drop_last() =~= entries.drop_last());
        lemma_entries_map_domain(entries.drop_last(), e.0@);
        assert(!entry_urls(entries.drop_last()).contains(e.0@)) by {
            if entry_urls(entries.drop_last()).contains(e.0@) {
                let w = choose|w: int|
                    0 <= w < entry_urls(entries.drop_last()).len() && entry_urls(entries.drop_last())[w]
                        == e.0@;
                assert(entry_urls(entries)[w] == entry_urls(entries)[i]);
            }
        }
        assert(entries_map(updated) =~= entries_map(entries).insert(e.0@, (e.1@, e.2@)));
    } else {
        assert(updated.drop_last() =~= entries.drop_last().update(i, e));
        lemma_entries_map_set(entries.drop_last(), i, e);
        assert(entry_urls(entries)[i] != entry_urls(entries)[entries.len() - 1]);
        assert(entries_map(updated) =~= entries_map(entries).insert(e.0@, (e.1@, e.2@)));
    }
}

proof fn lemma_entries_map_remove(entries: Seq<(String, String, Vec<u8>)>, i: int)
    requires
        entry_urls(entries).no_duplicates(),
        0 <= i < entries.len(),
    ensures
        entries_map(entries.remove(i)) == entries_map(entries).remove(entries[i].0@),
        entry_urls(entries.remove(i)).no_duplicates(),
    decreases entries.len(),
{
    let removed = entries.remove(i);
    let key = entries[i].0@;
    assert(entry_urls(entries.drop_last()) =~= entry_urls(entries).drop_last());
    assert(entry_urls(removed) =~= entry_urls(entries).remove(i));
    assert(entry_urls(removed).no_duplicates()) by {
        assert forall|a: int, b: int|
            0 <= a < removed.len() && 0 <= b < removed.len() && a != b implies entry_urls(removed)[a]
            != entry_urls(removed)[b] by {
            let a0 = if a < i { a } else { a + 1 };
            let b0 = if b < i { b } else { b + 1 };
            assert(entry_urls(removed)[a] == entry_urls(entries)[a0]);
            assert(entry_urls(removed)[b] == entry_urls(entries)[b0]);
        }
    }
    if i == entries.len() - 1 {
        assert(removed =~= entries.drop_last());
        lemma_entries_map_domain(entries.drop_last(), key);
        assert(!entry_urls(entries.drop_last()).contains(key)) by {
            if entry_urls(entries.drop_last()).contains(key) {
                let w = choose|w: int|
                    0 <= w < entry_urls(entries.drop_last()).len() && entry_urls(entries.drop_last())[w]
                        == key;
                assert(entry_urls(entries)[w] == entry_urls(entries)[i]);
            }
        }
        assert(entries_map(removed) =~= entries_map(entries).remove(key));
    } else {
        assert(removed.drop_last() =~= entries.drop_last().remove(i));
        assert(removed.last() == entries.last());
        lemma_entries_map_remove(entries.drop_last(), i);
        assert(entry_urls(entries)[i] != entry_urls(entries)[entries.len() - 1]);
        assert(entries_map(removed) =~= entries_map(entries).remove(key));
    }
}

fn copy_bytes(v: &[u8]) -> (c: Vec<u8>)
    ensures
        c@ == v@,
{
    let mut c: Vec<u8> = Vec::new();
    let mut i: usize = 0;
    while i < v.len()
        invariant
            i <= v@.len(),
            c@ == v@.take(i as int),
        decreases v@.len() - i,
    {
        c.push(v[i]);
        assert(c@ =~= v@.take(i + 1));
        i += 1;
    }
    assert(v@.take(v@.len() as int) =~= v@);
    c
}

/// Where `url` stands in `entries`, if it does.
fn position_of(entries: &Vec<(String, String, Vec<u8>)>, url: &str) -> (r: Option<usize>)
    ensures
        match r {
            Some(i) => i < entries@.len() && entries@[i as int].0@ == url@,
            None => !entry_urls(entries@).contains(url@),
        },
{
    let wanted = url.to_owned();
    let mut i: usize = 0;
    while i < entries.len()
        invariant
            i <= entries@.len(),
            wanted@ == url@,
            forall|j: int| 0 <= j < i ==> entries@[j].0@ != url@,
        decreases entries@.len() - i,
    {
        if entries[i].0 == wanted {
            return Some(i);
        }
        i += 1;
    }
    proof {
        if entry_urls(entries@).contains(url@) {
            let w = choose|w: int| 0 <= w < entry_urls(entries@).len() && entry_urls(entries@)[w] == url@;
            assert(entries@[w].0@ == url@);
        }
    }
    None
}

/// Stored credentials: URL to user name and secret.
pub struct CredentialStore {
    entries: Vec<(String, String, Vec<u8>)>,
}

impl View for CredentialStore {
    type V = Map<Seq<char>, (Seq<char>, Seq<u8>)>;

    closed spec fn view(&self) -> Map<Seq<char>, (Seq<char>, Seq<u8>)> {
        entries_map(self.entries@)
    }
}

impl CredentialStore {
    #[verifier::type_invariant]
    closed spec fn inv(self) -> bool {
        entry_urls(self.entries@).no_duplicates()
    }

    /// No credentials.
    pub fn new() -> (store: CredentialStore)
        ensures
            store@ == Map::<Seq<char>, (Seq<char>, Seq<u8>)>::empty(),
    {
        let store = CredentialStore { entries: Vec::new() };
        assert(entry_urls(store.entries@) =~= Seq::<Seq<char>>::empty());
        store
    }

    /// The user name and secret stored for `url`.
    pub fn read(&self, url: &str) -> (r: Option<(String, Vec<u8>)>)
        ensures
            match r {
                Some((name, secret)) => self@.contains_key(url@) && self@[url@] == (name@, secret@),
                None => !self@.contains_key(url@),
            },
    {
        proof {
            use_type_invariant(self);
        }
        match position_of(&self.entries, url) {
            Some(i) => {
                proof {
                    lemma_entries_map_lookup(self.entries@, i as int);
                }
                Some((self.entries[i].1.clone(), copy_bytes(self.entries[i].2.as_slice())))
            },
            None => {
                proof {
                    lemma_entries_map_domain(self.entries@, url@);
                }
                None
            },
        }
    }

    /// Stores `username` and `password` for `url`, replacing what was there.
    pub fn write(&mut self, url: &str, username: &str, password: &[u8])
        ensures
            final(self)@ == old(self)@.insert(url@, (username@, password@)),
    {
        proof {
            use_type_invariant(&*self);
        }
        let mut entries = Vec::new();
        std::mem::swap(&mut entries, &mut self.entries);
        let ghost start = entries@;
        let secret = copy_bytes(password);
        let entry = (url.to_owned(), username.to_owned(), secret);
        match position_of(&entries, url) {
            Some(i) => {
                proof {
                    lemma_entries_map_set(start, i as int, entry);
                }
                entries.set(i, entry);
                assert(entry_urls(entries@) =~= entry_urls(start));
            },
            None => {
                proof {
                    lemma_entries_map_domain(start, url@);
                }
                entries.push(entry);
                assert(entries@.drop_last() =~= start);
                assert(entry_urls(entries@) =~= entry_urls(start).push(url@));
            },
        }
        self.entries = entries;
    }

    /// Forgets `url`.
    pub fn delete(&mut self, url: &str)
        ensures
            final(self)@ == old(self)@.remove(url@),
    {
        proof {
            use_type_invariant(&*self);
        }
        let mut entries = Vec::new();
        std::mem::swap(&mut entries, &mut self.entries);
        let ghost start = entries@;
        match position_of(&entries, url) {
            Some(i) => {
                proof {
                    lemma_entries_map_remove(start, i as int);
                }
                entries.remove(i);
            },
            None => {
                proof {
                    lemma_entries_map_domain(start, url@);
                    assert(entries_map(start).remove(url@) =~= entries_map(start));
                }
            },
        }
        self.entries = entries;
    }

    /// Applies what `zed/set_credentials` asked for.
    pub fn apply(&mut self, change: &CredentialChange)
        ensures
            match change {
                CredentialChange::Write { url, username, password } => final(self)@ == old(self)@.insert(
                    url@,
                    (username@, password@),
                ),
                CredentialChange::Delete { url } => final(self)@ == old(self)@.remove(url@),
            },
    {
        match change {
            CredentialChange::Write { url, username, password } => {
                self.write(url.as_str(), username.as_str(), password.as_slice())
            },
            CredentialChange::Delete { url } => self.delete(url.as_str()),
        }
    }

    /// Every stored URL with its user name and secret, each URL once.
    pub fn to_entries(&self) -> (out: Vec<(String, String, Vec<u8>)>)
        ensures
            entry_urls(out@).no_duplicates(),
            entries_map(out@) == self@,
    {
        proof {
            use_type_invariant(self);
        }
        let mut out: Vec<(String, String, Vec<u8>)> = Vec::new();
        let mut i: usize = 0;
        while i < self.entries.len()
            invariant
                i <= self.entries@.len(),
                entry_urls(self.entries@).no_duplicates(),
                out@.len() == i,
                forall|j: int|
                    0 <= j < i ==> (#[trigger] out@[j]).0@ == self.entries@[j].0@ && out@[j].1@
                        == self.entries@[j].1@ && out@[j].2@ == self.entries@[j].2@,
            decreases self.entries@.len() - i,
        {
            let e = &self.entries[i];
            out.push((e.0.clone(), e.1.clone(), copy_bytes(e.2.as_slice())));
            i += 1;
        }
        proof {
            assert(entry_urls(out@) =~= entry_urls(self.entries@));
            lemma_same_entries_map(out@, self.entries@);
        }
        out
    }
}

proof fn lemma_same_entries_map(a: Seq<(String, String, Vec<u8>)>, b: Seq<(String, String, Vec<u8>)>)
    requires
        a.len() == b.len(),
        forall|j: int|
            0 <= j < a.len() ==> (#[trigger] a[j]).0@ == b[j].0@ && a[j].1@ == b[j].1@ && a[j].2@
                == b[j].2@,
    ensures
        entries_map(a) == entries_map(b),
    decreases a.len(),
{
    if a.len() > 0 {
        assert forall|j: int| 0 <= j < a.drop_last().len() implies (#[trigger] a.drop_last()[j]).0@
            == b.drop_last()[j].0@ && a.drop_last()[j].1@ == b.drop_last()[j].1@ && a.drop_last()[j].2@
            == b.drop_last()[j].2@ by {
            assert(a.drop_last()[j] == a[j] && b.drop_last()[j] == b[j]);
        }
        lemma_same_entries_map(a.drop_last(), b.drop_last());
        assert(a[a.len() - 1].0@ == b[b.len() - 1].0@);
    }
}

/// A read after a write gives back what was written, and a read after a
/// delete finds nothing; other URLs are untouched by either.
pub proof fn lemma_read_after_change(
    store: Map<Seq<char>, (Seq<char>, Seq<u8>)>,
    url: Seq<char>,
    username: Seq<char>,
    password: Seq<u8>,
    other: Seq<char>,
)
    requires
        other != url,
    ensures
        store.insert(url, (username, password)).contains_key(url),
        store.insert(url, (username, password))[url] == (username, password),
        !store.remove(url).contains_key(url),
        store.insert(url, (username, password)).contains_key(other) == store.contains_key(other),
        store.contains_key(other) ==> store.insert(url, (username, password))[other] == store[other],
        store.remove(url).contains_key(other) == store.contains_key(other),
        store.contains_key(other) ==> store.remove(url)[other] == store[other],
{
}

} // verus!
