//! Which sessions the daemon's agent is generating in, so that the session
//! list a GUI sees can mark them; a change is what the GUI is told about.

use vstd::prelude::*;

verus! {

/// The set of sessions with a turn in progress.
pub struct GeneratingSessions {
    sessions: Vec<String>,
}

/// The session ids in `v`.
pub open spec fn ids_of(v: Seq<String>) -> Seq<Seq<char>> {
    v.map_values(|s: String| s@)
}

impl View for GeneratingSessions {
    type V = Set<Seq<char>>;

    closed spec fn view(&self) -> Set<Seq<char>> {
        ids_of(self.sessions@).to_set()
    }
}

fn index_of(sessions: &Vec<String>, session: &str) -> (r: Option<usize>)
    ensures
        match r {
            Some(i) => i < sessions@.len() && sessions@[i as int]@ == session@,
            None => !ids_of(sessions@).contains(session@),
        },
{
    let wanted = session.to_owned();
    let mut i: usize = 0;
    while i < sessions.len()
        invariant
            i <= sessions@.len(),
            wanted@ == session@,
            forall|j: int| 0 <= j < i ==> sessions@[j]@ != session@,
        decreases sessions@.len() - i,
    {
        if sessions[i] == wanted {
            return Some(i);
        }
        i += 1;
    }
    proof {
        if ids_of(sessions@).contains(session@) {
            let w = choose|w: int| 0 <= w < ids_of(sessions@).len() && ids_of(sessions@)[w] == session@;
            assert(sessions@[w]@ == session@);
        }
    }
    None
}

impl GeneratingSessions {
    #[verifier::type_invariant]
    closed spec fn inv(self) -> bool {
        ids_of(self.sessions@).no_duplicates()
    }

    /// No session is generating.
    pub fn new() -> (g: GeneratingSessions)
        ensures
            g@ == Set::<Seq<char>>::empty(),
    {
        let g = GeneratingSessions { sessions: Vec::new() };
        assert(ids_of(g.sessions@) =~= Seq::<Seq<char>>::empty());
        assert(g@ =~= Set::<Seq<char>>::empty());
        g
    }

    /// Whether `session` has a turn in progress.
    pub fn is_generating(&self, session: &str) -> (r: bool)
        ensures
            r == self@.contains(session@),
    {
        match index_of(&self.sessions, session) {
            Some(i) => {
                assert(ids_of(self.sessions@)[i as int] == session@);
                true
            },
            None => false,
        }
    }

    /// Marks `session` as generating or not. Returns whether that changed
    /// anything, which is when the session list must be sent again.
    pub fn set(&mut self, session: &str, generating: bool) -> (changed: bool)
        ensures
            final(self)@ == if generating {
                old(self)@.insert(session@)
            } else {
                old(self)@.remove(session@)
            },
            changed == (old(self)@.contains(session@) != generating),
    {
        proof {
            use_type_invariant(&*self);
        }
        let ghost before = ids_of(self.sessions@);
        let found = index_of(&self.sessions, session);
        match found {
            Some(i) => {
                assert(before[i as int] == session@);
                if generating {
                    assert(old(self)@.insert(session@) =~= old(self)@);
                    false
                } else {
                    let mut sessions = Vec::new();
                    std::mem::swap(&mut sessions, &mut self.sessions);
                    sessions.remove(i);
                    let ghost after = ids_of(sessions@);
                    assert(after =~= before.remove(i as int));
                    proof {
                        assert(after.no_duplicates()) by {
                            assert forall|a: int, b: int|
                                0 <= a < after.len() && 0 <= b < after.len() && a != b implies after[a]
                                != after[b] by {
                                let a0 = if a < i { a } else { a + 1 };
                                let b0 = if b < i { b } else { b + 1 };
                                assert(after[a] == before[a0] && after[b] == before[b0]);
                            }
                        }
                        assert forall|x: Seq<char>| after.to_set().contains(x) == old(self)@.remove(
                            session@,
                        ).contains(x) by {
                            if after.contains(x) {
                                let w = choose|w: int| 0 <= w < after.len() && after[w] == x;
                                let w0 = if w < i { w } else { w + 1 };
                                assert(before[w0] == x);
                                assert(w0 != i);
                            }
                            if before.contains(x) && x != session@ {
                                let w = choose|w: int| 0 <= w < before.len() && before[w] == x;
                                assert(w != i);
                                let w1 = if w < i { w } else { w - 1 };
                                assert(after[w1] == x);
                            }
                        }
                        assert(after.to_set() =~= old(self)@.remove(session@));
                    }
                    self.sessions = sessions;
                    true
                }
            },
            None => {
                if generating {
                    let mut sessions = Vec::new();
                    std::mem::swap(&mut sessions, &mut self.sessions);
                    sessions.push(session.to_owned());
                    let ghost after = ids_of(sessions@);
                    assert(after =~= before.push(session@));
                    proof {
                        assert(after.no_duplicates()) by {
                            assert forall|a: int, b: int|
                                0 <= a < after.len() && 0 <= b < after.len() && a != b implies after[a]
                                != after[b] by {
                                if a == before.len() {
                                    assert(before.contains(after[b]) ==> after[b] != session@);
                                    assert(after[b] == before[b]);
                                } else if b == before.len() {
                                    assert(after[a] == before[a]);
                                }
                            }
                        }
                        assert(after.to_set() =~= old(self)@.insert(session@)) by {
                            assert forall|x: Seq<char>| after.to_set().contains(x)
                                == old(self)@.insert(session@).contains(x) by {
                                if after.contains(x) {
                                    let w = choose|w: int| 0 <= w < after.len() && after[w] == x;
                                    if w < before.len() {
                                        assert(before[w] == x);
                                    }
                                }
                                if before.contains(x) {
                                    let w = choose|w: int| 0 <= w < before.len() && before[w] == x;
                                    assert(after[w] == x);
                                }
                                if x == session@ {
                                    assert(after[before.len() as int] == x);
                                }
                            }
                        }
                    }
                    self.sessions = sessions;
                    true
                } else {
                    assert(old(self)@.remove(session@) =~= old(self)@);
                    false
                }
            },
        }
    }
}

} // verus!
