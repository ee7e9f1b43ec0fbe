//! The presence registry: which user each live connection belongs to.
use vstd::prelude::*;
use crate::model::texts;

verus! {

/// Live connections and their users; each connection id appears once.
pub struct PresenceRegistry {
    entries: Vec<(u64, String)>,
    users: Ghost<Map<u64, Seq<char>>>,
}

impl View for PresenceRegistry {
    type V = Map<u64, Seq<char>>;

    closed spec fn view(&self) -> Map<u64, Seq<char>> {
        self.users@
    }
}

impl PresenceRegistry {
    /// The entries hold each connection once and agree with the view.
    pub closed spec fn wf(&self) -> bool {
        &&& forall|i: int, j: int|
            0 <= i < j < self.entries@.len() ==> (#[trigger] self.entries@[i]).0 != (
            #[trigger] self.entries@[j]).0
        &&& forall|i: int|
            0 <= i < self.entries@.len() ==> self.users@.contains_key((#[trigger] self.entries@[i]).0)
                && self.users@[self.entries@[i].0] == self.entries@[i].1@
        &&& forall|k: u64|
            #[trigger] self.users@.contains_key(k) ==> exists|i: int|
                0 <= i < self.entries@.len() && (#[trigger] self.entries@[i]).0 == k
    }

    /// An empty registry.
    pub fn new() -> (r: Self)
        ensures
            r.wf(),
            r@ == Map::<u64, Seq<char>>::empty(),
    {
        PresenceRegistry { entries: Vec::new(), users: Ghost(Map::empty()) }
    }

    fn position(&self, conn: u64) -> (r: Option<usize>)
        requires
            self.wf(),
        ensures
            r matches Some(i) ==> i < self.entries@.len() && self.entries@[i as int].0 == conn,
            r is None ==> !self@.contains_key(conn),
    {
        let mut i: usize = 0;
        while i < self.entries.len()
            invariant
                i <= self.entries@.len(),
                forall|k: int| 0 <= k < i ==> (#[trigger] self.entries@[k]).0 != conn,
            decreases self.entries@.len() - i,
        {
            if self.entries[i].0 == conn {
                return Some(i);
            }
            i = i + 1;
        }
        None
    }

    /// Records that connection `conn` belongs to `user`.
    pub fn register(&mut self, conn: u64, user: String)
        requires
            old(self).wf(),
        ensures
            final(self).wf(),
            final(self)@ == old(self)@.insert(conn, user@),
    {
        let ghost before = self.entries@;
        let ghost u = user@;
        let ghost mut at: int = 0;
        match self.position(conn) {
            Some(i) => {
                proof {
                    at = i as int;
                }
                self.entries.remove(i);
                self.entries.insert(i, (conn, user));
                proof {
                    assert(self.entries@ =~= before.update(i as int, (conn, self.entries@[i as int].1)));
                }
            },
            None => {
                self.entries.push((conn, user));
                proof {
                    at = self.entries@.len() - 1;
                }
            },
        }
        self.users = Ghost(self.users@.insert(conn, u));
        proof {
            assert forall|k: u64| #[trigger] self.users@.contains_key(k) implies exists|i: int|
                0 <= i < self.entries@.len() && (#[trigger] self.entries@[i]).0 == k by {
                if k != conn {
                    let i = choose|i: int| 0 <= i < before.len() && (#[trigger] before[i]).0 == k;
                    assert(self.entries@[i].0 == k);
                } else {
                    assert(self.entries@[at].0 == conn);
                }
            }
        }
    }

    /// Forgets connection `conn`.
    pub fn unregister(&mut self, conn: u64)
        requires
            old(self).wf(),
        ensures
            final(self).wf(),
            final(self)@ == old(self)@.remove(conn),
    {
        let ghost before = self.entries@;
        let pos = self.position(conn);
        if let Some(i) = pos {
            self.entries.remove(i);
            proof {
                assert forall|j: int| 0 <= j < self.entries@.len() implies (#[trigger] self.entries@[j]).0
                    != conn by {
                    if j < i {
                        assert(self.entries@[j] == before[j]);
                    } else {
                        assert(self.entries@[j] == before[j + 1]);
                    }
                }
            }
        }
        self.users = Ghost(self.users@.remove(conn));
        proof {
            assert forall|k: u64| #[trigger] self.users@.contains_key(k) implies exists|j: int|
                0 <= j < self.entries@.len() && (#[trigger] self.entries@[j]).0 == k by {
                let j = choose|j: int| 0 <= j < before.len() && (#[trigger] before[j]).0 == k;
                if let Some(i) = pos {
                    let i = i as int;
                    if j < i {
                        assert(self.entries@[j] == before[j]);
                    } else {
                        assert(self.entries@[j - 1] == before[j]);
                    }
                } else {
                    assert(self.entries@[j] == before[j]);
                }
            }
        }
    }

    /// The users with at least one live connection, each once.
    pub fn online_users(&self) -> (r: Vec<String>)
        requires
            self.wf(),
        ensures
            texts(r@).no_duplicates(),
            forall|u: Seq<char>|
                texts(r@).contains(u) <==> exists|k: u64| #[trigger] self@.contains_key(k) && self@[k] == u,
    {
        let mut out: Vec<String> = Vec::new();
        let mut i: usize = 0;
        while i < self.entries.len()
            invariant
                self.wf(),
                i <= self.entries@.len(),
                texts(out@).no_duplicates(),
                forall|u: Seq<char>|
                    texts(out@).contains(u) <==> exists|j: int|
                        0 <= j < i && (#[trigger] self.entries@[j]).1@ == u,
            decreases self.entries@.len() - i,
        {
            let ghost prev = texts(out@);
            let user = &self.entries[i].1;
            if !crate::reactions::has_text(&out, user) {
                out.push(user.clone());
                proof {
                    assert(texts(out@) =~= prev.push(user@));
                }
            }
            proof {
                assert forall|u: Seq<char>|
                    texts(out@).contains(u) <==> exists|j: int|
                        0 <= j < i + 1 && (#[trigger] self.entries@[j]).1@ == u by {
                    if texts(out@).contains(u) && !prev.contains(u) {
                        assert(u == user@);
                        assert(self.entries@[i as int].1@ == u);
                    }
                    if exists|j: int| 0 <= j < i + 1 && (#[trigger] self.entries@[j]).1@ == u {
                        let j = choose|j: int| 0 <= j < i + 1 && (#[trigger] self.entries@[j]).1@ == u;
                        if j < i {
                            assert(exists|j2: int| 0 <= j2 < i && (#[trigger] self.entries@[j2]).1@ == u);
                            assert(prev.contains(u));
                            let k = choose|k: int| 0 <= k < prev.len() && prev[k] == u;
                            assert(texts(out@)[k] == u);
                        } else if !prev.contains(u) {
                            assert(texts(out@)[prev.len() as int] == u);
                        }
                    }
                }
            }
            i = i + 1;
        }
        proof {
            assert forall|u: Seq<char>|
                texts(out@).contains(u) <==> exists|k: u64| #[trigger] self@.contains_key(k) && self@[k] == u by {
                if texts(out@).contains(u) {
                    let j = choose|j: int| 0 <= j < self.entries@.len() && (#[trigger] self.entries@[j]).1@ == u;
                    assert(self@.contains_key(self.entries@[j].0));
                }
                if exists|k: u64| #[trigger] self@.contains_key(k) && self@[k] == u {
                    let k = choose|k: u64| #[trigger] self@.contains_key(k) && self@[k] == u;
                    assert(self.users@.contains_key(k));
                    let j = choose|j: int| 0 <= j < self.entries@.len() && (#[trigger] self.entries@[j]).0 == k;
                    assert(self.entries@[j].1@ == u);
                }
            }
        }
        out
    }
}

} // verus!
