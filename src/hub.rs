//! The broadcast hub: one bounded outbound queue per live connection.
//! Broadcasting never waits: a connection whose queue is full is dropped.
use vstd::prelude::*;
use crate::model::texts;

verus! {

/// The queued payloads of one connection.
pub struct Outbox {
    id: u64,
    queue: Vec<String>,
}

/// The live connections, each with the payloads not yet delivered to it.
pub struct BroadcastHub {
    next_id: u64,
    capacity: usize,
    outboxes: Vec<Outbox>,
    queues: Ghost<Map<u64, Seq<Seq<char>>>>,
}

impl View for BroadcastHub {
    type V = Map<u64, Seq<Seq<char>>>;

    closed spec fn view(&self) -> Map<u64, Seq<Seq<char>>> {
        self.queues@
    }
}

impl BroadcastHub {
    /// The most payloads a connection may have waiting.
    pub closed spec fn bound(&self) -> nat {
        self.capacity as nat
    }

    /// How many connection ids have been handed out.
    pub closed spec fn issued(&self) -> nat {
        self.next_id as nat
    }

    /// Each connection appears once, its queue agrees with the view and
    /// respects the bound, and its id was handed out before.
    pub closed spec fn wf(&self) -> bool {
        &&& self.capacity > 0
        &&& forall|i: int, j: int|
            0 <= i < j < self.outboxes@.len() ==> (#[trigger] self.outboxes@[i]).id != (
            #[trigger] self.outboxes@[j]).id
        &&& forall|i: int|
            0 <= i < self.outboxes@.len() ==> {
                let o = #[trigger] self.outboxes@[i];
                &&& self.queues@.contains_key(o.id)
                &&& self.queues@[o.id] == texts(o.queue@)
                &&& o.queue@.len() <= self.capacity
                &&& o.id < self.next_id
            }
        &&& forall|k: u64|
            #[trigger] self.queues@.contains_key(k) ==> exists|i: int|
                0 <= i < self.outboxes@.len() && (#[trigger] self.outboxes@[i]).id == k
    }

    /// A hub without connections whose queues hold at most `capacity` payloads.
    pub fn new(capacity: usize) -> (r: Self)
        requires
            capacity > 0,
        ensures
            r.wf(),
            r@ == Map::<u64, Seq<Seq<char>>>::empty(),
            r.bound() == capacity,
            r.issued() == 0,
    {
        BroadcastHub { next_id: 0, capacity, outboxes: Vec::new(), queues: Ghost(Map::empty()) }
    }

    fn position(&self, id: u64) -> (r: Option<usize>)
        requires
            self.wf(),
        ensures
            r matches Some(i) ==> i < self.outboxes@.len() && self.outboxes@[i as int].id == id,
            r is None ==> !self@.contains_key(id),
    {
        let mut i: usize = 0;
        while i < self.outboxes.len()
            invariant
                i <= self.outboxes@.len(),
                forall|k: int| 0 <= k < i ==> (#[trigger] self.outboxes@[k]).id != id,
            decreases self.outboxes@.len() - i,
        {
            if self.outboxes[i].id == id {
                return Some(i);
            }
            i = i + 1;
        }
        None
    }

    /// Whether connection `id` is live, i.e. registered and not dropped.
    pub fn is_registered(&self, id: u64) -> (r: bool)
        requires
            self.wf(),
        ensures
            r == self@.contains_key(id),
    {
        self.position(id).is_some()
    }

    /// Adds a connection with an empty queue and returns its id, the next
    /// unused one; `None`, with nothing changed, once every id was handed out.
    pub fn register(&mut self) -> (r: Option<u64>)
        requires
            old(self).wf(),
        ensures
            final(self).wf(),
            final(self).bound() == old(self).bound(),
            r matches Some(id) ==> !old(self)@.contains_key(id) && final(self)@ == old(self)@.insert(
                id,
                Seq::empty(),
            ),
            r matches Some(id) ==> id == old(self).issued() && final(self).issued() == old(self).issued()
                + 1,
            old(self).issued() < u64::MAX ==> r is Some,
            r is None ==> final(self)@ == old(self)@ && final(self).issued() == old(self).issued(),
    {
        if self.next_id == u64::MAX {
            return None;
        }
        let id = self.next_id;
        let ghost before = self.outboxes@;
        self.next_id = id + 1;
        self.outboxes.push(Outbox { id, queue: Vec::new() });
        proof {
            assert(texts(Seq::<String>::empty()) =~= Seq::<Seq<char>>::empty());
        }
        self.queues = Ghost(self.queues@.insert(id, Seq::empty()));
        proof {
            assert forall|k: u64| #[trigger] self.queues@.contains_key(k) implies exists|i: int|
                0 <= i < self.outboxes@.len() && (#[trigger] self.outboxes@[i]).id == k by {
                if k != id {
                    let i = choose|i: int| 0 <= i < before.len() && (#[trigger] before[i]).id == k;
                    assert(self.outboxes@[i].id == k);
                } else {
                    assert(self.outboxes@[before.len() as int].id == k);
                }
            }
        }
        Some(id)
    }

    /// Removes connection `id` and its queue.
    pub fn unregister(&mut self, id: u64)
        requires
            old(self).wf(),
        ensures
            final(self).wf(),
            final(self).bound() == old(self).bound(),
            final(self).issued() == old(self).issued(),
            final(self)@ == old(self)@.remove(id),
    {
        let ghost before = self.outboxes@;
        let pos = self.position(id);
        if let Some(i) = pos {
            self.outboxes.remove(i);
            proof {
                assert forall|j: int| 0 <= j < self.outboxes@.len() implies (#[trigger] self.outboxes@[j]).id
                    != id by {
                    if j < i {
                        assert(self.outboxes@[j] == before[j]);
                    } else {
                        assert(self.outboxes@[j] == before[j + 1]);
                    }
                }
            }
        }
        self.queues = Ghost(self.queues@.remove(id));
        proof {
            assert forall|k: u64| #[trigger] self.queues@.contains_key(k) implies exists|j: int|
                0 <= j < self.outboxes@.len() && (#[trigger] self.outboxes@[j]).id == k by {
                let j = choose|j: int| 0 <= j < before.len() && (#[trigger] before[j]).id == k;
                if let Some(i) = pos {
                    let i = i as int;
                    if j < i {
                        assert(self.outboxes@[j] == before[j]);
                    } else {
                        assert(self.outboxes@[j - 1] == before[j]);
                    }
                } else {
                    assert(self.outboxes@[j] == before[j]);
                }
            }
        }
    }

    /// Hands over and clears the payloads waiting for connection `id`, oldest
    /// first; nothing for an unknown connection.
    pub fn drain(&mut self, id: u64) -> (r: Vec<String>)
        requires
            old(self).wf(),
        ensures
            final(self).wf(),
            final(self).bound() == old(self).bound(),
            final(self).issued() == old(self).issued(),
            old(self)@.contains_key(id) ==> texts(r@) == old(self)@[id] && final(self)@ == old(
                self,
            )@.insert(id, Seq::empty()),
            !old(self)@.contains_key(id) ==> r@.len() == 0 && final(self)@ == old(self)@,
    {
        match self.position(id) {
            None => Vec::new(),
            Some(i) => {
                let ghost before = self.outboxes@;
                let mut ob = self.outboxes.remove(i);
                let mut out: Vec<String> = Vec::new();
                std::mem::swap(&mut out, &mut ob.queue);
                self.outboxes.insert(i, ob);
                proof {
                    assert(self.outboxes@ =~= before.update(i as int, ob));
                    assert(texts(ob.queue@) =~= Seq::<Seq<char>>::empty());
                }
                self.queues = Ghost(self.queues@.insert(id, Seq::empty()));
                proof {
                    assert forall|k: u64| #[trigger] self.queues@.contains_key(k) implies exists|j: int|
                        0 <= j < self.outboxes@.len() && (#[trigger] self.outboxes@[j]).id == k by {
                        let j = choose|j: int| 0 <= j < before.len() && (#[trigger] before[j]).id == k;
                        assert(self.outboxes@[j].id == k);
                    }
                }
                out
            },
        }
    }

    /// Queues `payload` for every connection; a connection whose queue is
    /// already full is dropped instead of waited for.
    pub fn broadcast(&mut self, payload: &String)
        requires
            old(self).wf(),
        ensures
            final(self).wf(),
            final(self).bound() == old(self).bound(),
            final(self).issued() == old(self).issued(),
            forall|k: u64|
                #[trigger] final(self)@.contains_key(k) <==> old(self)@.contains_key(k) && old(
                    self,
                )@[k].len() < old(self).bound(),
            forall|k: u64|
                #[trigger] final(self)@.contains_key(k) ==> final(self)@[k] == old(self)@[k].push(
                    payload@,
                ),
    {
        let mut pending: Vec<Outbox> = Vec::new();
        std::mem::swap(&mut pending, &mut self.outboxes);
        let ghost orig = pending@;
        assert(orig == old(self).outboxes@);
        let ghost old_map = self.queues@;
        let ghost cap = self.capacity as nat;
        let ghost new_map = Map::new(
            |k: u64| old_map.contains_key(k) && old_map[k].len() < cap,
            |k: u64| old_map[k].push(payload@),
        );
        assert(pending@ =~= orig.take(orig.len() as int));
        while pending.len() > 0
            invariant
                pending@ == orig.take(pending@.len() as int),
                pending@.len() <= orig.len(),
                cap == self.capacity,
                self.capacity > 0,
                self.next_id == old(self).next_id,
                forall|i: int, j: int| 0 <= i < j < orig.len() ==> (#[trigger] orig[i]).id != (#[trigger] orig[j]).id,
                forall|i: int|
                    0 <= i < orig.len() ==> {
                        let o = #[trigger] orig[i];
                        &&& old_map.contains_key(o.id)
                        &&& old_map[o.id] == texts(o.queue@)
                        &&& o.queue@.len() <= cap
                        &&& o.id < self.next_id
                    },
                new_map == Map::new(
                    |k: u64| old_map.contains_key(k) && old_map[k].len() < cap,
                    |k: u64| old_map[k].push(payload@),
                ),
                forall|j: int|
                    0 <= j < self.outboxes@.len() ==> {
                        let o = #[trigger] self.outboxes@[j];
                        &&& new_map.contains_key(o.id)
                        &&& new_map[o.id] == texts(o.queue@)
                        &&& o.queue@.len() <= cap
                        &&& o.id < self.next_id
                    },
                forall|i: int, j: int|
                    0 <= i < j < self.outboxes@.len() ==> (#[trigger] self.outboxes@[i]).id != (
                    #[trigger] self.outboxes@[j]).id,
                forall|j: int, i: int|
                    0 <= j < self.outboxes@.len() && 0 <= i < pending@.len() ==> (
                    #[trigger] self.outboxes@[j]).id != (#[trigger] orig[i]).id,
                forall|i: int|
                    pending@.len() <= i < orig.len() && (#[trigger] orig[i]).queue@.len() < cap
                        ==> exists|j: int|
                        0 <= j < self.outboxes@.len() && (#[trigger] self.outboxes@[j]).id == orig[i].id,
            decreases pending@.len(),
        {
            let ghost idx = pending@.len() - 1;
            let ghost kept_before = self.outboxes@;
            let mut ob = pending.pop().unwrap();
            proof {
                assert(ob == orig[idx]);
                assert(pending@ =~= orig.take(idx));
            }
            if ob.queue.len() < self.capacity {
                let ghost q0 = ob.queue@;
                ob.queue.push(payload.clone());
                proof {
                    assert(texts(ob.queue@) =~= texts(q0).push(payload@));
                }
                self.outboxes.push(ob);
                proof {
                    assert forall|j: int, i: int|
                        0 <= j < self.outboxes@.len() && 0 <= i < pending@.len() implies (
                        #[trigger] self.outboxes@[j]).id != (#[trigger] orig[i]).id by {
                        if j < kept_before.len() {
                            assert(self.outboxes@[j] == kept_before[j]);
                            assert(pending@[i] == orig[i]);
                        } else {
                            assert(orig[i] == pending@[i]);
                        }
                    }
                    assert forall|i: int|
                        pending@.len() <= i < orig.len() && (#[trigger] orig[i]).queue@.len() < cap
                            implies exists|j: int|
                            0 <= j < self.outboxes@.len() && (#[trigger] self.outboxes@[j]).id == orig[i].id by {
                        if i == idx {
                            assert(self.outboxes@[kept_before.len() as int].id == orig[i].id);
                        } else {
                            let j = choose|j: int| 0 <= j < kept_before.len() && (#[trigger] kept_before[j]).id == orig[i].id;
                            assert(self.outboxes@[j].id == orig[i].id);
                        }
                    }
                }
            }
        }
        assert(pending@.len() == 0);
        assert forall|k: u64| #[trigger] new_map.contains_key(k) implies exists|j: int|
            0 <= j < self.outboxes@.len() && (#[trigger] self.outboxes@[j]).id == k by {
            assert(old(self).queues@.contains_key(k));
            let i = choose|i: int| 0 <= i < orig.len() && (#[trigger] orig[i]).id == k;
            assert(orig[i].queue@.len() == texts(orig[i].queue@).len());
        }
        self.queues = Ghost(new_map);
    }
}

} // verus!
