//! The in-process publish/subscribe hub: one producer, any number of
//! registered subscriptions, each with its own bounded delivery buffer. A
//! slow subscriber is dropped rather than ever blocking the producer or
//! touching what other subscribers receive.

use vstd::prelude::*;

use crate::event::ChatEvent;

verus! {

/// A live registration of one consumer: an identity-less delivery buffer plus
/// a liveness flag. The ghost fields place the buffer inside the hub's
/// publication history.
pub struct Subscription {
    /// Registry handle; unique within one hub.
    pub id: u64,
    /// Cleared when the consumer was dropped for overflowing its buffer.
    pub alive: bool,
    /// Bound of the delivery buffer.
    pub cap: usize,
    /// Events delivered but not yet consumed.
    pub queue: Vec<ChatEvent>,
    /// How many events had been published when this subscription registered.
    pub start: Ghost<int>,
    /// How many delivered events the consumer has already taken out.
    pub taken: Ghost<int>,
}

/// The hub: a registry of subscriptions and the ghost history of everything
/// published through it.
pub struct Broadcaster {
    /// The next registry handle to hand out.
    pub next_id: u64,
    /// The registered subscriptions.
    pub entries: Vec<Subscription>,
    /// Every event ever published, in publication order.
    pub history: Ghost<Seq<ChatEvent>>,
}

/// How one publication changes one subscription: a live one with room gets the
/// event appended; a live one without room is dropped with its buffer frozen;
/// a dropped one stays as it is. Nothing else of it changes.
pub open spec fn publish_entry_step(o: Subscription, n: Subscription, e: ChatEvent) -> bool {
    &&& n.id == o.id
    &&& n.cap == o.cap
    &&& n.start@ == o.start@
    &&& n.taken@ == o.taken@
    &&& (o.alive && o.queue@.len() < o.cap ==> n.alive && n.queue@ == o.queue@.push(e))
    &&& (o.alive && o.queue@.len() >= o.cap ==> !n.alive && n.queue@ == o.queue@)
    &&& (!o.alive ==> !n.alive && n.queue@ == o.queue@)
}

impl Broadcaster {
    /// One subscription's buffer is a window of the history: everything
    /// published since it registered, minus what its consumer already took
    /// out; for a live subscription the window reaches the present.
    pub open spec fn entry_wf(self, k: int) -> bool {
        let en = self.entries@[k];
        &&& en.id < self.next_id
        &&& en.queue@.len() <= en.cap
        &&& 0 <= en.start@
        &&& 0 <= en.taken@
        &&& en.start@ + en.taken@ + en.queue@.len() <= self.history@.len()
        &&& (en.alive ==> en.start@ + en.taken@ + en.queue@.len() == self.history@.len())
        &&& en.queue@ == self.history@.subrange(
            en.start@ + en.taken@,
            en.start@ + en.taken@ + en.queue@.len(),
        )
    }

    /// The hub's invariant: every subscription well placed in the history,
    /// registry handles unique.
    pub open spec fn wf(self) -> bool {
        &&& forall|k: int| 0 <= k < self.entries@.len() ==> #[trigger] self.entry_wf(k)
        &&& forall|k1: int, k2: int|
            #![trigger self.entries@[k1].id, self.entries@[k2].id]
            0 <= k1 < k2 < self.entries@.len() ==> self.entries@[k1].id != self.entries@[k2].id
    }

    /// Some subscription carries this handle.
    pub open spec fn has_id(self, id: u64) -> bool {
        exists|k: int| 0 <= k < self.entries@.len() && self.entries@[k].id == id
    }

    /// The registry index of the subscription with this handle.
    pub open spec fn idx_of(self, id: u64) -> int {
        choose|k: int| 0 <= k < self.entries@.len() && self.entries@[k].id == id
    }

    /// Everything the subscription at index `k` has received: what its
    /// consumer took out followed by what still sits in its buffer.
    pub open spec fn received(self, k: int) -> Seq<ChatEvent> {
        let en = self.entries@[k];
        self.history@.subrange(en.start@, en.start@ + en.taken@ + en.queue@.len())
    }

    /// A hub with no subscriptions and an empty history.
    pub fn new() -> (r: Self)
        ensures
            r.wf(),
            r.history@ == Seq::<ChatEvent>::empty(),
            r.entries@.len() == 0,
    {
        Broadcaster { next_id: 0, entries: Vec::new(), history: Ghost(Seq::empty()) }
    }

    /// How many subscriptions are registered, dropped ones included.
    pub fn subscriber_count(&self) -> (r: usize)
        ensures
            r == self.entries@.len(),
    {
        self.entries.len()
    }

    /// Whether a subscription with this handle is registered.
    pub fn is_registered(&self, id: u64) -> (r: bool)
        ensures
            r == self.has_id(id),
    {
        let mut k: usize = 0;
        while k < self.entries.len()
            invariant
                k <= self.entries@.len(),
                forall|j: int| 0 <= j < k ==> self.entries@[j].id != id,
            decreases self.entries@.len() - k,
        {
            if self.entries[k].id == id {
                return true;
            }
            k += 1;
        }
        false
    }

    /// Registers a new consumer with a delivery buffer bounded by `cap`. The
    /// subscription sees only events published after this call. `None` only
    /// when the handle space is exhausted.
    pub fn subscribe(&mut self, cap: usize) -> (r: Option<u64>)
        requires
            old(self).wf(),
        ensures
            final(self).wf(),
            final(self).history@ == old(self).history@,
            r is None ==> *final(self) == *old(self) && old(self).next_id == u64::MAX,
            r is Some ==> {
                let en = final(self).entries@.last();
                &&& old(self).next_id < u64::MAX
                &&& r == Some(old(self).next_id)
                &&& !old(self).has_id(old(self).next_id)
                &&& final(self).next_id == old(self).next_id + 1
                &&& final(self).entries@.len() == old(self).entries@.len() + 1
                &&& forall|k: int|
                    0 <= k < old(self).entries@.len() ==> final(self).entries@[k] == old(
                        self,
                    ).entries@[k]
                &&& en.id == old(self).next_id
                &&& en.alive
                &&& en.cap == cap
                &&& en.queue@ == Seq::<ChatEvent>::empty()
                &&& en.start@ == old(self).history@.len()
                &&& en.taken@ == 0
            },
    {
        if self.next_id == u64::MAX {
            return None;
        }
        let id = self.next_id;
        self.next_id = id + 1;
        let en = Subscription {
            id,
            alive: true,
            cap,
            queue: Vec::new(),
            start: Ghost(self.history@.len() as int),
            taken: Ghost(0),
        };
        self.entries.push(en);
        proof {
            let m = self.entries@.len() - 1;
            assert(!old(self).has_id(id)) by {
                if old(self).has_id(id) {
                    let w = choose|w: int|
                        0 <= w < old(self).entries@.len() && old(self).entries@[w].id == id;
                    assert(old(self).entry_wf(w));
                }
            }
            assert forall|k: int| 0 <= k < self.entries@.len() implies #[trigger] self.entry_wf(
                k,
            ) by {
                let en2 = self.entries@[k];
                if k < m {
                    assert(old(self).entry_wf(k));
                    assert(en2 == old(self).entries@[k]);
                } else {
                    assert(en2.queue@ =~= self.history@.subrange(
                        en2.start@ + en2.taken@,
                        en2.start@ + en2.taken@ + en2.queue@.len(),
                    ));
                }
            }
            assert forall|k1: int, k2: int|
                0 <= k1 < k2 < self.entries@.len() implies self.entries@[k1].id
                != self.entries@[k2].id by {
                if k2 == m {
                    assert(old(self).entry_wf(k1));
                } else {
                    assert(old(self).entries@[k1].id != old(self).entries@[k2].id);
                }
            }
        }
        Some(id)
    }

    /// Publishes one event: appends a copy to every live subscription's
    /// buffer, dropping any whose buffer is full. Never fails, never blocks
    /// on a subscriber, and what one subscription does never changes what the
    /// others receive.
    pub fn publish(&mut self, e: ChatEvent)
        requires
            old(self).wf(),
        ensures
            final(self).wf(),
            final(self).history@ == old(self).history@.push(e),
            final(self).next_id == old(self).next_id,
            final(self).entries@.len() == old(self).entries@.len(),
            forall|k: int|
                0 <= k < old(self).entries@.len() ==> publish_entry_step(
                    old(self).entries@[k],
                    #[trigger] final(self).entries@[k],
                    e,
                ),
    {
        let ghost h0 = self.history@;
        self.history = Ghost(h0.push(e));
        let n = self.entries.len();
        let mut k: usize = 0;
        while k < n
            invariant
                n == self.entries@.len(),
                n == old(self).entries@.len(),
                k <= n,
                self.next_id == old(self).next_id,
                self.history@ == h0.push(e),
                h0 == old(self).history@,
                old(self).wf(),
                forall|j: int| k <= j < n ==> self.entries@[j] == old(self).entries@[j],
                forall|j: int|
                    0 <= j < k ==> publish_entry_step(
                        old(self).entries@[j],
                        #[trigger] self.entries@[j],
                        e,
                    ),
                forall|j: int| 0 <= j < k ==> #[trigger] self.entry_wf(j),
            decreases n - k,
        {
            let ghost pre = *self;
            let ghost oe = self.entries@[k as int];
            assert(old(self).entry_wf(k as int));
            let room = {
                let en = &self.entries[k];
                en.alive && en.queue.len() < en.cap
            };
            if room {
                let copy = e.clone();
                let en = &mut self.entries[k];
                en.queue.push(copy);
            } else {
                let alive = self.entries[k].alive;
                if alive {
                    let en = &mut self.entries[k];
                    en.alive = false;
                }
            }
            proof {
                assert(forall|j: int|
                    0 <= j < n && j != k ==> self.entries@[j] == pre.entries@[j]);
                assert(publish_entry_step(oe, self.entries@[k as int], e));
                assert(self.entry_wf(k as int)) by {
                    let ne = self.entries@[k as int];
                    let a = ne.start@ + ne.taken@;
                    assert(oe.queue@ == h0.subrange(a, a + oe.queue@.len()));
                    if oe.alive && oe.queue@.len() < oe.cap {
                        assert(a + oe.queue@.len() == h0.len());
                        assert(ne.queue@ =~= self.history@.subrange(a, a + ne.queue@.len()));
                    } else {
                        assert(a + oe.queue@.len() <= h0.len());
                        assert(ne.queue@ =~= self.history@.subrange(a, a + ne.queue@.len()));
                    }
                }
                assert(forall|j: int| 0 <= j < k ==> #[trigger] self.entry_wf(j)) by {
                    assert(forall|j: int|
                        0 <= j < k && pre.entry_wf(j) && self.entries@[j] == pre.entries@[j]
                            && self.history@ == pre.history@ && self.next_id == pre.next_id
                            ==> #[trigger] self.entry_wf(j));
                }
            }
            k += 1;
        }
    }

    /// The registry index of the live entry whose handle is `id`, if any.
    fn find_entry(&self, id: u64) -> (r: Option<usize>)
        requires
            self.wf(),
        ensures
            r is None ==> !self.has_id(id),
            r is Some ==> {
                let k = r->Some_0;
                k < self.entries@.len() && self.entries@[k as int].id == id && self.has_id(id)
                    && self.idx_of(id) == k as int
            },
    {
        let mut k: usize = 0;
        while k < self.entries.len()
            invariant
                self.wf(),
                k <= self.entries@.len(),
                forall|j: int| 0 <= j < k ==> self.entries@[j].id != id,
            decreases self.entries@.len() - k,
        {
            if self.entries[k].id == id {
                proof {
                    let w = self.idx_of(id);
                    assert(0 <= w < self.entries@.len() && self.entries@[w].id == id);
                    if w < k as int {
                        assert(self.entries@[w].id != self.entries@[k as int].id);
                    } else if w > k as int {
                        assert(self.entries@[k as int].id != self.entries@[w].id);
                    }
                }
                return Some(k);
            }
            k += 1;
        }
        None
    }

    /// Hands the subscription's next buffered event to its consumer: `None`
    /// when the handle is unknown or the buffer is empty; otherwise the
    /// oldest buffered event leaves the buffer.
    pub fn recv(&mut self, id: u64) -> (r: Option<ChatEvent>)
        requires
            old(self).wf(),
        ensures
            final(self).wf(),
            final(self).history@ == old(self).history@,
            final(self).next_id == old(self).next_id,
            !old(self).has_id(id) ==> r is None && *final(self) == *old(self),
            old(self).has_id(id) ==> {
                let k = old(self).idx_of(id);
                let oe = old(self).entries@[k];
                &&& oe.queue@.len() == 0 ==> r is None && *final(self) == *old(self)
                &&& oe.queue@.len() > 0 ==> {
                    let ne = final(self).entries@[k];
                    &&& r == Some(oe.queue@.first())
                    &&& final(self).entries@.len() == old(self).entries@.len()
                    &&& forall|j: int|
                        0 <= j < old(self).entries@.len() && j != k ==> final(self).entries@[j]
                            == old(self).entries@[j]
                    &&& ne.id == oe.id
                    &&& ne.alive == oe.alive
                    &&& ne.cap == oe.cap
                    &&& ne.start@ == oe.start@
                    &&& ne.taken@ == oe.taken@ + 1
                    &&& ne.queue@ == oe.queue@.drop_first()
                }
            },
    {
        let k = match self.find_entry(id) {
            None => {
                return None;
            },
            Some(k) => k,
        };
        let ghost pre = *self;
        if self.entries[k].queue.len() == 0 {
            return None;
        }
        let ev;
        {
            let en = &mut self.entries[k];
            ev = en.queue.remove(0);
            en.taken = Ghost(en.taken@ + 1);
        }
        proof {
            let ki = k as int;
            let oe = pre.entries@[ki];
            let ne = self.entries@[ki];
            assert(pre.entry_wf(ki));
            assert(ne.queue@ =~= oe.queue@.drop_first());
            assert forall|j: int| 0 <= j < self.entries@.len() implies #[trigger] self.entry_wf(
                j,
            ) by {
                assert(pre.entry_wf(j));
                if j == ki {
                    assert(ne.queue@ =~= self.history@.subrange(
                        ne.start@ + ne.taken@,
                        ne.start@ + ne.taken@ + ne.queue@.len(),
                    ));
                }
            }
        }
        Some(ev)
    }

    /// Removes the subscription with this handle; nothing happens when the
    /// handle is unknown, so disconnecting twice is harmless.
    pub fn unsubscribe(&mut self, id: u64)
        requires
            old(self).wf(),
        ensures
            final(self).wf(),
            final(self).history@ == old(self).history@,
            final(self).next_id == old(self).next_id,
            !final(self).has_id(id),
            !old(self).has_id(id) ==> *final(self) == *old(self),
            old(self).has_id(id) ==> final(self).entries@ == old(self).entries@.remove(
                old(self).idx_of(id),
            ),
    {
        let k = match self.find_entry(id) {
            None => {
                return ;
            },
            Some(k) => k,
        };
        let ghost pre = *self;
        self.entries.remove(k);
        proof {
            let ki = k as int;
            assert(forall|j: int| 0 <= j < ki ==> self.entries@[j] == pre.entries@[j]);
            assert(forall|j: int|
                ki <= j < self.entries@.len() ==> self.entries@[j] == pre.entries@[j + 1]);
            assert forall|j: int| 0 <= j < self.entries@.len() implies #[trigger] self.entry_wf(
                j,
            ) by {
                if j < ki {
                    assert(pre.entry_wf(j));
                } else {
                    assert(pre.entry_wf(j + 1));
                }
            }
            assert(!self.has_id(id)) by {
                if self.has_id(id) {
                    let w = choose|w: int|
                        0 <= w < self.entries@.len() && self.entries@[w].id == id;
                    if w < ki {
                        assert(pre.entries@[w].id == id && pre.entries@[ki].id == id);
                    } else {
                        assert(pre.entries@[w + 1].id == id && pre.entries@[ki].id == id);
                    }
                }
            }
        }
    }
}

/// Law (fan-out isolation): in a well-formed hub, what the subscription at
/// index `k` has received is exactly what its consumer took out followed by
/// its buffer, it is a gapless run of the history starting where the
/// subscription registered, and for a live subscription it is the whole
/// history published since registration, in publication order. The statement
/// involves no other subscription: what one receives never depends on the
/// others.
pub proof fn lemma_fanout_isolation(h: Broadcaster, k: int)
    requires
        h.wf(),
        0 <= k < h.entries@.len(),
    ensures
        h.received(k) == h.history@.subrange(
            h.entries@[k].start@,
            h.entries@[k].start@ + h.entries@[k].taken@,
        ) + h.entries@[k].queue@,
        h.entries@[k].alive ==> h.received(k) == h.history@.subrange(
            h.entries@[k].start@,
            h.history@.len() as int,
        ),
        h.received(k).len() == h.entries@[k].taken@ + h.entries@[k].queue@.len(),
{
    let en = h.entries@[k];
    assert(h.entry_wf(k));
    assert(h.received(k) =~= h.history@.subrange(en.start@, en.start@ + en.taken@)
        + h.entries@[k].queue@);
    if en.alive {
        assert(h.received(k) =~= h.history@.subrange(en.start@, h.history@.len() as int));
    }
}

} // verus!
