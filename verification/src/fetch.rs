//! The poll loop's decision core: a state machine over poll outcomes and
//! broadcast-resolution results, and the ingestion of one page of raw items
//! through the persistence gate into the hub.

use vstd::prelude::*;

use crate::dedup;
use crate::dedup::{DedupStore, InsertOutcome};
use crate::event;
use crate::event::{ChatEvent, MappingError, RawItem};
use crate::hub::{publish_entry_step, Broadcaster, Subscription};
use crate::clock;

verus! {

/// How long to wait before retrying broadcast resolution, in milliseconds.
pub const RESOLVE_BACKOFF_MILLIS: u64 = 10_000;

/// The two operating states of the fetch loop; the loop itself runs for the
/// lifetime of the process.
#[derive(Clone, Copy, Debug, PartialEq, Eq, Structural)]
pub enum FetchState {
    /// Issuing paginated chat list requests for the active broadcast.
    Polling,
    /// Re-resolving the identifier of the currently active broadcast.
    Recovering,
}

/// Fetcher-private progress state, carried forward across polls.
pub struct PollCursor {
    /// Opaque pagination cursor from the last successful poll.
    pub continuation_token: Option<String>,
    /// The identifier of the broadcast currently being polled.
    pub active_broadcast_id: String,
    /// The delay the upstream asked for before the next poll, in milliseconds.
    pub poll_interval_millis: u64,
}

/// What one poll of the upstream chat listing came back as.
pub enum PollOutcome {
    /// The request failed outright.
    Failure,
    /// The request succeeded but carried no item list: the broadcast ended.
    MissingItems,
    /// A page of raw items, the next continuation token, and the delay the
    /// upstream asks for before the next poll.
    Page { items: Vec<RawItem>, next_token: Option<String>, poll_interval_millis: u64 },
}

/// The poll loop's state: operating state, cursor, and the local clock value
/// stamped on the most recently ingested events.
pub struct Fetcher {
    /// Operating state.
    pub state: FetchState,
    /// Progress through the upstream listing.
    pub cursor: PollCursor,
    /// Seconds part of the last `received_at` stamp handed out.
    pub last_received_secs: i64,
    /// Nanoseconds part of the last `received_at` stamp handed out.
    pub last_received_nanos: u32,
}

/// Lexicographic order on (seconds, nanoseconds) clock readings.
pub open spec fn time_ge(a: (i64, u32), b: (i64, u32)) -> bool {
    a.0 > b.0 || (a.0 == b.0 && a.1 >= b.1)
}

/// The later of the stamp handed out last and the clock reading: `received_at`
/// stamps never decrease across the lifetime of one fetcher.
pub open spec fn clamp_time(last: (i64, u32), now: (i64, u32)) -> (i64, u32) {
    if time_ge(now, last) {
        now
    } else {
        last
    }
}

/// A failed poll or an items-less page: move to recovery; the cursor is left
/// as it is until resolution succeeds.
pub open spec fn poll_trouble_step(f: Fetcher) -> Fetcher {
    Fetcher { state: FetchState::Recovering, ..f }
}

/// A successful page: adopt the upstream's continuation token and next poll
/// delay, stamp the clock, and keep polling.
pub open spec fn page_cursor_step(
    f: Fetcher,
    next_token: Option<String>,
    interval: u64,
    recv: (i64, u32),
) -> Fetcher {
    Fetcher {
        state: FetchState::Polling,
        cursor: PollCursor {
            continuation_token: next_token,
            active_broadcast_id: f.cursor.active_broadcast_id,
            poll_interval_millis: interval,
        },
        last_received_secs: recv.0,
        last_received_nanos: recv.1,
    }
}

/// A broadcast-resolution result: a resolved id is adopted with the
/// continuation token cleared and polling resumes at once; no result keeps
/// recovering after a fixed backoff. The retry is unbounded by design.
pub open spec fn resolution_step(f: Fetcher, r: Option<String>) -> (Fetcher, u64) {
    match r {
        Some(id) => (
            Fetcher {
                state: FetchState::Polling,
                cursor: PollCursor {
                    continuation_token: None,
                    active_broadcast_id: id,
                    poll_interval_millis: f.cursor.poll_interval_millis,
                },
                last_received_secs: f.last_received_secs,
                last_received_nanos: f.last_received_nanos,
            },
            0,
        ),
        None => (f, RESOLVE_BACKOFF_MILLIS),
    }
}

/// A whole page through mapping, the persistence gate and the hub, left to
/// right: the stored log afterwards, the events published (in page order,
/// exactly the fresh ones), and the mapping faults (in page order).
pub open spec fn ingest_fold(log: Seq<ChatEvent>, items: Seq<RawItem>, rs: i64, rn: u32) -> (
    Seq<ChatEvent>,
    Seq<ChatEvent>,
    Seq<MappingError>,
)
    decreases items.len(),
{
    if items.len() == 0 {
        (log, Seq::<ChatEvent>::empty(), Seq::<MappingError>::empty())
    } else {
        match event::map_item_spec(items.first(), rs, rn) {
            Err(er) => {
                let rest = ingest_fold(log, items.drop_first(), rs, rn);
                (rest.0, rest.1, seq![er] + rest.2)
            },
            Ok(None) => ingest_fold(log, items.drop_first(), rs, rn),
            Ok(Some(e)) => {
                if dedup::contains_id(log, e.external_id@) {
                    ingest_fold(log, items.drop_first(), rs, rn)
                } else {
                    let rest = ingest_fold(
                        dedup::store_insert(log, e),
                        items.drop_first(),
                        rs,
                        rn,
                    );
                    (rest.0, seq![e] + rest.1, rest.2)
                }
            },
        }
    }
}

/// What a whole page may do to one subscription: identity, bound and position
/// in the history stay; a dropped subscription stays dropped with its buffer
/// frozen; one alive at the end was alive throughout.
pub open spec fn page_entry_step(o: Subscription, n: Subscription) -> bool {
    &&& n.id == o.id
    &&& n.cap == o.cap
    &&& n.start@ == o.start@
    &&& n.taken@ == o.taken@
    &&& (!o.alive ==> !n.alive && n.queue@ == o.queue@)
    &&& (n.alive ==> o.alive)
}

/// What one poll turn reports back to the loop's driver.
pub struct PollReport {
    /// How long to sleep before the next request, in milliseconds.
    pub wait_millis: u64,
    /// The items of the page that could not be mapped, one fault each, in
    /// page order; reported rather than silently dropped.
    pub mapping_errors: Vec<MappingError>,
}

impl Fetcher {
    /// A fetcher about to poll the given broadcast from the top.
    pub fn new(broadcast_id: String, poll_interval_millis: u64) -> (r: Self)
        ensures
            r.state == FetchState::Polling,
            r.cursor.continuation_token is None,
            r.cursor.active_broadcast_id == broadcast_id,
            r.cursor.poll_interval_millis == poll_interval_millis,
            r.last_received_secs == 0 && r.last_received_nanos == 0,
    {
        Fetcher {
            state: FetchState::Polling,
            cursor: PollCursor {
                continuation_token: None,
                active_broadcast_id: broadcast_id,
                poll_interval_millis,
            },
            last_received_secs: 0,
            last_received_nanos: 0,
        }
    }

    /// One turn of the poll loop, with the clock reading supplied: a page is
    /// mapped item by item and run through the persistence gate and the hub,
    /// in page order; a failure or an items-less response moves to recovery
    /// and touches nothing else. A mapping fault costs only its own item.
    pub fn handle_poll(
        &mut self,
        outcome: PollOutcome,
        store: &mut DedupStore,
        hub: &mut Broadcaster,
        now_secs: i64,
        now_nanos: u32,
    ) -> (r: PollReport)
        requires
            old(store).wf(),
            old(hub).wf(),
        ensures
            final(store).wf(),
            final(hub).wf(),
            final(hub).next_id == old(hub).next_id,
            final(hub).entries@.len() == old(hub).entries@.len(),
            forall|k: int|
                0 <= k < old(hub).entries@.len() ==> page_entry_step(
                    old(hub).entries@[k],
                    #[trigger] final(hub).entries@[k],
                ),
            (outcome is Failure || outcome is MissingItems) ==> {
                &&& *final(self) == poll_trouble_step(*old(self))
                &&& *final(store) == *old(store)
                &&& *final(hub) == *old(hub)
                &&& r.wait_millis == 0
                &&& r.mapping_errors@ == Seq::<MappingError>::empty()
            },
            (outcome matches PollOutcome::Page { items, next_token, poll_interval_millis } ==> {
                let recv = clamp_time(
                    (old(self).last_received_secs, old(self).last_received_nanos),
                    (now_secs, now_nanos),
                );
                let fold = ingest_fold(old(store)@, items@, recv.0, recv.1);
                &&& *final(self) == page_cursor_step(
                    *old(self),
                    next_token,
                    poll_interval_millis,
                    recv,
                )
                &&& final(store)@ == fold.0
                &&& final(hub).history@ == old(hub).history@ + fold.1
                &&& r.mapping_errors@ == fold.2
                &&& r.wait_millis == poll_interval_millis
            }),
    {
        match outcome {
            PollOutcome::Failure => {
                self.state = FetchState::Recovering;
                PollReport { wait_millis: 0, mapping_errors: Vec::new() }
            },
            PollOutcome::MissingItems => {
                self.state = FetchState::Recovering;
                PollReport { wait_millis: 0, mapping_errors: Vec::new() }
            },
            PollOutcome::Page { items, next_token, poll_interval_millis } => {
                let rs: i64;
                let rn: u32;
                if now_secs > self.last_received_secs || (now_secs == self.last_received_secs
                    && now_nanos >= self.last_received_nanos) {
                    rs = now_secs;
                    rn = now_nanos;
                } else {
                    rs = self.last_received_secs;
                    rn = self.last_received_nanos;
                }
                self.last_received_secs = rs;
                self.last_received_nanos = rn;
                self.state = FetchState::Polling;
                self.cursor.continuation_token = next_token;
                self.cursor.poll_interval_millis = poll_interval_millis;
                let ghost log0 = store@;
                let ghost h0 = hub.history@;
                let ghost entries0 = hub.entries@;
                let ghost total = ingest_fold(log0, items@, rs, rn);
                let mut errs: Vec<MappingError> = Vec::new();
                let mut i: usize = 0;
                proof {
                    assert(items@.skip(0) =~= items@);
                    assert(hub.history@.subrange(0, h0.len() as int) =~= h0);
                    assert(hub.history@.subrange(h0.len() as int, hub.history@.len() as int)
                        =~= Seq::<ChatEvent>::empty());
                    assert(Seq::<ChatEvent>::empty() + total.1 =~= total.1);
                    assert(errs@ + total.2 =~= total.2);
                }
                while i < items.len()
                    invariant
                        i <= items@.len(),
                        store.wf(),
                        hub.wf(),
                        hub.next_id == old(hub).next_id,
                        hub.entries@.len() == entries0.len(),
                        forall|k: int|
                            0 <= k < entries0.len() ==> page_entry_step(
                                entries0[k],
                                #[trigger] hub.entries@[k],
                            ),
                        h0.len() <= hub.history@.len(),
                        hub.history@.subrange(0, h0.len() as int) == h0,
                        total == {
                            let rest = ingest_fold(store@, items@.skip(i as int), rs, rn);
                            (
                                rest.0,
                                hub.history@.subrange(
                                    h0.len() as int,
                                    hub.history@.len() as int,
                                ) + rest.1,
                                errs@ + rest.2,
                            )
                        },
                    decreases items@.len() - i,
                {
                    proof {
                        assert(items@.skip(i as int).first() == items@[i as int]);
                        assert(items@.skip(i as int).drop_first() =~= items@.skip(i as int + 1));
                    }
                    let ghost pre = *hub;
                    match event::map_item(&items[i], rs, rn) {
                        Err(er) => {
                            errs.push(er);
                            proof {
                                let rest = ingest_fold(store@, items@.skip(i as int + 1), rs, rn);
                                assert(total.2 =~= errs@ + rest.2);
                            }
                        },
                        Ok(None) => {},
                        Ok(Some(e)) => {
                            let fresh = store.insert_if_absent(e.clone());
                            if fresh == InsertOutcome::Stored {
                                hub.publish(e);
                                proof {
                                    let pubd = hub.history@.subrange(
                                        h0.len() as int,
                                        hub.history@.len() as int,
                                    );
                                    let pubd0 = pre.history@.subrange(
                                        h0.len() as int,
                                        pre.history@.len() as int,
                                    );
                                    let rest = ingest_fold(
                                        store@,
                                        items@.skip(i as int + 1),
                                        rs,
                                        rn,
                                    );
                                    assert(hub.history@.subrange(0, h0.len() as int) =~= h0);
                                    assert(pubd =~= pubd0.push(e));
                                    assert(total.1 =~= pubd + rest.1);
                                    assert forall|k: int|
                                        0 <= k < entries0.len() implies page_entry_step(
                                        entries0[k],
                                        #[trigger] hub.entries@[k],
                                    ) by {
                                        assert(page_entry_step(entries0[k], pre.entries@[k]));
                                        assert(publish_entry_step(
                                            pre.entries@[k],
                                            hub.entries@[k],
                                            e,
                                        ));
                                    }
                                }
                            }
                        },
                    }
                    i += 1;
                }
                proof {
                    assert(items@.skip(items@.len() as int) =~= Seq::<RawItem>::empty());
                    assert(hub.history@ =~= h0 + hub.history@.subrange(
                        h0.len() as int,
                        hub.history@.len() as int,
                    ));
                    assert(errs@ =~= errs@ + Seq::<MappingError>::empty());
                }
                PollReport { wait_millis: poll_interval_millis, mapping_errors: errs }
            },
        }
    }

    /// One turn of the poll loop against the local clock: reads the wall
    /// clock, clamps it so `received_at` stamps never decrease, and runs
    /// `handle_poll` with the result. Whatever instant the clock returned,
    /// the page is ingested exactly as `ingest_fold` states for the stamp
    /// recorded in the fetcher afterwards.
    pub fn poll_tick(
        &mut self,
        outcome: PollOutcome,
        store: &mut DedupStore,
        hub: &mut Broadcaster,
    ) -> (r: PollReport)
        requires
            old(store).wf(),
            old(hub).wf(),
        ensures
            final(store).wf(),
            final(hub).wf(),
            final(hub).next_id == old(hub).next_id,
            final(hub).entries@.len() == old(hub).entries@.len(),
            forall|k: int|
                0 <= k < old(hub).entries@.len() ==> page_entry_step(
                    old(hub).entries@[k],
                    #[trigger] final(hub).entries@[k],
                ),
            time_ge(
                (final(self).last_received_secs, final(self).last_received_nanos),
                (old(self).last_received_secs, old(self).last_received_nanos),
            ),
            (outcome is Failure || outcome is MissingItems) ==> {
                &&& *final(self) == poll_trouble_step(*old(self))
                &&& *final(store) == *old(store)
                &&& *final(hub) == *old(hub)
                &&& r.wait_millis == 0
                &&& r.mapping_errors@ == Seq::<MappingError>::empty()
            },
            (outcome matches PollOutcome::Page { items, next_token, poll_interval_millis } ==> {
                let rs = final(self).last_received_secs;
                let rn = final(self).last_received_nanos;
                let fold = ingest_fold(old(store)@, items@, rs, rn);
                &&& final(self).state == FetchState::Polling
                &&& final(self).cursor.continuation_token == next_token
                &&& final(self).cursor.active_broadcast_id == old(
                    self,
                ).cursor.active_broadcast_id
                &&& final(self).cursor.poll_interval_millis == poll_interval_millis
                &&& final(store)@ == fold.0
                &&& final(hub).history@ == old(hub).history@ + fold.1
                &&& r.mapping_errors@ == fold.2
                &&& r.wait_millis == poll_interval_millis
            }),
    {
        let now = clock::now_utc();
        self.handle_poll(outcome, store, hub, now.0, now.1)
    }

    /// The outcome of one broadcast-resolution attempt while recovering:
    /// adopts a resolved id at once, or asks the driver to back off and retry.
    pub fn on_resolution(&mut self, r: Option<String>) -> (wait_millis: u64)
        ensures
            ({
                let step = resolution_step(*old(self), r);
                *final(self) == step.0 && wait_millis == step.1
            }),
    {
        match r {
            Some(id) => {
                self.state = FetchState::Polling;
                self.cursor.continuation_token = None;
                self.cursor.active_broadcast_id = id;
                0
            },
            None => RESOLVE_BACKOFF_MILLIS,
        }
    }
}

/// Law (at most one publication per ingestion): when the log's external ids
/// are unique, a page publishes only events whose ids were absent from the
/// log, no two published events share an id, and the log afterwards still has
/// unique ids — so nothing is ever re-published, within a page or on a
/// retry-after-failure (failures touch no items at all).
pub proof fn lemma_publish_at_most_once(
    log: Seq<ChatEvent>,
    items: Seq<RawItem>,
    rs: i64,
    rn: u32,
)
    requires
        dedup::unique_ids(log),
    ensures
        ({
            let fold = ingest_fold(log, items, rs, rn);
            &&& dedup::unique_ids(fold.0)
            &&& forall|x: int|
                0 <= x < fold.1.len() ==> !dedup::contains_id(
                    log,
                    #[trigger] fold.1[x].external_id@,
                )
            &&& forall|x: int, y: int|
                0 <= x < y < fold.1.len() ==> fold.1[x].external_id@ != fold.1[y].external_id@
        }),
    decreases items.len(),
{
    if items.len() == 0 {
    } else {
        let fold = ingest_fold(log, items, rs, rn);
        match event::map_item_spec(items.first(), rs, rn) {
            Err(er) => {
                lemma_publish_at_most_once(log, items.drop_first(), rs, rn);
            },
            Ok(None) => {
                lemma_publish_at_most_once(log, items.drop_first(), rs, rn);
            },
            Ok(Some(e)) => {
                if dedup::contains_id(log, e.external_id@) {
                    lemma_publish_at_most_once(log, items.drop_first(), rs, rn);
                } else {
                    let log1 = dedup::store_insert(log, e);
                    dedup::lemma_dedup_exactly_once(log, e);
                    lemma_publish_at_most_once(log1, items.drop_first(), rs, rn);
                    let rest = ingest_fold(log1, items.drop_first(), rs, rn);
                    assert(fold.1 == seq![e] + rest.1);
                    assert forall|x: int| 0 <= x < fold.1.len() implies !dedup::contains_id(
                        log,
                        #[trigger] fold.1[x].external_id@,
                    ) by {
                        if x == 0 {
                            assert(fold.1[0] == e);
                        } else {
                            assert(fold.1[x] == rest.1[x - 1]);
                            assert(!dedup::contains_id(log1, rest.1[x - 1].external_id@));
                            dedup::lemma_contains_after_insert(
                                log,
                                e,
                                rest.1[x - 1].external_id@,
                            );
                        }
                    }
                    assert forall|x: int, y: int| 0 <= x < y < fold.1.len() implies fold.1[x].external_id@
                        != fold.1[y].external_id@ by {
                        if x == 0 {
                            assert(fold.1[0] == e);
                            assert(fold.1[y] == rest.1[y - 1]);
                            assert(!dedup::contains_id(log1, rest.1[y - 1].external_id@));
                            dedup::lemma_contains_after_insert(
                                log,
                                e,
                                rest.1[y - 1].external_id@,
                            );
                        } else {
                            assert(fold.1[x] == rest.1[x - 1]);
                            assert(fold.1[y] == rest.1[y - 1]);
                        }
                    }
                }
            },
        }
    }
}

/// Law (fan-out over a page): when a page extends the hub's history by the
/// published events `evs` and a subscription comes through it per
/// `page_entry_step` still alive, that subscription has received exactly what
/// it had received before followed by all of `evs`, in order. One that was
/// already dropped received nothing more. Either way the statement involves
/// no other subscription.
pub proof fn lemma_page_fanout(h0: Broadcaster, h1: Broadcaster, evs: Seq<ChatEvent>, k: int)
    requires
        h0.wf(),
        h1.wf(),
        0 <= k < h0.entries@.len(),
        h1.entries@.len() == h0.entries@.len(),
        h1.history@ == h0.history@ + evs,
        page_entry_step(h0.entries@[k], h1.entries@[k]),
    ensures
        h1.entries@[k].alive ==> h1.received(k) == h0.received(k) + evs,
        !h0.entries@[k].alive ==> h1.received(k) == h0.received(k),
{
    let o = h0.entries@[k];
    let n = h1.entries@[k];
    assert(h0.entry_wf(k));
    assert(h1.entry_wf(k));
    if n.alive {
        assert(o.alive);
        assert(o.start@ + o.taken@ + o.queue@.len() == h0.history@.len());
        assert(n.start@ + n.taken@ + n.queue@.len() == h1.history@.len());
        assert(h1.received(k) =~= h0.received(k) + evs);
    }
    if !o.alive {
        assert(n.queue@ == o.queue@);
        assert(h1.received(k) =~= h0.received(k));
    }
}

/// Law (recovery): after a poll that fails or comes back without items the
/// fetcher recovers; a resolution that yields an id restores polling at once
/// with the id adopted and the continuation token cleared, while a resolution
/// without a result keeps recovering and backs off for the fixed interval.
pub proof fn lemma_recovery(f: Fetcher, id: String)
    ensures
        poll_trouble_step(f).state == FetchState::Recovering,
        poll_trouble_step(f).cursor == f.cursor,
        resolution_step(poll_trouble_step(f), Some(id)).0.state == FetchState::Polling,
        resolution_step(poll_trouble_step(f), Some(id)).0.cursor.continuation_token is None,
        resolution_step(poll_trouble_step(f), Some(id)).0.cursor.active_broadcast_id == id,
        resolution_step(poll_trouble_step(f), Some(id)).1 == 0,
        resolution_step(poll_trouble_step(f), None).0 == poll_trouble_step(f),
        resolution_step(poll_trouble_step(f), None).1 == RESOLVE_BACKOFF_MILLIS,
{
}

} // verus!
