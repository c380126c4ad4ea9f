//! The boundary component: send an outbound message, subscribe to the live
//! stream, and query the durable log — the three operations the pipeline
//! offers over whatever transport carries them.

use vstd::prelude::*;

use crate::dedup;
use crate::dedup::DedupStore;
use crate::event;
use crate::event::ChatEvent;
use crate::hub::Broadcaster;

verus! {

/// An outbound chat message, addressed and typed for the upstream platform's
/// insert call.
pub struct OutboundMessage {
    /// The chat of the currently active broadcast.
    pub live_chat_id: String,
    /// The upstream event type of a plain text message.
    pub kind: String,
    /// The text to send.
    pub text: String,
}

/// The facade over the pipeline's shared state: the persistence gate, the
/// fan-out hub, and the identifier of the active broadcast's chat.
pub struct ServiceFacade {
    /// The durable, deduplicated log.
    pub store: DedupStore,
    /// The fan-out hub.
    pub hub: Broadcaster,
    /// The chat outbound messages are addressed to.
    pub live_chat_id: String,
}

impl ServiceFacade {
    /// Both shared components well formed.
    pub open spec fn wf(self) -> bool {
        self.store.wf() && self.hub.wf()
    }

    /// A facade over an empty log and a hub with no subscribers.
    pub fn new(live_chat_id: String) -> (r: Self)
        ensures
            r.wf(),
            r.store@ == Seq::<ChatEvent>::empty(),
            r.hub.history@ == Seq::<ChatEvent>::empty(),
            r.hub.entries@.len() == 0,
            r.live_chat_id == live_chat_id,
    {
        ServiceFacade { store: DedupStore::new(), hub: Broadcaster::new(), live_chat_id }
    }

    /// Builds the outbound message for a send: a text message addressed to
    /// the currently active broadcast's chat. Submitting it, and surfacing
    /// the platform's verdict, is the transport's business.
    pub fn build_send(&self, text: String) -> (m: OutboundMessage)
        ensures
            m.live_chat_id == self.live_chat_id,
            m.kind@ == event::text_kind(),
            m.text == text,
    {
        let kind: String = "textMessageEvent".to_owned();
        OutboundMessage { live_chat_id: self.live_chat_id.clone(), kind, text }
    }

    /// Registers a new consumer with a delivery buffer bounded by `cap`; it
    /// receives only events published after this call. `None` only when the
    /// handle space is exhausted.
    pub fn subscribe_messages(&mut self, cap: usize) -> (r: Option<u64>)
        requires
            old(self).wf(),
        ensures
            final(self).wf(),
            final(self).store == old(self).store,
            final(self).live_chat_id == old(self).live_chat_id,
            final(self).hub.history@ == old(self).hub.history@,
            r is None ==> *final(self) == *old(self) && old(self).hub.next_id == u64::MAX,
            r matches Some(id) ==> {
                let en = final(self).hub.entries@.last();
                &&& final(self).hub.entries@.len() == old(self).hub.entries@.len() + 1
                &&& forall|k: int|
                    0 <= k < old(self).hub.entries@.len() ==> final(self).hub.entries@[k] == old(
                        self,
                    ).hub.entries@[k]
                &&& final(self).hub.has_id(id)
                &&& !old(self).hub.has_id(id)
                &&& en.id == id
                &&& en.alive
                &&& en.cap == cap
                &&& en.queue@.len() == 0
                &&& en.start@ == old(self).hub.history@.len()
                &&& en.taken@ == 0
            },
    {
        let r = self.hub.subscribe(cap);
        proof {
            if r is Some {
                let m = self.hub.entries@.len() - 1;
                assert(self.hub.entries@[m].id == r->Some_0);
            }
        }
        r
    }

    /// Hands the subscription's next buffered event to its consumer: `None`
    /// when the handle is unknown or nothing is buffered.
    pub fn next_message(&mut self, id: u64) -> (r: Option<ChatEvent>)
        requires
            old(self).wf(),
        ensures
            final(self).wf(),
            final(self).store == old(self).store,
            final(self).live_chat_id == old(self).live_chat_id,
            final(self).hub.history@ == old(self).hub.history@,
            !old(self).hub.has_id(id) ==> r is None && *final(self) == *old(self),
            old(self).hub.has_id(id) ==> {
                let k = old(self).hub.idx_of(id);
                let oe = old(self).hub.entries@[k];
                &&& oe.queue@.len() == 0 ==> r is None && *final(self) == *old(self)
                &&& oe.queue@.len() > 0 ==> {
                    let ne = final(self).hub.entries@[k];
                    &&& r == Some(oe.queue@.first())
                    &&& final(self).hub.entries@.len() == old(self).hub.entries@.len()
                    &&& forall|j: int|
                        0 <= j < old(self).hub.entries@.len() && j != k
                            ==> final(self).hub.entries@[j] == old(self).hub.entries@[j]
                    &&& ne.id == oe.id
                    &&& ne.alive == oe.alive
                    &&& ne.cap == oe.cap
                    &&& ne.start@ == oe.start@
                    &&& ne.queue@ == oe.queue@.drop_first()
                    &&& ne.taken@ == oe.taken@ + 1
                }
            },
    {
        self.hub.recv(id)
    }

    /// Disconnects a consumer: removes its subscription so no dead
    /// registration accumulates; harmless when it is already gone.
    pub fn disconnect(&mut self, id: u64)
        requires
            old(self).wf(),
        ensures
            final(self).wf(),
            final(self).store == old(self).store,
            final(self).live_chat_id == old(self).live_chat_id,
            final(self).hub.history@ == old(self).hub.history@,
            !final(self).hub.has_id(id),
            !old(self).hub.has_id(id) ==> *final(self) == *old(self),
            old(self).hub.has_id(id) ==> final(self).hub.entries@ == old(
                self,
            ).hub.entries@.remove(old(self).hub.idx_of(id)),
    {
        self.hub.unsubscribe(id);
    }

    /// The stored events ordered by upstream timestamp descending, paginated
    /// by `limit` and `offset` as the wire carries them.
    pub fn get_messages(&self, limit: u32, offset: u32) -> (r: Vec<ChatEvent>)
        ensures
            r@ == dedup::page_spec(self.store@, limit as int, offset as int),
    {
        self.store.get_messages(limit as usize, offset as usize)
    }
}

/// The essence of resolving the active broadcast from a listing: the first
/// listed broadcast's chat id, if the listing holds one; an empty listing, or
/// a first broadcast carrying no chat id, resolves to nothing.
pub fn first_live_chat_id(ids: &Vec<Option<String>>) -> (r: Option<String>)
    ensures
        ids@.len() == 0 ==> r is None,
        ids@.len() > 0 ==> r == ids@[0],
{
    if ids.len() == 0 {
        return None;
    }
    match &ids[0] {
        None => None,
        Some(id) => Some(id.clone()),
    }
}

} // verus!
