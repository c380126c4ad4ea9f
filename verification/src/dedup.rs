//! The at-most-once persistence gate: a durable log of chat events, keyed on
//! the upstream message id, kept newest first.

use vstd::prelude::*;

use crate::event::{sent_no_earlier, ChatEvent};

verus! {

/// Outcome of the persistence gate.
#[derive(Clone, Copy, Debug, PartialEq, Eq, Structural)]
pub enum InsertOutcome {
    /// The event was new and is now stored.
    Stored,
    /// An event with the same external id was already stored; nothing changed.
    AlreadyPresent,
}

/// How the storage layer can fail an insert.
#[derive(Clone, Copy, Debug, PartialEq, Eq, Structural)]
pub enum StorageError {
    /// A concurrent insert already created the row behind the uniqueness
    /// constraint on the external id; the row the caller wanted exists.
    Conflict,
    /// The storage layer cannot be reached.
    Unavailable,
}

/// Some stored event carries this external id.
pub open spec fn contains_id(s: Seq<ChatEvent>, id: Seq<char>) -> bool {
    exists|i: int| 0 <= i < s.len() && s[i].external_id@ == id
}

/// No two stored events share an external id.
pub open spec fn unique_ids(s: Seq<ChatEvent>) -> bool {
    forall|i: int, j: int| 0 <= i < j < s.len() ==> s[i].external_id@ != s[j].external_id@
}

/// Ordered by upstream timestamp, newest first.
pub open spec fn sorted_newest_first(s: Seq<ChatEvent>) -> bool {
    forall|i: int, j: int| 0 <= i <= j < s.len() ==> sent_no_earlier(s[i], s[j])
}

/// How many stored events carry this external id.
pub open spec fn count_with_id(s: Seq<ChatEvent>, id: Seq<char>) -> nat
    decreases s.len(),
{
    if s.len() == 0 {
        0
    } else {
        (if s.first().external_id@ == id {
            1nat
        } else {
            0nat
        }) + count_with_id(s.drop_first(), id)
    }
}

/// Where an event enters to keep the newest-first order: after every stored
/// event that is no earlier than it.
pub open spec fn insert_pos(s: Seq<ChatEvent>, e: ChatEvent) -> int
    decreases s.len(),
{
    if s.len() == 0 {
        0
    } else if sent_no_earlier(s.first(), e) {
        1 + insert_pos(s.drop_first(), e)
    } else {
        0
    }
}

/// The effect of the persistence gate on the stored sequence: nothing when the
/// external id is already present, otherwise an ordered insertion.
pub open spec fn store_insert(s: Seq<ChatEvent>, e: ChatEvent) -> Seq<ChatEvent> {
    if contains_id(s, e.external_id@) {
        s
    } else {
        s.insert(insert_pos(s, e), e)
    }
}

/// The page of a stored sequence selected by `limit` and `offset`.
pub open spec fn page_spec(s: Seq<ChatEvent>, limit: int, offset: int) -> Seq<ChatEvent> {
    if offset >= s.len() {
        Seq::empty()
    } else if offset + limit >= s.len() {
        s.subrange(offset, s.len() as int)
    } else {
        s.subrange(offset, offset + limit)
    }
}

pub proof fn lemma_insert_pos_bounds(s: Seq<ChatEvent>, e: ChatEvent)
    ensures
        0 <= insert_pos(s, e) <= s.len(),
    decreases s.len(),
{
    if s.len() > 0 && sent_no_earlier(s.first(), e) {
        lemma_insert_pos_bounds(s.drop_first(), e);
    }
}

/// A left-to-right scan that stops at the first stored event earlier than `e`
/// stops exactly at `insert_pos`.
pub proof fn lemma_insert_pos_of_scan(s: Seq<ChatEvent>, e: ChatEvent, i: int)
    requires
        0 <= i <= s.len(),
        forall|j: int| 0 <= j < i ==> sent_no_earlier(#[trigger] s[j], e),
        i < s.len() ==> !sent_no_earlier(s[i], e),
    ensures
        insert_pos(s, e) == i,
    decreases i,
{
    if i == 0 {
    } else {
        assert(sent_no_earlier(s[0], e));
        assert(forall|j: int|
            0 <= j < i - 1 ==> sent_no_earlier(#[trigger] s.drop_first()[j], e)) by {
            assert(forall|j: int| 0 <= j < i - 1 ==> s.drop_first()[j] == s[j + 1]);
        }
        assert(i - 1 < s.drop_first().len() ==> !sent_no_earlier(s.drop_first()[i - 1], e));
        lemma_insert_pos_of_scan(s.drop_first(), e, i - 1);
    }
}

pub proof fn lemma_count_insert(s: Seq<ChatEvent>, e: ChatEvent, i: int, id: Seq<char>)
    requires
        0 <= i <= s.len(),
    ensures
        count_with_id(s.insert(i, e), id) == count_with_id(s, id) + (if e.external_id@ == id {
            1nat
        } else {
            0nat
        }),
    decreases s.len(),
{
    let t = s.insert(i, e);
    if i == 0 {
        assert(t.first() == e);
        assert(t.drop_first() =~= s);
    } else {
        assert(t.first() == s.first());
        assert(t.drop_first() =~= s.drop_first().insert(i - 1, e));
        lemma_count_insert(s.drop_first(), e, i - 1, id);
    }
}

pub proof fn lemma_count_zero(s: Seq<ChatEvent>, id: Seq<char>)
    ensures
        (count_with_id(s, id) == 0) <==> !contains_id(s, id),
    decreases s.len(),
{
    if s.len() == 0 {
    } else {
        lemma_count_zero(s.drop_first(), id);
        assert(forall|j: int| 0 <= j < s.len() - 1 ==> #[trigger] s.drop_first()[j] == s[j + 1]);
        if contains_id(s, id) {
            let w = choose|w: int| 0 <= w < s.len() && s[w].external_id@ == id;
            if w > 0 {
                assert(s.drop_first()[w - 1].external_id@ == id);
                assert(contains_id(s.drop_first(), id));
            }
        }
        if contains_id(s.drop_first(), id) {
            let w = choose|w: int| 0 <= w < s.drop_first().len()
                && s.drop_first()[w].external_id@ == id;
            assert(s[w + 1].external_id@ == id);
            assert(contains_id(s, id));
        }
    }
}

/// Law (at most once): in a store whose external ids are unique — which every
/// well-formed store is — any external id is carried by at most one stored
/// event.
pub proof fn lemma_unique_count(s: Seq<ChatEvent>, id: Seq<char>)
    requires
        unique_ids(s),
    ensures
        count_with_id(s, id) <= 1,
    decreases s.len(),
{
    if s.len() > 0 {
        let rest = s.drop_first();
        assert(forall|j: int| 0 <= j < rest.len() ==> #[trigger] rest[j] == s[j + 1]);
        assert(unique_ids(rest));
        lemma_unique_count(rest, id);
        if s.first().external_id@ == id {
            assert(!contains_id(rest, id)) by {
                if contains_id(rest, id) {
                    let w = choose|w: int| 0 <= w < rest.len() && rest[w].external_id@ == id;
                    assert(s[0].external_id@ == s[w + 1].external_id@);
                }
            }
            lemma_count_zero(rest, id);
        }
    }
}

/// Membership after an insert: an id is present in the result exactly when it
/// was already present or belongs to the inserted event.
pub proof fn lemma_contains_after_insert(s: Seq<ChatEvent>, e: ChatEvent, id: Seq<char>)
    ensures
        contains_id(store_insert(s, e), id) <==> (contains_id(s, id) || id == e.external_id@),
{
    if contains_id(s, e.external_id@) {
    } else {
        let pos = insert_pos(s, e);
        lemma_insert_pos_bounds(s, e);
        let t = s.insert(pos, e);
        s.insert_ensures(pos, e);
        if contains_id(s, id) {
            let w = choose|w: int| 0 <= w < s.len() && s[w].external_id@ == id;
            if w < pos {
                assert(t[w].external_id@ == id);
            } else {
                assert(t[w + 1].external_id@ == id);
            }
        }
        if id == e.external_id@ {
            assert(t[pos].external_id@ == id);
        }
        if contains_id(t, id) {
            let w = choose|w: int| 0 <= w < t.len() && t[w].external_id@ == id;
            if w < pos {
                assert(s[w].external_id@ == id);
            } else if w > pos {
                assert(s[w - 1].external_id@ == id);
            }
        }
    }
}

/// Law (dedup): inserting a fresh event keeps external ids unique, and the
/// store then holds exactly one event under that id. A duplicate insert
/// changes nothing, in the same poll or any later one.
pub proof fn lemma_dedup_exactly_once(s: Seq<ChatEvent>, e: ChatEvent)
    requires
        unique_ids(s),
        !contains_id(s, e.external_id@),
    ensures
        unique_ids(store_insert(s, e)),
        contains_id(store_insert(s, e), e.external_id@),
        count_with_id(store_insert(s, e), e.external_id@) == 1,
    decreases s.len(),
{
    let pos = insert_pos(s, e);
    lemma_insert_pos_bounds(s, e);
    let t = s.insert(pos, e);
    s.insert_ensures(pos, e);
    assert(t[pos] == e);
    assert(contains_id(t, e.external_id@));
    lemma_count_insert(s, e, pos, e.external_id@);
    lemma_count_zero(s, e.external_id@);
    assert(unique_ids(t)) by {
        assert forall|a: int, b: int| 0 <= a < b < t.len() implies t[a].external_id@
            != t[b].external_id@ by {
            if a < pos && b < pos {
                assert(t[a] == s[a] && t[b] == s[b]);
            } else if a < pos && b == pos {
                assert(t[a] == s[a] && t[b] == e);
            } else if a < pos && b > pos {
                assert(t[a] == s[a] && t[b] == s[b - 1]);
            } else if a == pos {
                assert(t[a] == e && t[b] == s[b - 1]);
            } else {
                assert(t[a] == s[a - 1] && t[b] == s[b - 1]);
            }
        }
    }
}

/// Law (idempotent insert under race): after a fresh event is stored, a second
/// insert of any event with the same external id — from the same poll, a later
/// poll, or a racing caller — changes nothing, and exactly one stored event
/// carries that id.
pub proof fn lemma_insert_race(s: Seq<ChatEvent>, e1: ChatEvent, e2: ChatEvent)
    requires
        unique_ids(s),
        !contains_id(s, e1.external_id@),
        e2.external_id@ == e1.external_id@,
    ensures
        store_insert(store_insert(s, e1), e2) == store_insert(s, e1),
        count_with_id(store_insert(s, e1), e1.external_id@) == 1,
{
    lemma_dedup_exactly_once(s, e1);
}

/// The gatekeeper over the durable log of chat events.
pub struct DedupStore {
    events: Vec<ChatEvent>,
}

impl View for DedupStore {
    type V = Seq<ChatEvent>;

    closed spec fn view(&self) -> Seq<ChatEvent> {
        self.events@
    }
}

impl DedupStore {
    /// The store's invariant: external ids unique, order newest first.
    pub open spec fn wf(self) -> bool {
        unique_ids(self@) && sorted_newest_first(self@)
    }

    /// An empty store.
    pub fn new() -> (r: Self)
        ensures
            r@ == Seq::<ChatEvent>::empty(),
            r.wf(),
    {
        DedupStore { events: Vec::new() }
    }

    /// How many events are stored.
    pub fn len(&self) -> (r: usize)
        ensures
            r == self@.len(),
    {
        self.events.len()
    }

    /// Have I seen this external message id?
    pub fn contains(&self, id: &String) -> (r: bool)
        ensures
            r == contains_id(self@, id@),
    {
        let mut j: usize = 0;
        while j < self.events.len()
            invariant
                j <= self@.len(),
                forall|k: int| 0 <= k < j ==> self@[k].external_id@ != id@,
            decreases self@.len() - j,
        {
            if self.events[j].external_id == *id {
                return true;
            }
            j += 1;
        }
        false
    }

    /// The first index whose stored event is earlier than `e`, or the length
    /// when no stored event is.
    fn find_pos(&self, e: &ChatEvent) -> (i: usize)
        ensures
            i <= self@.len(),
            forall|j: int| 0 <= j < i ==> sent_no_earlier(#[trigger] self@[j], *e),
            i < self@.len() ==> !sent_no_earlier(self@[i as int], *e),
    {
        let mut i: usize = 0;
        while i < self.events.len()
            invariant
                i <= self@.len(),
                forall|j: int| 0 <= j < i ==> sent_no_earlier(#[trigger] self@[j], *e),
            decreases self@.len() - i,
        {
            let cur = &self.events[i];
            let later = cur.sent_at_secs > e.sent_at_secs || (cur.sent_at_secs == e.sent_at_secs
                && cur.sent_at_nanos >= e.sent_at_nanos);
            if !later {
                return i;
            }
            i += 1;
        }
        i
    }

    /// The persistence gate: stores the event unless its external id is
    /// already present, keeping the log ordered newest first. Detection is
    /// keyed on the external id alone, never on content.
    pub fn insert_if_absent(&mut self, e: ChatEvent) -> (r: InsertOutcome)
        requires
            old(self).wf(),
        ensures
            final(self).wf(),
            final(self)@ == store_insert(old(self)@, e),
            r == InsertOutcome::AlreadyPresent <==> contains_id(old(self)@, e.external_id@),
            r == InsertOutcome::Stored <==> !contains_id(old(self)@, e.external_id@),
    {
        if self.contains(&e.external_id) {
            return InsertOutcome::AlreadyPresent;
        }
        let ghost s = self@;
        let i = self.find_pos(&e);
        proof {
            lemma_insert_pos_of_scan(s, e, i as int);
        }
        self.events.insert(i, e);
        proof {
            s.insert_ensures(i as int, e);
            let t = self@;
            assert(sorted_newest_first(t)) by {
                assert forall|a: int, b: int| 0 <= a <= b < t.len() implies sent_no_earlier(
                    t[a],
                    t[b],
                ) by {
                    let pos = i as int;
                    if a < pos && b < pos {
                        assert(t[a] == s[a] && t[b] == s[b]);
                    } else if a < pos && b == pos {
                        assert(t[a] == s[a] && t[b] == e);
                    } else if a < pos && b > pos {
                        assert(t[a] == s[a] && t[b] == s[b - 1]);
                    } else if a == pos && b == pos {
                        assert(t[a] == e && t[b] == e);
                    } else if a == pos && b > pos {
                        assert(t[a] == e && t[b] == s[b - 1]);
                        assert(pos < s.len() && !sent_no_earlier(s[pos], e));
                        assert(sent_no_earlier(s[pos], s[b - 1]));
                    } else {
                        assert(t[a] == s[a - 1] && t[b] == s[b - 1]);
                    }
                }
            }
            lemma_dedup_exactly_once(s, e);
        }
        InsertOutcome::Stored
    }

    /// The stored events ordered by upstream timestamp descending, paginated
    /// by `limit` and `offset`.
    pub fn get_messages(&self, limit: usize, offset: usize) -> (r: Vec<ChatEvent>)
        ensures
            r@ == page_spec(self@, limit as int, offset as int),
    {
        let mut r: Vec<ChatEvent> = Vec::new();
        if offset >= self.events.len() {
            assert(r@ =~= page_spec(self@, limit as int, offset as int));
            return r;
        }
        let end: usize = if limit >= self.events.len() - offset {
            self.events.len()
        } else {
            offset + limit
        };
        let mut i: usize = offset;
        while i < end
            invariant
                offset <= i <= end <= self@.len(),
                r@ =~= self@.subrange(offset as int, i as int),
            decreases end - i,
        {
            r.push(self.events[i].clone());
            proof {
                assert(r@ =~= self@.subrange(offset as int, i + 1 as int));
            }
            i += 1;
        }
        assert(r@ =~= page_spec(self@, limit as int, offset as int));
        r
    }
}

/// The rule for an insert raced at the storage layer: a conflict on the
/// uniqueness constraint means the row exists, which is what the caller
/// wanted, so both racing callers observe success; only an unreachable
/// storage layer is an error.
pub open spec fn reconcile_spec(r: Result<(), StorageError>) -> Result<
    InsertOutcome,
    StorageError,
> {
    match r {
        Ok(u) => Ok(InsertOutcome::Stored),
        Err(StorageError::Conflict) => Ok(InsertOutcome::AlreadyPresent),
        Err(StorageError::Unavailable) => Err(StorageError::Unavailable),
    }
}

/// Applies `reconcile_spec` to what the storage layer returned.
pub fn reconcile_insert(r: Result<(), StorageError>) -> (out: Result<InsertOutcome, StorageError>)
    ensures
        out == reconcile_spec(r),
{
    match r {
        Ok(_) => Ok(InsertOutcome::Stored),
        Err(StorageError::Conflict) => Ok(InsertOutcome::AlreadyPresent),
        Err(StorageError::Unavailable) => Err(StorageError::Unavailable),
    }
}

} // verus!
