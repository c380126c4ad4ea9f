use chat_relay::dedup::{reconcile_insert, DedupStore, InsertOutcome, StorageError};
use chat_relay::event::{ChatEvent, RawItem};
use chat_relay::fetch::{FetchState, Fetcher, PollOutcome};
use chat_relay::hub::Broadcaster;
use chat_relay::service::ServiceFacade;

fn raw_text(id: &str, published_at: &str, body: &str) -> RawItem {
    RawItem {
        id: Some(id.to_string()),
        kind: Some("textMessageEvent".to_string()),
        author_channel_id: Some("chan".to_string()),
        author_display_name: Some("name".to_string()),
        published_at: Some(published_at.to_string()),
        body: Some(body.to_string()),
    }
}

fn event(id: &str, sent_at_secs: i64) -> ChatEvent {
    ChatEvent {
        external_id: id.to_string(),
        channel_id: "chan".to_string(),
        display_name: "name".to_string(),
        body: "hello".to_string(),
        sent_at_secs,
        sent_at_nanos: 0,
        received_at_secs: 50,
        received_at_nanos: 0,
    }
}

#[test]
fn poll_page_persists_and_publishes_two_items() {
    // Two text items on one page: both persisted, both published, and the
    // query returns them ordered by sent_at descending.
    let mut fetcher = Fetcher::new("chat-1".to_string(), 1000);
    let mut store = DedupStore::new();
    let mut hub = Broadcaster::new();
    let sub1 = hub.subscribe(8).unwrap();
    let sub2 = hub.subscribe(8).unwrap();

    let items = vec![
        raw_text("a", "2021-01-01T00:00:01Z", "first"),
        raw_text("b", "2021-01-01T00:00:02Z", "second"),
    ];
    let outcome = PollOutcome::Page {
        items,
        next_token: Some("tok-2".to_string()),
        poll_interval_millis: 5000,
    };
    let report = fetcher.handle_poll(outcome, &mut store, &mut hub, 100, 0);

    assert_eq!(report.wait_millis, 5000);
    assert!(report.mapping_errors.is_empty());
    assert_eq!(fetcher.state, FetchState::Polling);
    assert_eq!(fetcher.cursor.continuation_token, Some("tok-2".to_string()));
    assert_eq!(store.len(), 2);

    let page = store.get_messages(10, 0);
    assert_eq!(page.len(), 2);
    assert_eq!(page[0].external_id, "b");
    assert_eq!(page[1].external_id, "a");
    assert_eq!(page[0].sent_at_secs, 1609459202);
    assert_eq!(page[1].sent_at_secs, 1609459201);
    assert_eq!(page[0].received_at_secs, 100);

    for sub in [sub1, sub2] {
        let first = hub.recv(sub).unwrap();
        assert_eq!(first.external_id, "a");
        assert_eq!(first.body, "first");
        let second = hub.recv(sub).unwrap();
        assert_eq!(second.external_id, "b");
        assert!(hub.recv(sub).is_none());
    }
}

#[test]
fn resent_item_is_stored_and_published_once() {
    // The same id on two consecutive polls: one stored row, one publish.
    let mut fetcher = Fetcher::new("chat-1".to_string(), 1000);
    let mut store = DedupStore::new();
    let mut hub = Broadcaster::new();
    let sub = hub.subscribe(8).unwrap();

    let first = PollOutcome::Page {
        items: vec![raw_text("a", "2021-01-01T00:00:01Z", "hi")],
        next_token: None,
        poll_interval_millis: 1000,
    };
    fetcher.handle_poll(first, &mut store, &mut hub, 100, 0);

    let second = PollOutcome::Page {
        items: vec![raw_text("a", "2021-01-01T00:00:01Z", "hi")],
        next_token: None,
        poll_interval_millis: 1000,
    };
    fetcher.handle_poll(second, &mut store, &mut hub, 101, 0);

    assert_eq!(store.len(), 1);
    assert!(hub.recv(sub).is_some());
    assert!(hub.recv(sub).is_none());
}

#[test]
fn failed_poll_recovers_on_first_resolution() {
    // A failed poll moves to recovery; one successful resolution resumes
    // polling with the continuation token cleared and the new id adopted.
    let mut fetcher = Fetcher::new("chat-1".to_string(), 1000);
    let mut store = DedupStore::new();
    let mut hub = Broadcaster::new();

    let ok_page = PollOutcome::Page {
        items: vec![],
        next_token: Some("tok-1".to_string()),
        poll_interval_millis: 1000,
    };
    fetcher.handle_poll(ok_page, &mut store, &mut hub, 100, 0);
    assert_eq!(fetcher.cursor.continuation_token, Some("tok-1".to_string()));

    let report = fetcher.handle_poll(PollOutcome::Failure, &mut store, &mut hub, 101, 0);
    assert_eq!(report.wait_millis, 0);
    assert_eq!(fetcher.state, FetchState::Recovering);

    let wait = fetcher.on_resolution(Some("chat-2".to_string()));
    assert_eq!(wait, 0);
    assert_eq!(fetcher.state, FetchState::Polling);
    assert_eq!(fetcher.cursor.continuation_token, None);
    assert_eq!(fetcher.cursor.active_broadcast_id, "chat-2");
}

#[test]
fn missing_items_recovers_and_resolution_backs_off() {
    // An items-less response also recovers; a resolution without a result
    // keeps recovering and asks for the fixed ten-second backoff.
    let mut fetcher = Fetcher::new("chat-1".to_string(), 1000);
    let mut store = DedupStore::new();
    let mut hub = Broadcaster::new();

    fetcher.handle_poll(PollOutcome::MissingItems, &mut store, &mut hub, 100, 0);
    assert_eq!(fetcher.state, FetchState::Recovering);

    let wait = fetcher.on_resolution(None);
    assert_eq!(wait, 10_000);
    assert_eq!(fetcher.state, FetchState::Recovering);
}

#[test]
fn insert_if_absent_stores_exactly_once() {
    let mut store = DedupStore::new();
    let first = store.insert_if_absent(event("a", 10));
    let second = store.insert_if_absent(event("a", 99));
    assert_eq!(first, InsertOutcome::Stored);
    assert_eq!(second, InsertOutcome::AlreadyPresent);
    assert_eq!(store.len(), 1);
    assert!(store.contains(&"a".to_string()));
    assert!(!store.contains(&"b".to_string()));
    // Detection is keyed on the external id alone: the second event's content
    // differed and still did not enter.
    let page = store.get_messages(10, 0);
    assert_eq!(page[0].sent_at_secs, 10);
}

#[test]
fn racing_inserts_both_observe_success() {
    // The storage-layer backstop: the loser of the race gets a conflict,
    // which counts as success; only unreachable storage is an error.
    assert_eq!(reconcile_insert(Ok(())), Ok(InsertOutcome::Stored));
    assert_eq!(
        reconcile_insert(Err(StorageError::Conflict)),
        Ok(InsertOutcome::AlreadyPresent)
    );
    assert_eq!(
        reconcile_insert(Err(StorageError::Unavailable)),
        Err(StorageError::Unavailable)
    );
}

#[test]
fn get_messages_orders_and_paginates() {
    let mut store = DedupStore::new();
    store.insert_if_absent(event("a", 30));
    store.insert_if_absent(event("b", 10));
    store.insert_if_absent(event("c", 20));

    let all = store.get_messages(10, 0);
    let ids: Vec<&str> = all.iter().map(|e| e.external_id.as_str()).collect();
    assert_eq!(ids, ["a", "c", "b"]);

    let middle = store.get_messages(1, 1);
    assert_eq!(middle.len(), 1);
    assert_eq!(middle[0].external_id, "c");

    let tail = store.get_messages(5, 2);
    assert_eq!(tail.len(), 1);
    assert_eq!(tail[0].external_id, "b");

    assert!(store.get_messages(10, 3).is_empty());
    assert!(store.get_messages(0, 0).is_empty());
}

#[test]
fn fanout_delivers_everything_in_order_to_live_subscribers() {
    let mut hub = Broadcaster::new();
    let s1 = hub.subscribe(8).unwrap();
    let s2 = hub.subscribe(8).unwrap();
    for (id, at) in [("a", 1), ("b", 2), ("c", 3)] {
        hub.publish(event(id, at));
    }
    for sub in [s1, s2] {
        let got: Vec<String> = (0..3)
            .map(|_| hub.recv(sub).unwrap().external_id)
            .collect();
        assert_eq!(got, ["a", "b", "c"]);
        assert!(hub.recv(sub).is_none());
    }
}

#[test]
fn slow_subscriber_is_dropped_without_affecting_others() {
    // A subscriber whose bounded buffer overflows is dropped: it keeps the
    // strict prefix already buffered and nothing more, while the other
    // subscriber and the events themselves are untouched.
    let mut hub = Broadcaster::new();
    let slow = hub.subscribe(1).unwrap();
    let fast = hub.subscribe(8).unwrap();
    hub.publish(event("a", 1));
    hub.publish(event("b", 2));
    hub.publish(event("c", 3));

    assert_eq!(hub.recv(slow).unwrap().external_id, "a");
    assert!(hub.recv(slow).is_none());

    let got: Vec<String> = (0..3)
        .map(|_| hub.recv(fast).unwrap().external_id)
        .collect();
    assert_eq!(got, ["a", "b", "c"]);
}

#[test]
fn late_subscriber_sees_only_later_events() {
    let mut hub = Broadcaster::new();
    let early = hub.subscribe(8).unwrap();
    hub.publish(event("a", 1));
    let late = hub.subscribe(8).unwrap();
    hub.publish(event("b", 2));

    assert_eq!(hub.recv(early).unwrap().external_id, "a");
    assert_eq!(hub.recv(early).unwrap().external_id, "b");
    assert_eq!(hub.recv(late).unwrap().external_id, "b");
    assert!(hub.recv(late).is_none());
}

#[test]
fn unsubscribe_is_idempotent() {
    let mut hub = Broadcaster::new();
    let sub = hub.subscribe(4).unwrap();
    assert!(hub.is_registered(sub));
    hub.unsubscribe(sub);
    assert!(!hub.is_registered(sub));
    hub.unsubscribe(sub);
    assert!(!hub.is_registered(sub));
    assert_eq!(hub.subscriber_count(), 0);
    assert!(hub.recv(sub).is_none());
}

#[test]
fn facade_round_trip() {
    let mut facade = ServiceFacade::new("chat-1".to_string());
    let sub = facade.subscribe_messages(16).unwrap();

    let mut fetcher = Fetcher::new("chat-1".to_string(), 1000);
    let outcome = PollOutcome::Page {
        items: vec![raw_text("a", "2021-01-01T00:00:01Z", "hi")],
        next_token: None,
        poll_interval_millis: 1000,
    };
    fetcher.handle_poll(outcome, &mut facade.store, &mut facade.hub, 100, 0);

    let got = facade.next_message(sub).unwrap();
    assert_eq!(got.external_id, "a");
    assert!(facade.next_message(sub).is_none());

    let page = facade.get_messages(10, 0);
    assert_eq!(page.len(), 1);

    facade.disconnect(sub);
    assert!(facade.next_message(sub).is_none());

    let outbound = facade.build_send("hello there".to_string());
    assert_eq!(outbound.live_chat_id, "chat-1");
    assert_eq!(outbound.kind, "textMessageEvent");
    assert_eq!(outbound.text, "hello there");
}

#[test]
fn poll_tick_stamps_from_the_wall_clock() {
    // poll_tick reads the real clock: a fetcher that has stamped nothing yet
    // hands out a received_at well past the epoch.
    let mut fetcher = Fetcher::new("chat-1".to_string(), 1000);
    let mut store = DedupStore::new();
    let mut hub = Broadcaster::new();
    let outcome = PollOutcome::Page {
        items: vec![raw_text("a", "2021-01-01T00:00:01Z", "hi")],
        next_token: None,
        poll_interval_millis: 1000,
    };
    fetcher.poll_tick(outcome, &mut store, &mut hub);
    let page = store.get_messages(1, 0);
    assert!(page[0].received_at_secs > 1_600_000_000);
    assert!(page[0].received_at_nanos < 2_000_000_000);
    assert_eq!(fetcher.last_received_secs, page[0].received_at_secs);
}

#[test]
fn received_at_stamps_never_decrease() {
    let mut fetcher = Fetcher::new("chat-1".to_string(), 1000);
    let mut store = DedupStore::new();
    let mut hub = Broadcaster::new();

    let first = PollOutcome::Page {
        items: vec![raw_text("a", "2021-01-01T00:00:01Z", "hi")],
        next_token: None,
        poll_interval_millis: 1000,
    };
    fetcher.handle_poll(first, &mut store, &mut hub, 200, 0);

    // The clock moved backwards; the stamp holds at its previous value.
    let second = PollOutcome::Page {
        items: vec![raw_text("b", "2021-01-01T00:00:02Z", "hi")],
        next_token: None,
        poll_interval_millis: 1000,
    };
    fetcher.handle_poll(second, &mut store, &mut hub, 150, 0);

    let page = store.get_messages(10, 0);
    assert_eq!(page[0].external_id, "b");
    assert_eq!(page[0].received_at_secs, 200);
    assert_eq!(fetcher.last_received_secs, 200);
}
