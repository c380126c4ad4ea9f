use chat_relay::event::{map_item, MappingError, RawItem};
use chat_relay::service::first_live_chat_id;
use chat_relay::upstream::{describe_upstream_error, u64_to_dec, UpstreamError};

fn full_item() -> RawItem {
    RawItem {
        id: Some("msg-1".to_string()),
        kind: Some("textMessageEvent".to_string()),
        author_channel_id: Some("chan-9".to_string()),
        author_display_name: Some("Ada".to_string()),
        published_at: Some("2021-01-01T00:00:00.5Z".to_string()),
        body: Some("hello".to_string()),
    }
}

#[test]
fn map_item_builds_the_canonical_record() {
    let item = full_item();
    let event = map_item(&item, 42, 7).unwrap().unwrap();
    assert_eq!(event.external_id, "msg-1");
    assert_eq!(event.channel_id, "chan-9");
    assert_eq!(event.display_name, "Ada");
    assert_eq!(event.body, "hello");
    assert_eq!(event.sent_at_secs, 1609459200);
    assert_eq!(event.sent_at_nanos, 500_000_000);
    assert_eq!(event.received_at_secs, 42);
    assert_eq!(event.received_at_nanos, 7);
}

#[test]
fn map_item_respects_timezone_offsets() {
    let mut item = full_item();
    item.published_at = Some("2021-01-01T02:00:00+02:00".to_string());
    let event = map_item(&item, 0, 0).unwrap().unwrap();
    assert_eq!(event.sent_at_secs, 1609459200);
    assert_eq!(event.sent_at_nanos, 0);
}

#[test]
fn map_item_skips_other_event_types_silently() {
    let mut item = full_item();
    item.kind = Some("superChatEvent".to_string());
    assert!(map_item(&item, 0, 0).unwrap().is_none());
}

#[test]
fn map_item_reports_each_missing_field() {
    let mut item = full_item();
    item.kind = None;
    assert_eq!(map_item(&item, 0, 0).unwrap_err(), MappingError::MissingKind);

    let mut item = full_item();
    item.id = None;
    assert_eq!(map_item(&item, 0, 0).unwrap_err(), MappingError::MissingId);

    let mut item = full_item();
    item.author_channel_id = None;
    assert_eq!(map_item(&item, 0, 0).unwrap_err(), MappingError::MissingAuthorChannel);

    let mut item = full_item();
    item.author_display_name = None;
    assert_eq!(map_item(&item, 0, 0).unwrap_err(), MappingError::MissingAuthorName);

    let mut item = full_item();
    item.published_at = None;
    assert_eq!(map_item(&item, 0, 0).unwrap_err(), MappingError::MissingPublishedAt);

    let mut item = full_item();
    item.body = None;
    assert_eq!(map_item(&item, 0, 0).unwrap_err(), MappingError::MissingBody);
}

#[test]
fn map_item_reports_a_bad_timestamp() {
    let mut item = full_item();
    item.published_at = Some("yesterday at noon".to_string());
    assert_eq!(map_item(&item, 0, 0).unwrap_err(), MappingError::BadTimestamp);
}

#[test]
fn missing_fields_on_unhandled_types_are_not_faults() {
    // The type is checked first: an unhandled type is skipped even when its
    // other fields are missing.
    let item = RawItem {
        id: None,
        kind: Some("memberMilestoneChatEvent".to_string()),
        author_channel_id: None,
        author_display_name: None,
        published_at: None,
        body: None,
    };
    assert!(map_item(&item, 0, 0).unwrap().is_none());
}

#[test]
fn decimal_rendering_is_exact() {
    assert_eq!(u64_to_dec(0), "0");
    assert_eq!(u64_to_dec(7), "7");
    assert_eq!(u64_to_dec(10), "10");
    assert_eq!(u64_to_dec(12345), "12345");
    assert_eq!(u64_to_dec(u64::MAX), "18446744073709551615");
}

#[test]
fn upstream_errors_describe_themselves() {
    assert_eq!(
        describe_upstream_error(&UpstreamError::BadRequest("quota exceeded".to_string())),
        "BadRequest: quota exceeded"
    );
    assert_eq!(
        describe_upstream_error(&UpstreamError::Failure("<html>503</html>".to_string())),
        "Failure: <html>503</html>"
    );
    assert_eq!(
        describe_upstream_error(&UpstreamError::FieldClash("alt".to_string())),
        "FieldClash: alt"
    );
    assert_eq!(
        describe_upstream_error(&UpstreamError::HttpError("connection reset".to_string())),
        "HttpError: connection reset"
    );
    assert_eq!(
        describe_upstream_error(&UpstreamError::Io("broken pipe".to_string())),
        "IOError: broken pipe"
    );
    assert_eq!(
        describe_upstream_error(&UpstreamError::JsonDecode(
            "expected value".to_string(),
            "{".to_string()
        )),
        "JsonDecodeError: expected value, body: {"
    );
    assert_eq!(
        describe_upstream_error(&UpstreamError::MissingToken("expired".to_string())),
        "MissingToken: expired"
    );
    assert_eq!(
        describe_upstream_error(&UpstreamError::UploadSizeLimitExceeded(10, 5)),
        "UploadSizeLimitExceeded: uploaded_size: 10, max_size: 5"
    );
    assert_eq!(
        describe_upstream_error(&UpstreamError::MissingApiKey),
        "MissingAPIKey"
    );
    assert_eq!(
        describe_upstream_error(&UpstreamError::Cancelled),
        "Cancelled"
    );
}

#[test]
fn first_live_chat_id_reads_the_first_broadcast() {
    assert_eq!(first_live_chat_id(&vec![]), None);
    assert_eq!(first_live_chat_id(&vec![None]), None);
    assert_eq!(
        first_live_chat_id(&vec![Some("chat-7".to_string()), Some("chat-8".to_string())]),
        Some("chat-7".to_string())
    );
}
