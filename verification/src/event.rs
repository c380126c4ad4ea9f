//! The canonical chat record and the mapping rule that turns one raw upstream
//! item into it.

use vstd::prelude::*;

use crate::clock;

verus! {

/// Canonical record of one chat message. Constructed from one raw upstream
/// item, immutable thereafter; persisted once and copied to every subscriber.
#[derive(Debug)]
pub struct ChatEvent {
    /// Globally unique upstream message id; the deduplication key.
    pub external_id: String,
    /// Channel of the sender; not globally unique.
    pub channel_id: String,
    /// Display name of the sender; not globally unique.
    pub display_name: String,
    /// The message text; opaque to the pipeline.
    pub body: String,
    /// Timestamp assigned by the upstream platform: seconds since the epoch.
    pub sent_at_secs: i64,
    /// Subsecond part of the upstream timestamp, in nanoseconds.
    pub sent_at_nanos: u32,
    /// Timestamp assigned locally at ingestion: seconds since the epoch.
    pub received_at_secs: i64,
    /// Subsecond part of the local timestamp, in nanoseconds.
    pub received_at_nanos: u32,
}

impl Clone for ChatEvent {
    fn clone(&self) -> (r: Self)
        ensures
            r == *self,
    {
        ChatEvent {
            external_id: self.external_id.clone(),
            channel_id: self.channel_id.clone(),
            display_name: self.display_name.clone(),
            body: self.body.clone(),
            sent_at_secs: self.sent_at_secs,
            sent_at_nanos: self.sent_at_nanos,
            received_at_secs: self.received_at_secs,
            received_at_nanos: self.received_at_nanos,
        }
    }
}

/// The upstream timestamp of `a` is at or after the one of `b`.
pub open spec fn sent_no_earlier(a: ChatEvent, b: ChatEvent) -> bool {
    a.sent_at_secs > b.sent_at_secs || (a.sent_at_secs == b.sent_at_secs
        && a.sent_at_nanos >= b.sent_at_nanos)
}

/// One raw item of an upstream chat page, before mapping; every field the
/// upstream may omit is optional.
pub struct RawItem {
    /// The upstream message id.
    pub id: Option<String>,
    /// The upstream event type; only text messages are mapped.
    pub kind: Option<String>,
    /// Channel id of the author.
    pub author_channel_id: Option<String>,
    /// Display name of the author.
    pub author_display_name: Option<String>,
    /// Publication timestamp, an RFC 3339 string.
    pub published_at: Option<String>,
    /// The displayed message text.
    pub body: Option<String>,
}

/// Why a single raw item could not be mapped to a `ChatEvent`. Such a fault
/// concerns that item alone and never the page around it.
#[derive(Clone, Copy, Debug, PartialEq, Eq, Structural)]
pub enum MappingError {
    /// The event type field is absent.
    MissingKind,
    /// The message id is absent.
    MissingId,
    /// The author's channel id is absent.
    MissingAuthorChannel,
    /// The author's display name is absent.
    MissingAuthorName,
    /// The publication timestamp is absent.
    MissingPublishedAt,
    /// The message text is absent.
    MissingBody,
    /// The publication timestamp is not a valid RFC 3339 string.
    BadTimestamp,
}

/// The upstream event type that the pipeline handles.
pub open spec fn text_kind() -> Seq<char> {
    "textMessageEvent"@
}

/// The mapping rule: an item of another type is silently skipped; an item of
/// the handled type with a missing or unparsable field is a fault of that
/// single item; otherwise the canonical record, stamped `received_at` with the
/// given local time.
pub open spec fn map_item_spec(item: RawItem, recv_secs: i64, recv_nanos: u32) -> Result<
    Option<ChatEvent>,
    MappingError,
> {
    match item.kind {
        None => Err(MappingError::MissingKind),
        Some(kind) => if kind@ != text_kind() {
            Ok(None)
        } else {
            match item.id {
                None => Err(MappingError::MissingId),
                Some(id) => match item.author_channel_id {
                    None => Err(MappingError::MissingAuthorChannel),
                    Some(channel) => match item.author_display_name {
                        None => Err(MappingError::MissingAuthorName),
                        Some(name) => match item.published_at {
                            None => Err(MappingError::MissingPublishedAt),
                            Some(published) => match item.body {
                                None => Err(MappingError::MissingBody),
                                Some(body) => match clock::rfc3339_parse(published@) {
                                    None => Err(MappingError::BadTimestamp),
                                    Some(sent) => Ok(Some(ChatEvent {
                                        external_id: id,
                                        channel_id: channel,
                                        display_name: name,
                                        body: body,
                                        sent_at_secs: sent.0,
                                        sent_at_nanos: sent.1,
                                        received_at_secs: recv_secs,
                                        received_at_nanos: recv_nanos,
                                    })),
                                },
                            },
                        },
                    },
                },
            }
        },
    }
}

/// Maps one raw upstream item to its canonical record, exactly as
/// `map_item_spec` states.
pub fn map_item(item: &RawItem, recv_secs: i64, recv_nanos: u32) -> (r: Result<
    Option<ChatEvent>,
    MappingError,
>)
    ensures
        r == map_item_spec(*item, recv_secs, recv_nanos),
{
    let kind = match &item.kind {
        None => {
            return Err(MappingError::MissingKind);
        },
        Some(k) => k,
    };
    let text: String = "textMessageEvent".to_owned();
    if *kind != text {
        return Ok(None);
    }
    let id = match &item.id {
        None => {
            return Err(MappingError::MissingId);
        },
        Some(v) => v,
    };
    let channel = match &item.author_channel_id {
        None => {
            return Err(MappingError::MissingAuthorChannel);
        },
        Some(v) => v,
    };
    let name = match &item.author_display_name {
        None => {
            return Err(MappingError::MissingAuthorName);
        },
        Some(v) => v,
    };
    let published = match &item.published_at {
        None => {
            return Err(MappingError::MissingPublishedAt);
        },
        Some(v) => v,
    };
    let body = match &item.body {
        None => {
            return Err(MappingError::MissingBody);
        },
        Some(v) => v,
    };
    let sent = match clock::parse_rfc3339(published.as_str()) {
        None => {
            return Err(MappingError::BadTimestamp);
        },
        Some(t) => t,
    };
    Ok(Some(ChatEvent {
        external_id: id.clone(),
        channel_id: channel.clone(),
        display_name: name.clone(),
        body: body.clone(),
        sent_at_secs: sent.0,
        sent_at_nanos: sent.1,
        received_at_secs: recv_secs,
        received_at_nanos: recv_nanos,
    }))
}

} // verus!
