//! The data model: message and media records as they cross the library
//! boundary, the stored row forms they are kept in, and the spec-level views
//! and conversions that the contracts are stated over.

use vstd::prelude::*;
use crate::codec::{
    encode_list_spec,
    decode_list_spec,
    search_surface,
    seq_views,
    encode_list,
    decode_list,
    build_search_surface,
};

verus! {

// ---------------------------------------------------------------------------
// Small helpers
// ---------------------------------------------------------------------------

/// The view of an optional string.
pub open spec fn view_opt(o: Option<String>) -> Option<Seq<char>> {
    match o {
        Some(s) => Some(s@),
        None => None,
    }
}

/// A copy of an optional string.
pub fn clone_opt_string(o: &Option<String>) -> (r: Option<String>)
    ensures
        r == *o,
{
    match o {
        Some(s) => Some(s.clone()),
        None => None,
    }
}

/// A copy of an optional integer.
pub fn clone_opt_i64(o: &Option<i64>) -> (r: Option<i64>)
    ensures
        r == *o,
{
    match o {
        Some(n) => Some(*n),
        None => None,
    }
}

// ---------------------------------------------------------------------------
// Message records
// ---------------------------------------------------------------------------

/// One chat event as ingestion receives it and as queries hand it back.
#[derive(Debug, Clone)]
pub struct IndexedMessageRecord {
    pub event_id: String,
    pub room_id: String,
    pub sender: String,
    pub timestamp: i64,
    pub body: Option<String>,
    pub tokens: Vec<String>,
    pub tags: Vec<String>,
    pub reactions: Vec<String>,
    pub has_media: bool,
    pub media_types: Vec<String>,
}

/// The mathematical view of a message record.
#[verifier::ext_equal]
pub struct MessageRecordV {
    pub event_id: Seq<char>,
    pub room_id: Seq<char>,
    pub sender: Seq<char>,
    pub timestamp: i64,
    pub body: Option<Seq<char>>,
    pub tokens: Seq<Seq<char>>,
    pub tags: Seq<Seq<char>>,
    pub reactions: Seq<Seq<char>>,
    pub has_media: bool,
    pub media_types: Seq<Seq<char>>,
}

impl View for IndexedMessageRecord {
    type V = MessageRecordV;

    open spec fn view(&self) -> MessageRecordV {
        MessageRecordV {
            event_id: self.event_id@,
            room_id: self.room_id@,
            sender: self.sender@,
            timestamp: self.timestamp,
            body: view_opt(self.body),
            tokens: seq_views(self.tokens@),
            tags: seq_views(self.tags@),
            reactions: seq_views(self.reactions@),
            has_media: self.has_media,
            media_types: seq_views(self.media_types@),
        }
    }
}

/// One stored row of the message table: list-valued fields are kept in
/// their encoded text form, beside the precomputed search surface.
#[derive(Debug, Clone)]
pub struct MessageRow {
    pub room_id: String,
    pub event_id: String,
    pub sender: String,
    pub timestamp: i64,
    pub body: Option<String>,
    pub search_tokens: String,
    pub tokens_json: String,
    pub tags_json: String,
    pub reactions_json: String,
    pub has_media: bool,
    pub media_types_json: String,
}

/// The mathematical view of a stored message row.
#[verifier::ext_equal]
pub struct MessageRowV {
    pub room_id: Seq<char>,
    pub event_id: Seq<char>,
    pub sender: Seq<char>,
    pub timestamp: i64,
    pub body: Option<Seq<char>>,
    pub search_tokens: Seq<char>,
    pub tokens_json: Seq<char>,
    pub tags_json: Seq<char>,
    pub reactions_json: Seq<char>,
    pub has_media: bool,
    pub media_types_json: Seq<char>,
}

impl View for MessageRow {
    type V = MessageRowV;

    open spec fn view(&self) -> MessageRowV {
        MessageRowV {
            room_id: self.room_id@,
            event_id: self.event_id@,
            sender: self.sender@,
            timestamp: self.timestamp,
            body: view_opt(self.body),
            search_tokens: self.search_tokens@,
            tokens_json: self.tokens_json@,
            tags_json: self.tags_json@,
            reactions_json: self.reactions_json@,
            has_media: self.has_media,
            media_types_json: self.media_types_json@,
        }
    }
}

/// The row that ingesting a message record writes: list fields encoded,
/// search surface built from the tokens, everything else copied through.
pub open spec fn encoded_row(m: MessageRecordV) -> MessageRowV {
    MessageRowV {
        room_id: m.room_id,
        event_id: m.event_id,
        sender: m.sender,
        timestamp: m.timestamp,
        body: m.body,
        search_tokens: search_surface(m.tokens),
        tokens_json: encode_list_spec(m.tokens),
        tags_json: encode_list_spec(m.tags),
        reactions_json: encode_list_spec(m.reactions),
        has_media: m.has_media,
        media_types_json: encode_list_spec(m.media_types),
    }
}

/// The record that reading a stored row yields: list fields decoded, a
/// corrupt encoding degrading to the empty list.
pub open spec fn decoded_row(r: MessageRowV) -> MessageRecordV {
    MessageRecordV {
        event_id: r.event_id,
        room_id: r.room_id,
        sender: r.sender,
        timestamp: r.timestamp,
        body: r.body,
        tokens: decode_list_spec(r.tokens_json),
        tags: decode_list_spec(r.tags_json),
        reactions: decode_list_spec(r.reactions_json),
        has_media: r.has_media,
        media_types: decode_list_spec(r.media_types_json),
    }
}

/// The stored form of one message record.
pub fn encode_message_row(m: &IndexedMessageRecord) -> (r: MessageRow)
    ensures
        r@ == encoded_row(m@),
{
    let r = MessageRow {
        room_id: m.room_id.clone(),
        event_id: m.event_id.clone(),
        sender: m.sender.clone(),
        timestamp: m.timestamp,
        body: clone_opt_string(&m.body),
        search_tokens: build_search_surface(&m.tokens),
        tokens_json: encode_list(&m.tokens),
        tags_json: encode_list(&m.tags),
        reactions_json: encode_list(&m.reactions),
        has_media: m.has_media,
        media_types_json: encode_list(&m.media_types),
    };
    assert(r@ =~= encoded_row(m@));
    r
}

/// The record read back from one stored message row.
pub fn decode_message_row(r: &MessageRow) -> (m: IndexedMessageRecord)
    ensures
        m@ == decoded_row(r@),
{
    let m = IndexedMessageRecord {
        event_id: r.event_id.clone(),
        room_id: r.room_id.clone(),
        sender: r.sender.clone(),
        timestamp: r.timestamp,
        body: clone_opt_string(&r.body),
        tokens: decode_list(r.tokens_json.as_str()),
        tags: decode_list(r.tags_json.as_str()),
        reactions: decode_list(r.reactions_json.as_str()),
        has_media: r.has_media,
        media_types: decode_list(r.media_types_json.as_str()),
    };
    assert(m@ =~= decoded_row(r@));
    m
}

/// The views of a vector of message records.
pub open spec fn records_view(v: Seq<IndexedMessageRecord>) -> Seq<MessageRecordV> {
    v.map_values(|m: IndexedMessageRecord| m@)
}

/// A copy of a stored message row, equal to the original in every field.
pub fn clone_message_row(r: &MessageRow) -> (c: MessageRow)
    ensures
        c@ == r@,
{
    let c = MessageRow {
        room_id: r.room_id.clone(),
        event_id: r.event_id.clone(),
        sender: r.sender.clone(),
        timestamp: r.timestamp,
        body: clone_opt_string(&r.body),
        search_tokens: r.search_tokens.clone(),
        tokens_json: r.tokens_json.clone(),
        tags_json: r.tags_json.clone(),
        reactions_json: r.reactions_json.clone(),
        has_media: r.has_media,
        media_types_json: r.media_types_json.clone(),
    };
    assert(c@ =~= r@);
    c
}

// ---------------------------------------------------------------------------
// Media records
// ---------------------------------------------------------------------------

/// One media attachment; stored rows keep exactly these fields, so the same
/// type serves as record and as row.
#[derive(Debug, Clone)]
pub struct MediaItemRecord {
    pub id: String,
    pub event_id: String,
    pub room_id: String,
    pub media_type: String,
    pub mxc_url: Option<String>,
    pub thumbnail_mxc: Option<String>,
    pub file_name: Option<String>,
    pub size: Option<i64>,
    pub mimetype: Option<String>,
    pub sender: String,
    pub timestamp: i64,
    pub body: Option<String>,
    pub url: Option<String>,
}

/// The mathematical view of a media record.
#[verifier::ext_equal]
pub struct MediaItemRecordV {
    pub id: Seq<char>,
    pub event_id: Seq<char>,
    pub room_id: Seq<char>,
    pub media_type: Seq<char>,
    pub mxc_url: Option<Seq<char>>,
    pub thumbnail_mxc: Option<Seq<char>>,
    pub file_name: Option<Seq<char>>,
    pub size: Option<i64>,
    pub mimetype: Option<Seq<char>>,
    pub sender: Seq<char>,
    pub timestamp: i64,
    pub body: Option<Seq<char>>,
    pub url: Option<Seq<char>>,
}

impl View for MediaItemRecord {
    type V = MediaItemRecordV;

    open spec fn view(&self) -> MediaItemRecordV {
        MediaItemRecordV {
            id: self.id@,
            event_id: self.event_id@,
            room_id: self.room_id@,
            media_type: self.media_type@,
            mxc_url: view_opt(self.mxc_url),
            thumbnail_mxc: view_opt(self.thumbnail_mxc),
            file_name: view_opt(self.file_name),
            size: self.size,
            mimetype: view_opt(self.mimetype),
            sender: self.sender@,
            timestamp: self.timestamp,
            body: view_opt(self.body),
            url: view_opt(self.url),
        }
    }
}

/// A copy of a media record, equal to the original in every field.
pub fn clone_media_item(m: &MediaItemRecord) -> (r: MediaItemRecord)
    ensures
        r@ == m@,
{
    let r = MediaItemRecord {
        id: m.id.clone(),
        event_id: m.event_id.clone(),
        room_id: m.room_id.clone(),
        media_type: m.media_type.clone(),
        mxc_url: clone_opt_string(&m.mxc_url),
        thumbnail_mxc: clone_opt_string(&m.thumbnail_mxc),
        file_name: clone_opt_string(&m.file_name),
        size: clone_opt_i64(&m.size),
        mimetype: clone_opt_string(&m.mimetype),
        sender: m.sender.clone(),
        timestamp: m.timestamp,
        body: clone_opt_string(&m.body),
        url: clone_opt_string(&m.url),
    };
    assert(r@ =~= m@);
    r
}

// ---------------------------------------------------------------------------
// Request and response shapes
// ---------------------------------------------------------------------------

/// One ingestion batch: the messages and media items to upsert for a room.
#[derive(Debug, Clone)]
pub struct IndexUpsertPayload {
    pub room_id: String,
    pub messages: Vec<IndexedMessageRecord>,
    pub media_items: Vec<MediaItemRecord>,
}

/// A search filter; absent fields impose no constraint, present fields
/// combine conjunctively.
#[derive(Debug, Clone)]
pub struct LocalSearchQueryPayload {
    pub term: Option<String>,
    pub room_id: Option<String>,
    pub senders: Option<Vec<String>>,
    pub from_ts: Option<i64>,
    pub to_ts: Option<i64>,
    pub has_media: Option<bool>,
    pub limit: Option<usize>,
    pub media_types: Option<Vec<String>>,
}

/// The mathematical view of a search filter.
#[verifier::ext_equal]
pub struct SearchQueryV {
    pub term: Option<Seq<char>>,
    pub room_id: Option<Seq<char>>,
    pub senders: Option<Seq<Seq<char>>>,
    pub from_ts: Option<i64>,
    pub to_ts: Option<i64>,
    pub has_media: Option<bool>,
    pub limit: Option<usize>,
    pub media_types: Option<Seq<Seq<char>>>,
}

impl View for LocalSearchQueryPayload {
    type V = SearchQueryV;

    open spec fn view(&self) -> SearchQueryV {
        SearchQueryV {
            term: view_opt(self.term),
            room_id: view_opt(self.room_id),
            senders: match self.senders {
                Some(v) => Some(seq_views(v@)),
                None => None,
            },
            from_ts: self.from_ts,
            to_ts: self.to_ts,
            has_media: self.has_media,
            limit: self.limit,
            media_types: match self.media_types {
                Some(v) => Some(seq_views(v@)),
                None => None,
            },
        }
    }
}

impl LocalSearchQueryPayload {
    /// A filter with every field absent: it matches every message.
    pub fn unconstrained() -> (r: LocalSearchQueryPayload)
        ensures
            r@ == (SearchQueryV {
                term: None,
                room_id: None,
                senders: None,
                from_ts: None,
                to_ts: None,
                has_media: None,
                limit: None,
                media_types: None,
            }),
    {
        LocalSearchQueryPayload {
            term: None,
            room_id: None,
            senders: None,
            from_ts: None,
            to_ts: None,
            has_media: None,
            limit: None,
            media_types: None,
        }
    }
}

/// Everything stored for one room: its messages and its media, each ordered
/// by timestamp descending.
#[derive(Debug, Clone)]
pub struct PersistedRoomIndexResponse {
    pub media: Vec<MediaItemRecord>,
    pub messages: Vec<IndexedMessageRecord>,
}

/// One computed smart collection: a named, counted result set together with
/// an opaque token that re-issues the equivalent query.
#[derive(Debug, Clone)]
pub struct SmartCollectionSummaryResponse {
    pub id: String,
    pub label: String,
    pub description: String,
    pub count: usize,
    pub token: String,
}

/// The mathematical view of a smart collection summary.
#[verifier::ext_equal]
pub struct SmartCollectionV {
    pub id: Seq<char>,
    pub label: Seq<char>,
    pub description: Seq<char>,
    pub count: usize,
    pub token: Seq<char>,
}

impl View for SmartCollectionSummaryResponse {
    type V = SmartCollectionV;

    open spec fn view(&self) -> SmartCollectionV {
        SmartCollectionV {
            id: self.id@,
            label: self.label@,
            description: self.description@,
            count: self.count,
            token: self.token@,
        }
    }
}

} // verus!
