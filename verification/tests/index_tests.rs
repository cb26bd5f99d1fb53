use chat_index::index::SearchIndex;
use chat_index::records::{
    IndexUpsertPayload, IndexedMessageRecord, LocalSearchQueryPayload, MediaItemRecord, MessageRow,
};

fn msg(
    event: &str,
    room: &str,
    sender: &str,
    ts: i64,
    body: Option<&str>,
    tokens: &[&str],
    tags: &[&str],
    reactions: &[&str],
    has_media: bool,
    media_types: &[&str],
) -> IndexedMessageRecord {
    IndexedMessageRecord {
        event_id: event.to_string(),
        room_id: room.to_string(),
        sender: sender.to_string(),
        timestamp: ts,
        body: body.map(|b| b.to_string()),
        tokens: tokens.iter().map(|t| t.to_string()).collect(),
        tags: tags.iter().map(|t| t.to_string()).collect(),
        reactions: reactions.iter().map(|t| t.to_string()).collect(),
        has_media,
        media_types: media_types.iter().map(|t| t.to_string()).collect(),
    }
}

fn media(id: &str, event: &str, room: &str, kind: &str, ts: i64) -> MediaItemRecord {
    MediaItemRecord {
        id: id.to_string(),
        event_id: event.to_string(),
        room_id: room.to_string(),
        media_type: kind.to_string(),
        mxc_url: None,
        thumbnail_mxc: None,
        file_name: None,
        size: None,
        mimetype: None,
        sender: "@a".to_string(),
        timestamp: ts,
        body: None,
        url: None,
    }
}

fn ingest(idx: &mut SearchIndex, room: &str, messages: Vec<IndexedMessageRecord>) {
    let payload = IndexUpsertPayload {
        room_id: room.to_string(),
        messages,
        media_items: Vec::new(),
    };
    idx.insert_index_records(&payload);
}

fn query() -> LocalSearchQueryPayload {
    LocalSearchQueryPayload::unconstrained()
}

#[test]
fn upsert_twice_keeps_one_row_with_second_body() {
    let mut idx = SearchIndex::new();
    ingest(
        &mut idx,
        "R1",
        vec![msg("E1", "R1", "@a", 100, Some("first"), &[], &[], &[], false, &[])],
    );
    ingest(
        &mut idx,
        "R1",
        vec![msg("E1", "R1", "@a", 100, Some("second"), &[], &[], &[], false, &[])],
    );
    assert_eq!(idx.messages.len(), 1);
    let rows = idx.query_index_records(&query(), None);
    assert_eq!(rows.len(), 1);
    assert_eq!(rows[0].body.as_deref(), Some("second"));
}

#[test]
fn reingesting_identical_batch_is_idempotent() {
    let batch = vec![
        msg("E1", "R1", "@a", 100, Some("hello"), &["hello"], &[], &[], false, &[]),
        msg("E2", "R1", "@b", 200, Some("there"), &["there"], &[], &[], false, &[]),
    ];
    let mut idx = SearchIndex::new();
    ingest(&mut idx, "R1", batch.clone());
    let first = idx.query_index_records(&query(), None);
    ingest(&mut idx, "R1", batch);
    let second = idx.query_index_records(&query(), None);
    assert_eq!(idx.messages.len(), 2);
    assert_eq!(first.len(), second.len());
    for (a, b) in first.iter().zip(second.iter()) {
        assert_eq!(a.event_id, b.event_id);
        assert_eq!(a.body, b.body);
        assert_eq!(a.timestamp, b.timestamp);
    }
}

#[test]
fn stored_lists_round_trip_through_the_index() {
    let mut idx = SearchIndex::new();
    ingest(
        &mut idx,
        "R1",
        vec![msg(
            "E1",
            "R1",
            "@a",
            100,
            Some("body"),
            &["hi", "alice", "team"],
            &["important", "note \"quoted\""],
            &["⭐", "🔥"],
            true,
            &["image", "video"],
        )],
    );
    let rows = idx.query_index_records(&query(), None);
    assert_eq!(rows.len(), 1);
    assert_eq!(rows[0].tokens, vec!["hi", "alice", "team"]);
    assert_eq!(rows[0].tags, vec!["important", "note \"quoted\""]);
    assert_eq!(rows[0].reactions, vec!["⭐", "🔥"]);
    assert_eq!(rows[0].media_types, vec!["image", "video"]);
}

#[test]
fn search_results_are_non_increasing_in_timestamp() {
    let mut idx = SearchIndex::new();
    ingest(
        &mut idx,
        "R1",
        vec![
            msg("E1", "R1", "@a", 150, Some("x"), &[], &[], &[], false, &[]),
            msg("E2", "R1", "@a", 400, Some("x"), &[], &[], &[], false, &[]),
            msg("E3", "R1", "@a", 50, Some("x"), &[], &[], &[], false, &[]),
            msg("E4", "R1", "@a", 400, Some("x"), &[], &[], &[], false, &[]),
            msg("E5", "R1", "@a", 250, Some("x"), &[], &[], &[], false, &[]),
        ],
    );
    let rows = idx.query_index_records(&query(), None);
    assert_eq!(rows.len(), 5);
    for w in rows.windows(2) {
        assert!(w[0].timestamp >= w[1].timestamp);
    }
}

#[test]
fn mention_target_matches_whole_tokens_only() {
    let mut idx = SearchIndex::new();
    ingest(
        &mut idx,
        "R1",
        vec![
            msg("E1", "R1", "@a", 100, None, &["hi", "alice", "team"], &[], &[], false, &[]),
            msg("E2", "R1", "@a", 200, None, &["hi", "alicia", "team"], &[], &[], false, &[]),
        ],
    );
    let target = "alice".to_string();
    let rows = idx.query_index_records(&query(), Some(&target));
    assert_eq!(rows.len(), 1);
    assert_eq!(rows[0].event_id, "E1");
}

#[test]
fn mention_target_is_lowercased_before_matching() {
    let mut idx = SearchIndex::new();
    ingest(
        &mut idx,
        "R1",
        vec![msg("E1", "R1", "@a", 100, None, &["alice"], &[], &[], false, &[])],
    );
    let target = "ALICE".to_string();
    let rows = idx.query_index_records(&query(), Some(&target));
    assert_eq!(rows.len(), 1);
}

#[test]
fn media_types_filter_requires_all_requested_types() {
    let mut idx = SearchIndex::new();
    ingest(
        &mut idx,
        "R1",
        vec![
            msg("E1", "R1", "@a", 100, None, &[], &[], &[], true, &["image"]),
            msg("E2", "R1", "@a", 200, None, &[], &[], &[], true, &["video"]),
            msg("E3", "R1", "@a", 300, None, &[], &[], &[], true, &["image", "video"]),
        ],
    );
    let mut q = query();
    q.media_types = Some(vec!["image".to_string(), "video".to_string()]);
    let rows = idx.query_index_records(&q, None);
    assert_eq!(rows.len(), 1);
    assert_eq!(rows[0].event_id, "E3");
}

#[test]
fn smart_collections_empty_when_nothing_matches() {
    let mut idx = SearchIndex::new();
    ingest(
        &mut idx,
        "R1",
        vec![msg("E1", "R1", "@a", 100, Some("plain"), &["plain"], &[], &[], false, &[])],
    );
    let out = idx.compute_smart_collections("@bob:example.org");
    assert!(out.is_empty());
}

#[test]
fn smart_collections_count_important_and_mentions() {
    let mut idx = SearchIndex::new();
    ingest(
        &mut idx,
        "R1",
        vec![
            msg("E1", "R1", "@a", 100, None, &[], &["important"], &[], false, &[]),
            msg("E2", "R1", "@a", 200, None, &[], &[], &["⭐"], false, &[]),
            msg("E3", "R1", "@a", 300, Some("ping @bob now"), &[], &[], &[], false, &[]),
            msg("E4", "R1", "@a", 400, None, &["hi", "bob"], &[], &[], false, &[]),
        ],
    );
    let out = idx.compute_smart_collections("@Bob:example.org");
    assert_eq!(out.len(), 2);
    assert_eq!(out[0].id, "important");
    assert_eq!(out[0].count, 2);
    assert_eq!(out[0].token, "smart:important");
    assert_eq!(out[1].id, "mentions");
    assert_eq!(out[1].count, 2);
    assert_eq!(out[1].token, "smart:mentions");
}

#[test]
fn ingest_then_term_search_finds_the_message() {
    let mut idx = SearchIndex::new();
    ingest(
        &mut idx,
        "R1",
        vec![msg(
            "E1",
            "R1",
            "@a",
            100,
            Some("hello world"),
            &["hello", "world"],
            &[],
            &[],
            false,
            &[],
        )],
    );
    let mut q = query();
    q.room_id = Some("R1".to_string());
    q.term = Some("hello".to_string());
    let rows = idx.query_index_records(&q, None);
    assert_eq!(rows.len(), 1);
    assert_eq!(rows[0].event_id, "E1");

    let mut q2 = query();
    q2.room_id = Some("R1".to_string());
    q2.term = Some("xyz".to_string());
    let rows2 = idx.query_index_records(&q2, None);
    assert!(rows2.is_empty());
}

#[test]
fn load_room_index_orders_newest_first() {
    let mut idx = SearchIndex::new();
    ingest(
        &mut idx,
        "R1",
        vec![
            msg("E1", "R1", "@a", 100, Some("older"), &[], &[], &[], false, &[]),
            msg("E2", "R1", "@a", 200, Some("newer"), &[], &[], &[], false, &[]),
        ],
    );
    let loaded = idx.load_room_index(&"R1".to_string());
    assert_eq!(loaded.messages.len(), 2);
    assert_eq!(loaded.messages[0].timestamp, 200);
    assert_eq!(loaded.messages[1].timestamp, 100);
}

#[test]
fn load_room_index_keeps_rooms_apart_and_orders_media() {
    let mut idx = SearchIndex::new();
    let payload = IndexUpsertPayload {
        room_id: "R1".to_string(),
        messages: vec![
            msg("E1", "R1", "@a", 100, None, &[], &[], &[], true, &["image"]),
            msg("E9", "R2", "@a", 500, None, &[], &[], &[], false, &[]),
        ],
        media_items: vec![
            media("M1", "E1", "R1", "image", 100),
            media("M2", "E1", "R1", "video", 300),
            media("M3", "E9", "R2", "image", 200),
        ],
    };
    idx.insert_index_records(&payload);
    let loaded = idx.load_room_index(&"R1".to_string());
    assert_eq!(loaded.messages.len(), 1);
    assert_eq!(loaded.messages[0].event_id, "E1");
    assert_eq!(loaded.media.len(), 2);
    assert_eq!(loaded.media[0].id, "M2");
    assert_eq!(loaded.media[1].id, "M1");
}

#[test]
fn media_upsert_overwrites_by_id() {
    let mut idx = SearchIndex::new();
    let first = IndexUpsertPayload {
        room_id: "R1".to_string(),
        messages: Vec::new(),
        media_items: vec![media("M1", "E1", "R1", "image", 100)],
    };
    idx.insert_index_records(&first);
    let second = IndexUpsertPayload {
        room_id: "R1".to_string(),
        messages: Vec::new(),
        media_items: vec![media("M1", "E1", "R1", "video", 150)],
    };
    idx.insert_index_records(&second);
    assert_eq!(idx.media.len(), 1);
    assert_eq!(idx.media[0].media_type, "video");
    assert_eq!(idx.media[0].timestamp, 150);
}

#[test]
fn empty_batch_changes_nothing() {
    let mut idx = SearchIndex::new();
    ingest(
        &mut idx,
        "R1",
        vec![msg("E1", "R1", "@a", 100, None, &[], &[], &[], false, &[])],
    );
    let empty = IndexUpsertPayload {
        room_id: "R1".to_string(),
        messages: Vec::new(),
        media_items: Vec::new(),
    };
    idx.insert_index_records(&empty);
    assert_eq!(idx.messages.len(), 1);
    assert_eq!(idx.media.len(), 0);
}

#[test]
fn filters_combine_conjunctively() {
    let mut idx = SearchIndex::new();
    ingest(
        &mut idx,
        "R1",
        vec![
            msg("E1", "R1", "@a", 100, Some("alpha"), &[], &[], &[], true, &["image"]),
            msg("E2", "R1", "@b", 200, Some("alpha"), &[], &[], &[], false, &[]),
            msg("E3", "R2", "@a", 300, Some("alpha"), &[], &[], &[], true, &["image"]),
            msg("E4", "R1", "@a", 400, Some("beta"), &[], &[], &[], true, &["image"]),
        ],
    );
    let mut q = query();
    q.room_id = Some("R1".to_string());
    q.senders = Some(vec!["@a".to_string()]);
    q.term = Some("alpha".to_string());
    q.has_media = Some(true);
    let rows = idx.query_index_records(&q, None);
    assert_eq!(rows.len(), 1);
    assert_eq!(rows[0].event_id, "E1");
}

#[test]
fn timestamp_bounds_are_inclusive() {
    let mut idx = SearchIndex::new();
    ingest(
        &mut idx,
        "R1",
        vec![
            msg("E1", "R1", "@a", 100, None, &[], &[], &[], false, &[]),
            msg("E2", "R1", "@a", 200, None, &[], &[], &[], false, &[]),
            msg("E3", "R1", "@a", 300, None, &[], &[], &[], false, &[]),
        ],
    );
    let mut q = query();
    q.from_ts = Some(100);
    q.to_ts = Some(200);
    let rows = idx.query_index_records(&q, None);
    assert_eq!(rows.len(), 2);
    assert_eq!(rows[0].event_id, "E2");
    assert_eq!(rows[1].event_id, "E1");
}

#[test]
fn has_media_false_imposes_no_constraint() {
    let mut idx = SearchIndex::new();
    ingest(
        &mut idx,
        "R1",
        vec![
            msg("E1", "R1", "@a", 100, None, &[], &[], &[], true, &["image"]),
            msg("E2", "R1", "@a", 200, None, &[], &[], &[], false, &[]),
        ],
    );
    let mut q = query();
    q.has_media = Some(false);
    assert_eq!(idx.query_index_records(&q, None).len(), 2);
    q.has_media = Some(true);
    let rows = idx.query_index_records(&q, None);
    assert_eq!(rows.len(), 1);
    assert_eq!(rows[0].event_id, "E1");
}

#[test]
fn limit_truncates_after_ordering() {
    let mut idx = SearchIndex::new();
    ingest(
        &mut idx,
        "R1",
        vec![
            msg("E1", "R1", "@a", 100, None, &[], &[], &[], false, &[]),
            msg("E2", "R1", "@a", 300, None, &[], &[], &[], false, &[]),
            msg("E3", "R1", "@a", 200, None, &[], &[], &[], false, &[]),
        ],
    );
    let mut q = query();
    q.limit = Some(2);
    let rows = idx.query_index_records(&q, None);
    assert_eq!(rows.len(), 2);
    assert_eq!(rows[0].event_id, "E2");
    assert_eq!(rows[1].event_id, "E3");
}

#[test]
fn limit_zero_returns_nothing() {
    let mut idx = SearchIndex::new();
    ingest(
        &mut idx,
        "R1",
        vec![msg("E1", "R1", "@a", 100, None, &[], &[], &[], false, &[])],
    );
    let mut q = query();
    q.limit = Some(0);
    assert!(idx.query_index_records(&q, None).is_empty());
}

#[test]
fn term_is_case_insensitive_and_searches_all_surfaces() {
    let mut idx = SearchIndex::new();
    ingest(
        &mut idx,
        "R1",
        vec![
            msg("E1", "R1", "@alice", 100, None, &[], &[], &[], false, &[]),
            msg("E2", "R1", "@b", 200, Some("Greetings"), &[], &[], &[], false, &[]),
            msg("E3", "R1", "@c", 300, None, &[], &["Urgent"], &[], false, &[]),
            msg("E4", "R1", "@d", 400, None, &[], &[], &["👍"], false, &[]),
        ],
    );
    let mut q = query();
    q.term = Some("ALICE".to_string());
    assert_eq!(idx.query_index_records(&q, None).len(), 1);
    q.term = Some("greet".to_string());
    assert_eq!(idx.query_index_records(&q, None).len(), 1);
    q.term = Some("urgent".to_string());
    assert_eq!(idx.query_index_records(&q, None).len(), 1);
    q.term = Some("👍".to_string());
    assert_eq!(idx.query_index_records(&q, None).len(), 1);
}

#[test]
fn blank_term_imposes_no_constraint() {
    let mut idx = SearchIndex::new();
    ingest(
        &mut idx,
        "R1",
        vec![msg("E1", "R1", "@a", 100, None, &[], &[], &[], false, &[])],
    );
    let mut q = query();
    q.term = Some("   ".to_string());
    assert_eq!(idx.query_index_records(&q, None).len(), 1);
}

#[test]
fn empty_sender_set_imposes_no_constraint() {
    let mut idx = SearchIndex::new();
    ingest(
        &mut idx,
        "R1",
        vec![msg("E1", "R1", "@a", 100, None, &[], &[], &[], false, &[])],
    );
    let mut q = query();
    q.senders = Some(Vec::new());
    assert_eq!(idx.query_index_records(&q, None).len(), 1);
}

#[test]
fn corrupt_stored_list_degrades_to_empty_on_read() {
    let mut idx = SearchIndex::new();
    idx.upsert_message_row(MessageRow {
        room_id: "R1".to_string(),
        event_id: "E1".to_string(),
        sender: "@a".to_string(),
        timestamp: 100,
        body: Some("hello".to_string()),
        search_tokens: " hello ".to_string(),
        tokens_json: "not a list".to_string(),
        tags_json: "[\"ok\"]".to_string(),
        reactions_json: "[\"broken".to_string(),
        has_media: false,
        media_types_json: "[]".to_string(),
    });
    let rows = idx.query_index_records(&query(), None);
    assert_eq!(rows.len(), 1);
    assert!(rows[0].tokens.is_empty());
    assert_eq!(rows[0].tags, vec!["ok"]);
    assert!(rows[0].reactions.is_empty());
    assert!(rows[0].media_types.is_empty());
    assert_eq!(rows[0].body.as_deref(), Some("hello"));
}

#[test]
fn mentions_need_a_nonempty_localpart() {
    let mut idx = SearchIndex::new();
    ingest(
        &mut idx,
        "R1",
        vec![msg("E1", "R1", "@a", 100, Some("hello @ there"), &[], &[], &[], false, &[])],
    );
    let out = idx.compute_smart_collections("@:example.org");
    assert!(out.is_empty());
}

#[test]
fn query_keeps_rooms_apart() {
    let mut idx = SearchIndex::new();
    ingest(
        &mut idx,
        "R1",
        vec![
            msg("E1", "R1", "@a", 100, Some("shared word"), &[], &[], &[], false, &[]),
            msg("E2", "R2", "@a", 200, Some("shared word"), &[], &[], &[], false, &[]),
        ],
    );
    let mut q = query();
    q.room_id = Some("R2".to_string());
    let rows = idx.query_index_records(&q, None);
    assert_eq!(rows.len(), 1);
    assert_eq!(rows[0].event_id, "E2");
}
