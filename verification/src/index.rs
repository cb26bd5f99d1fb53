//! The index: the two stored tables and the ingestion pipeline.
//!
//! Messages are keyed by (room, event), media by id.  A batch is applied
//! record by record, each one overwriting the row with its key or appending
//! a new row; applying it leaves the tables exactly as `apply_batch` over
//! the views says.

use vstd::prelude::*;
use crate::records::{
    IndexedMessageRecord,
    MessageRecordV,
    MessageRowV,
    MessageRow,
    MediaItemRecord,
    MediaItemRecordV,
    IndexUpsertPayload,
    encoded_row,
    encode_message_row,
    clone_media_item,
};
use crate::store::{
    find_idx,
    upsert_row,
    apply_batch,
    unique_keys,
    has_key,
    lemma_find_idx_props,
    lemma_upsert_row,
    lemma_apply_batch_push,
    lemma_apply_batch_idempotent,
    lemma_upsert_twice_same_key,
};

verus! {

// ---------------------------------------------------------------------------
// Keys and views
// ---------------------------------------------------------------------------

/// The key of a stored message row: its room and event identity together.
pub open spec fn msg_key(r: MessageRowV) -> (Seq<char>, Seq<char>) {
    (r.room_id, r.event_id)
}

/// The message key function, one shared term for every contract.
pub open spec fn msg_key_fn() -> spec_fn(MessageRowV) -> (Seq<char>, Seq<char>) {
    |r: MessageRowV| msg_key(r)
}

/// The key of a stored media row: its client-assigned id.
pub open spec fn media_key(m: MediaItemRecordV) -> Seq<char> {
    m.id
}

/// The media key function, one shared term for every contract.
pub open spec fn media_key_fn() -> spec_fn(MediaItemRecordV) -> Seq<char> {
    |m: MediaItemRecordV| media_key(m)
}

/// The views of a message table.
pub open spec fn rows_view(v: Seq<MessageRow>) -> Seq<MessageRowV> {
    v.map_values(|r: MessageRow| r@)
}

/// The views of a media table.
pub open spec fn media_view(v: Seq<MediaItemRecord>) -> Seq<MediaItemRecordV> {
    v.map_values(|m: MediaItemRecord| m@)
}

/// The encoded rows that a batch of message records writes, in batch order.
pub open spec fn batch_rows(msgs: Seq<IndexedMessageRecord>) -> Seq<MessageRowV> {
    msgs.map_values(|m: IndexedMessageRecord| encoded_row(m@))
}

/// The mathematical view of the whole index.
#[verifier::ext_equal]
pub struct SearchIndexV {
    pub messages: Seq<MessageRowV>,
    pub media: Seq<MediaItemRecordV>,
}

/// The in-memory index: a message table and a media table.
pub struct SearchIndex {
    pub messages: Vec<MessageRow>,
    pub media: Vec<MediaItemRecord>,
}

impl View for SearchIndex {
    type V = SearchIndexV;

    open spec fn view(&self) -> SearchIndexV {
        SearchIndexV { messages: rows_view(self.messages@), media: media_view(self.media@) }
    }
}

impl SearchIndex {
    /// Well-formed: no two messages share (room, event), no two media rows
    /// share an id.
    pub open spec fn wf(&self) -> bool {
        &&& unique_keys(self@.messages, msg_key_fn())
        &&& unique_keys(self@.media, media_key_fn())
    }

    /// A fresh, empty index: what ensuring the schema on a new store yields.
    pub fn new() -> (r: SearchIndex)
        ensures
            r.wf(),
            r@.messages == Seq::<MessageRowV>::empty(),
            r@.media == Seq::<MediaItemRecordV>::empty(),
    {
        let r = SearchIndex { messages: Vec::new(), media: Vec::new() };
        proof {
            assert(r@.messages =~= Seq::<MessageRowV>::empty());
            assert(r@.media =~= Seq::<MediaItemRecordV>::empty());
        }
        r
    }

    /// The stored message rows, in storage order.
    pub fn message_rows(&self) -> (r: &Vec<MessageRow>)
        ensures
            rows_view(r@) == self@.messages,
    {
        &self.messages
    }

    /// The stored media rows, in storage order.
    pub fn media_rows(&self) -> (r: &Vec<MediaItemRecord>)
        ensures
            media_view(r@) == self@.media,
    {
        &self.media
    }

    fn find_message(&self, room_id: &String, event_id: &String) -> (r: Option<usize>)
        ensures
            ({
                let f = find_idx(self@.messages, msg_key_fn(), (room_id@, event_id@));
                match r {
                    Some(i) => f == i && i < self.messages@.len(),
                    None => f == -1,
                }
            }),
    {
        let ghost rows = self@.messages;
        let ghost k = (room_id@, event_id@);
        let mut i: usize = 0;
        while i < self.messages.len()
            invariant
                rows == self@.messages,
                k == (room_id@, event_id@),
                i <= rows.len(),
                forall|j: int| 0 <= j < i ==> #[trigger] msg_key(rows[j]) != k,
            decreases rows.len() - i,
        {
            if self.messages[i].room_id == *room_id && self.messages[i].event_id == *event_id {
                proof {
                    assert(rows[i as int] == self.messages@[i as int]@);
                    assert(msg_key(rows[i as int]) == k);
                    lemma_find_idx_props(rows, msg_key_fn(), k);
                    let f = find_idx(rows, msg_key_fn(), k);
                    if f < 0 {
                        assert(msg_key_fn()(rows[i as int]) != k);
                        assert(false);
                    }
                    if f < i {
                        assert(msg_key(rows[f]) != k);
                        assert(msg_key_fn()(rows[f]) == k);
                        assert(false);
                    }
                    if f > i {
                        assert(msg_key_fn()(rows[i as int]) != k);
                        assert(false);
                    }
                }
                return Some(i);
            }
            proof {
                assert(rows[i as int] == self.messages@[i as int]@);
                assert(msg_key(rows[i as int]) != k);
            }
            i = i + 1;
        }
        proof {
            lemma_find_idx_props(rows, msg_key_fn(), k);
            let f = find_idx(rows, msg_key_fn(), k);
            if f >= 0 {
                assert(msg_key_fn()(rows[f]) == k);
                assert(msg_key(rows[f]) != k);
                assert(false);
            }
        }
        None
    }

    fn find_media(&self, id: &String) -> (r: Option<usize>)
        ensures
            ({
                let f = find_idx(self@.media, media_key_fn(), id@);
                match r {
                    Some(i) => f == i && i < self.media@.len(),
                    None => f == -1,
                }
            }),
    {
        let ghost rows = self@.media;
        let ghost k = id@;
        let mut i: usize = 0;
        while i < self.media.len()
            invariant
                rows == self@.media,
                k == id@,
                i <= rows.len(),
                forall|j: int| 0 <= j < i ==> #[trigger] media_key(rows[j]) != k,
            decreases rows.len() - i,
        {
            if self.media[i].id == *id {
                proof {
                    assert(rows[i as int] == self.media@[i as int]@);
                    assert(media_key(rows[i as int]) == k);
                    lemma_find_idx_props(rows, media_key_fn(), k);
                    let f = find_idx(rows, media_key_fn(), k);
                    if f < 0 {
                        assert(media_key_fn()(rows[i as int]) != k);
                        assert(false);
                    }
                    if f < i {
                        assert(media_key(rows[f]) != k);
                        assert(media_key_fn()(rows[f]) == k);
                        assert(false);
                    }
                    if f > i {
                        assert(media_key_fn()(rows[i as int]) != k);
                        assert(false);
                    }
                }
                return Some(i);
            }
            proof {
                assert(rows[i as int] == self.media@[i as int]@);
                assert(media_key(rows[i as int]) != k);
            }
            i = i + 1;
        }
        proof {
            lemma_find_idx_props(rows, media_key_fn(), k);
            let f = find_idx(rows, media_key_fn(), k);
            if f >= 0 {
                assert(media_key_fn()(rows[f]) == k);
                assert(media_key(rows[f]) != k);
                assert(false);
            }
        }
        None
    }

    /// Writes one stored message row: the row with the same (room, event)
    /// is overwritten in place, an unseen key is appended.  This is what
    /// ingestion does per record, and what hydrating from a mirrored store
    /// does row by row.
    pub fn upsert_message_row(&mut self, row: MessageRow)
        requires
            old(self).wf(),
        ensures
            final(self).wf(),
            final(self)@.messages == upsert_row(old(self)@.messages, msg_key_fn(), row@),
            final(self)@.media == old(self)@.media,
    {
        proof {
            lemma_upsert_row(self@.messages, msg_key_fn(), row@);
        }
        let found = self.find_message(&row.room_id, &row.event_id);
        let ghost rows = self@.messages;
        match found {
            Some(i) => {
                self.messages.remove(i);
                self.messages.insert(i, row);
                proof {
                    assert(rows_view(self.messages@) =~= rows.update(
                        i as int,
                        row@,
                    ));
                }
            },
            None => {
                self.messages.push(row);
                proof {
                    assert(rows_view(self.messages@) =~= rows.push(row@));
                }
            },
        }
    }

    /// Writes one media row, keyed by id, with the same overwrite-or-append
    /// rule as messages.
    pub fn upsert_media_row(&mut self, item: MediaItemRecord)
        requires
            old(self).wf(),
        ensures
            final(self).wf(),
            final(self)@.media == upsert_row(old(self)@.media, media_key_fn(), item@),
            final(self)@.messages == old(self)@.messages,
    {
        proof {
            lemma_upsert_row(self@.media, media_key_fn(), item@);
        }
        let found = self.find_media(&item.id);
        let ghost rows = self@.media;
        match found {
            Some(i) => {
                self.media.remove(i);
                self.media.insert(i, item);
                proof {
                    assert(media_view(self.media@) =~= rows.update(i as int, item@));
                }
            },
            None => {
                self.media.push(item);
                proof {
                    assert(media_view(self.media@) =~= rows.push(item@));
                }
            },
        }
    }

    /// Ingests one batch: every message encoded and upserted in batch
    /// order, then every media item, last write winning per key.  An empty
    /// batch changes nothing.
    pub fn insert_index_records(&mut self, payload: &IndexUpsertPayload)
        requires
            old(self).wf(),
        ensures
            final(self).wf(),
            final(self)@.messages == apply_batch(
                old(self)@.messages,
                msg_key_fn(),
                batch_rows(payload.messages@),
            ),
            final(self)@.media == apply_batch(
                old(self)@.media,
                media_key_fn(),
                media_view(payload.media_items@),
            ),
    {
        let ghost start_m = self@.messages;
        let ghost start_d = self@.media;
        let ghost mbatch = batch_rows(payload.messages@);
        let ghost dbatch = media_view(payload.media_items@);
        let mut i: usize = 0;
        proof {
            assert(mbatch.take(0) =~= Seq::<MessageRowV>::empty());
            assert(apply_batch(start_m, msg_key_fn(), mbatch.take(0)) == start_m);
        }
        while i < payload.messages.len()
            invariant
                self.wf(),
                i <= payload.messages@.len(),
                mbatch == batch_rows(payload.messages@),
                self@.messages == apply_batch(start_m, msg_key_fn(), mbatch.take(i as int)),
                self@.media == start_d,
            decreases payload.messages@.len() - i,
        {
            let row = encode_message_row(&payload.messages[i]);
            proof {
                assert(row@ == mbatch[i as int]);
                assert(mbatch.take(i + 1) =~= mbatch.take(i as int).push(mbatch[i as int]));
                lemma_apply_batch_push(
                    start_m,
                    msg_key_fn(),
                    mbatch.take(i as int),
                    mbatch[i as int],
                );
            }
            self.upsert_message_row(row);
            i = i + 1;
        }
        proof {
            assert(mbatch.take(payload.messages@.len() as int) =~= mbatch);
        }
        let mut j: usize = 0;
        proof {
            assert(dbatch.take(0) =~= Seq::<MediaItemRecordV>::empty());
            assert(apply_batch(start_d, media_key_fn(), dbatch.take(0)) == start_d);
        }
        while j < payload.media_items.len()
            invariant
                self.wf(),
                j <= payload.media_items@.len(),
                dbatch == media_view(payload.media_items@),
                self@.media == apply_batch(start_d, media_key_fn(), dbatch.take(j as int)),
                self@.messages == apply_batch(start_m, msg_key_fn(), mbatch),
                mbatch == batch_rows(payload.messages@),
            decreases payload.media_items@.len() - j,
        {
            let item = clone_media_item(&payload.media_items[j]);
            proof {
                assert(item@ == dbatch[j as int]);
                assert(dbatch.take(j + 1) =~= dbatch.take(j as int).push(dbatch[j as int]));
                lemma_apply_batch_push(
                    start_d,
                    media_key_fn(),
                    dbatch.take(j as int),
                    dbatch[j as int],
                );
            }
            self.upsert_media_row(item);
            j = j + 1;
        }
        proof {
            assert(dbatch.take(payload.media_items@.len() as int) =~= dbatch);
        }
    }
}

// ---------------------------------------------------------------------------
// Laws of ingestion
// ---------------------------------------------------------------------------

/// Law: ingesting the same (room, event) twice leaves exactly one row for
/// that key, and that row holds the second write — its body included.
/// `unique_keys` of the result says no second row carries the key; the
/// named index holds the second record's encoding.
pub proof fn lemma_upsert_last_write_wins(
    rows: Seq<MessageRowV>,
    m1: MessageRecordV,
    m2: MessageRecordV,
)
    requires
        unique_keys(rows, msg_key_fn()),
        m1.room_id == m2.room_id,
        m1.event_id == m2.event_id,
    ensures
        ({
            let once = apply_batch(rows, msg_key_fn(), seq![encoded_row(m1)]);
            let twice = apply_batch(once, msg_key_fn(), seq![encoded_row(m2)]);
            let at = find_idx(twice, msg_key_fn(), (m2.room_id, m2.event_id));
            &&& unique_keys(twice, msg_key_fn())
            &&& has_key(twice, msg_key_fn(), (m2.room_id, m2.event_id))
            &&& twice[at] == encoded_row(m2)
            &&& twice[at].body == m2.body
            &&& forall|j: int|
                0 <= j < twice.len() && j != at ==> #[trigger] msg_key(twice[j]) != (
                m2.room_id,
                m2.event_id,
            )
        }),
{
    let r1 = encoded_row(m1);
    let r2 = encoded_row(m2);
    lemma_apply_batch_singleton(rows, r1);
    lemma_apply_batch_singleton(apply_batch(rows, msg_key_fn(), seq![r1]), r2);
    lemma_upsert_twice_same_key(rows, msg_key_fn(), r1, r2);
    let twice = upsert_row(upsert_row(rows, msg_key_fn(), r1), msg_key_fn(), r2);
    let at = find_idx(twice, msg_key_fn(), msg_key_fn()(r2));
    assert(msg_key_fn()(r2) == (m2.room_id, m2.event_id));
    assert(twice[at] == r2);
    assert forall|j: int|
        0 <= j < twice.len() && j != at implies #[trigger] msg_key(twice[j]) != (
        m2.room_id,
        m2.event_id,
    ) by {
        assert(msg_key_fn()(twice[j]) != msg_key_fn()(r2));
    }
}

/// A batch of one record is one upsert.
pub proof fn lemma_apply_batch_singleton(rows: Seq<MessageRowV>, r: MessageRowV)
    ensures
        apply_batch(rows, msg_key_fn(), seq![r]) == upsert_row(rows, msg_key_fn(), r),
{
    assert(seq![r].drop_last() =~= Seq::<MessageRowV>::empty());
    assert(seq![r].last() == r);
    assert(Seq::<MessageRowV>::empty().fold_left(
        rows,
        |acc: Seq<MessageRowV>, x: MessageRowV| upsert_row(acc, msg_key_fn(), x),
    ) == rows);
}

/// Law: re-ingesting an identical batch is idempotent.  Applying the same
/// messages and the same media a second time leaves both tables exactly as
/// the first application left them, so row counts and every query result
/// are unchanged.
pub proof fn lemma_reingest_idempotent(
    messages: Seq<MessageRowV>,
    media: Seq<MediaItemRecordV>,
    msg_batch: Seq<MessageRowV>,
    media_batch: Seq<MediaItemRecordV>,
)
    requires
        unique_keys(messages, msg_key_fn()),
        unique_keys(media, media_key_fn()),
    ensures
        apply_batch(apply_batch(messages, msg_key_fn(), msg_batch), msg_key_fn(), msg_batch)
            == apply_batch(messages, msg_key_fn(), msg_batch),
        apply_batch(apply_batch(media, media_key_fn(), media_batch), media_key_fn(), media_batch)
            == apply_batch(media, media_key_fn(), media_batch),
{
    lemma_apply_batch_idempotent(messages, msg_key_fn(), msg_batch);
    lemma_apply_batch_idempotent(media, media_key_fn(), media_batch);
}

} // verus!
