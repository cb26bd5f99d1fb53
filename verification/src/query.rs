//! The query builder: a structured filter narrowed clause by clause, the
//! matching rows ordered newest-first, a limit applied last, and rows
//! decoded back to records on the way out.
//!
//! Every present filter field constrains conjunctively; an absent field
//! constrains nothing.  Asking for several media types requires a message
//! to reference all of them at once, by design.

use vstd::prelude::*;
use crate::codec::seq_views;
use crate::index::{SearchIndex, rows_view, media_view};
use crate::order::{
    insert_pos,
    insert_desc,
    arrange_desc,
    sorted_desc,
    limit_rows,
    lemma_insert_pos_at,
    lemma_insert_desc_sorted,
    lemma_arrange_sorted,
    lemma_arrange_push,
    lemma_limit_sorted,
};
use crate::records::{
    IndexedMessageRecord,
    MessageRecordV,
    MessageRow,
    MessageRowV,
    MediaItemRecord,
    MediaItemRecordV,
    LocalSearchQueryPayload,
    SearchQueryV,
    PersistedRoomIndexResponse,
    decoded_row,
    decode_message_row,
    clone_message_row,
    clone_media_item,
    records_view,
};
use crate::text::{
    contains_seq,
    contains_chars,
    chars_of,
    lower_chars,
    lower_seq,
    trim_chars,
    trim_spaces,
};

verus! {

// ---------------------------------------------------------------------------
// What a row must satisfy
// ---------------------------------------------------------------------------

/// The view of an optional borrowed string.
pub open spec fn view_opt_ref(o: Option<&String>) -> Option<Seq<char>> {
    match o {
        Some(s) => Some(s@),
        None => None,
    }
}

/// A message body as searched: its text, or empty where there is none.
pub open spec fn body_text(b: Option<Seq<char>>) -> Seq<char> {
    match b {
        Some(s) => s,
        None => Seq::empty(),
    }
}

/// A value wrapped in double quotes, as it stands inside an encoded list.
pub open spec fn quoted(t: Seq<char>) -> Seq<char> {
    seq!['"'] + t + seq!['"']
}

/// A token wrapped in single spaces: the whole-token pattern that the
/// space-framed search surface makes exact.
pub open spec fn padded(t: Seq<char>) -> Seq<char> {
    seq![' '] + t + seq![' ']
}

/// The free-text clause: a term, trimmed and folded to lower case, must
/// occur in the lowered body, sender, tag list or reaction list, or as a
/// whole token on the search surface.  A term that trims to nothing
/// constrains nothing.
pub open spec fn term_matches(r: MessageRowV, term: Seq<char>) -> bool {
    let lt = lower_seq(trim_spaces(term));
    trim_spaces(term).len() == 0 || {
        ||| contains_seq(lower_seq(body_text(r.body)), lt)
        ||| contains_seq(lower_seq(r.sender), lt)
        ||| contains_seq(lower_seq(r.tags_json), lt)
        ||| contains_seq(lower_seq(r.reactions_json), lt)
        ||| contains_seq(r.search_tokens, padded(lt))
    }
}

/// One stored row against one filter: every present field must hold.
/// Each requested media type adds its own containment clause, so asking
/// for several types keeps only messages that reference all of them.
pub open spec fn row_matches(r: MessageRowV, q: SearchQueryV, mention: Option<Seq<char>>) -> bool {
    &&& match q.room_id {
        Some(rid) => r.room_id == rid,
        None => true,
    }
    &&& match q.senders {
        Some(ss) => ss.len() == 0 || ss.contains(r.sender),
        None => true,
    }
    &&& match q.from_ts {
        Some(t) => r.timestamp >= t,
        None => true,
    }
    &&& match q.to_ts {
        Some(t) => r.timestamp <= t,
        None => true,
    }
    &&& match q.has_media {
        Some(h) => !h || r.has_media,
        None => true,
    }
    &&& match q.media_types {
        Some(ts) => forall|j: int|
            0 <= j < ts.len() ==> contains_seq(r.media_types_json, quoted(#[trigger] ts[j])),
        None => true,
    }
    &&& match mention {
        Some(m) => contains_seq(r.search_tokens, padded(lower_seq(m))),
        None => true,
    }
    &&& match q.term {
        Some(t) => term_matches(r, t),
        None => true,
    }
}

/// The match predicate, one shared term for every contract.
pub open spec fn match_pred(q: SearchQueryV, mention: Option<Seq<char>>) -> spec_fn(
    MessageRowV,
) -> bool {
    |r: MessageRowV| row_matches(r, q, mention)
}

/// The timestamp of a message row, as the ordering reads it.
pub open spec fn msg_ts_fn() -> spec_fn(MessageRowV) -> i64 {
    |r: MessageRowV| r.timestamp
}

/// The timestamp of a media row, as the ordering reads it.
pub open spec fn media_ts_fn() -> spec_fn(MediaItemRecordV) -> i64 {
    |m: MediaItemRecordV| m.timestamp
}

/// Stored rows decoded back to records, in order.
pub open spec fn decoded_rows(s: Seq<MessageRowV>) -> Seq<MessageRecordV> {
    s.map_values(|r: MessageRowV| decoded_row(r))
}

/// The room filter on message rows.
pub open spec fn msg_room_pred(room: Seq<char>) -> spec_fn(MessageRowV) -> bool {
    |r: MessageRowV| r.room_id == room
}

/// The room filter on media rows.
pub open spec fn media_room_pred(room: Seq<char>) -> spec_fn(MediaItemRecordV) -> bool {
    |m: MediaItemRecordV| m.room_id == room
}

// ---------------------------------------------------------------------------
// Matching one row
// ---------------------------------------------------------------------------

fn matches_row(r: &MessageRow, query: &LocalSearchQueryPayload, mention: Option<&String>) -> (b:
    bool)
    ensures
        b == row_matches(r@, query@, view_opt_ref(mention)),
{
    match &query.room_id {
        Some(rid) => {
            if !(r.room_id == *rid) {
                return false;
            }
        },
        None => {},
    }
    match &query.senders {
        Some(ss) => {
            if ss.len() > 0 {
                let ghost sv = seq_views(ss@);
                let mut found = false;
                let mut k: usize = 0;
                while k < ss.len()
                    invariant
                        sv == seq_views(ss@),
                        k <= ss@.len(),
                        !found ==> forall|j: int| 0 <= j < k ==> sv[j] != r@.sender,
                        found ==> sv.contains(r@.sender),
                    decreases ss@.len() - k,
                {
                    if !found && ss[k] == r.sender {
                        found = true;
                        proof {
                            assert(sv[k as int] == ss@[k as int]@);
                        }
                    }
                    proof {
                        assert(sv[k as int] == ss@[k as int]@);
                    }
                    k = k + 1;
                }
                if !found {
                    proof {
                        if sv.contains(r@.sender) {
                            let j = choose|j: int| 0 <= j < sv.len() && sv[j] == r@.sender;
                            assert(sv[j] != r@.sender);
                        }
                    }
                    return false;
                }
            }
        },
        None => {},
    }
    match query.from_ts {
        Some(t) => {
            if r.timestamp < t {
                return false;
            }
        },
        None => {},
    }
    match query.to_ts {
        Some(t) => {
            if r.timestamp > t {
                return false;
            }
        },
        None => {},
    }
    match query.has_media {
        Some(h) => {
            if h && !r.has_media {
                return false;
            }
        },
        None => {},
    }
    match &query.media_types {
        Some(ts) => {
            let ghost tv = seq_views(ts@);
            let mj = chars_of(r.media_types_json.as_str());
            let mut k: usize = 0;
            while k < ts.len()
                invariant
                    tv == seq_views(ts@),
                    query@.media_types == Some(tv),
                    mj@ == r@.media_types_json,
                    k <= ts@.len(),
                    forall|j: int|
                        0 <= j < k ==> contains_seq(r@.media_types_json, quoted(#[trigger] tv[j])),
                decreases ts@.len() - k,
            {
                let mut pat: Vec<char> = Vec::new();
                pat.push('"');
                let mut tc = chars_of(ts[k].as_str());
                pat.append(&mut tc);
                pat.push('"');
                proof {
                    assert(tv[k as int] == ts@[k as int]@);
                    assert(pat@ =~= quoted(tv[k as int]));
                }
                if !contains_chars(&mj, &pat) {
                    proof {
                        assert(0 <= k < tv.len());
                        assert(!contains_seq(r@.media_types_json, quoted(tv[k as int])));
                        let mt = query@.media_types->Some_0;
                        assert(mt == tv);
                        assert(!(forall|j: int|
                            0 <= j < mt.len() ==> contains_seq(
                                r@.media_types_json,
                                quoted(#[trigger] mt[j]),
                            ))) by {
                            assert(!contains_seq(r@.media_types_json, quoted(mt[k as int])));
                        }
                        assert(!row_matches(r@, query@, view_opt_ref(mention)));
                    }
                    return false;
                }
                k = k + 1;
            }
        },
        None => {},
    }
    match mention {
        Some(m) => {
            let mc = chars_of(m.as_str());
            let mut low = lower_chars(&mc);
            let mut pat: Vec<char> = Vec::new();
            pat.push(' ');
            pat.append(&mut low);
            pat.push(' ');
            proof {
                assert(pat@ =~= padded(lower_seq(m@)));
            }
            let sc = chars_of(r.search_tokens.as_str());
            if !contains_chars(&sc, &pat) {
                return false;
            }
        },
        None => {},
    }
    match &query.term {
        Some(t) => {
            let tc = chars_of(t.as_str());
            let trimmed = trim_chars(&tc);
            if trimmed.len() > 0 {
                let lt = lower_chars(&trimmed);
                let body_c = match &r.body {
                    Some(b) => chars_of(b.as_str()),
                    None => Vec::new(),
                };
                proof {
                    assert(body_c@ =~= body_text(r@.body));
                }
                let body_low = lower_chars(&body_c);
                let mut ok = contains_chars(&body_low, &lt);
                if !ok {
                    let sender_low = lower_chars(&chars_of(r.sender.as_str()));
                    ok = contains_chars(&sender_low, &lt);
                }
                if !ok {
                    let tags_low = lower_chars(&chars_of(r.tags_json.as_str()));
                    ok = contains_chars(&tags_low, &lt);
                }
                if !ok {
                    let reactions_low = lower_chars(&chars_of(r.reactions_json.as_str()));
                    ok = contains_chars(&reactions_low, &lt);
                }
                if !ok {
                    let mut padded_lt: Vec<char> = Vec::new();
                    padded_lt.push(' ');
                    let mut ltc = lower_chars(&trimmed);
                    padded_lt.append(&mut ltc);
                    padded_lt.push(' ');
                    proof {
                        assert(padded_lt@ =~= padded(lower_seq(trim_spaces(t@))));
                    }
                    let sc = chars_of(r.search_tokens.as_str());
                    ok = contains_chars(&sc, &padded_lt);
                }
                if !ok {
                    return false;
                }
            }
        },
        None => {},
    }
    true
}

// ---------------------------------------------------------------------------
// Ordered insertion
// ---------------------------------------------------------------------------

fn message_insert_pos(out: &Vec<MessageRow>, ts: i64) -> (p: usize)
    ensures
        p <= out@.len(),
        p as int == insert_pos(rows_view(out@), msg_ts_fn(), ts),
{
    let mut p: usize = 0;
    while p < out.len() && out[p].timestamp >= ts
        invariant
            p <= out@.len(),
            forall|i: int| 0 <= i < p ==> rows_view(out@)[i].timestamp >= ts,
        decreases out@.len() - p,
    {
        proof {
            assert(rows_view(out@)[p as int] == out@[p as int]@);
        }
        p = p + 1;
    }
    proof {
        if p < out@.len() {
            assert(rows_view(out@)[p as int] == out@[p as int]@);
        }
        assert forall|i: int| 0 <= i < p implies #[trigger] msg_ts_fn()(rows_view(out@)[i])
            >= ts by {
            assert(rows_view(out@)[i].timestamp >= ts);
        }
        lemma_insert_pos_at(rows_view(out@), msg_ts_fn(), ts, p as int);
    }
    p
}

fn media_insert_pos(out: &Vec<MediaItemRecord>, ts: i64) -> (p: usize)
    ensures
        p <= out@.len(),
        p as int == insert_pos(media_view(out@), media_ts_fn(), ts),
{
    let mut p: usize = 0;
    while p < out.len() && out[p].timestamp >= ts
        invariant
            p <= out@.len(),
            forall|i: int| 0 <= i < p ==> media_view(out@)[i].timestamp >= ts,
        decreases out@.len() - p,
    {
        proof {
            assert(media_view(out@)[p as int] == out@[p as int]@);
        }
        p = p + 1;
    }
    proof {
        if p < out@.len() {
            assert(media_view(out@)[p as int] == out@[p as int]@);
        }
        assert forall|i: int| 0 <= i < p implies #[trigger] media_ts_fn()(media_view(out@)[i])
            >= ts by {
            assert(media_view(out@)[i].timestamp >= ts);
        }
        lemma_insert_pos_at(media_view(out@), media_ts_fn(), ts, p as int);
    }
    p
}

// ---------------------------------------------------------------------------
// The queries
// ---------------------------------------------------------------------------

impl SearchIndex {
    /// Runs one search: keeps exactly the stored rows that satisfy every
    /// present filter, orders them newest first (storage order breaking
    /// ties), truncates to the limit last, and decodes each row.  Results
    /// are never increasing in timestamp.
    pub fn query_index_records(
        &self,
        query: &LocalSearchQueryPayload,
        mention_target: Option<&String>,
    ) -> (r: Vec<IndexedMessageRecord>)
        ensures
            records_view(r@) == decoded_rows(
                limit_rows(
                    arrange_desc(
                        self@.messages.filter(match_pred(query@, view_opt_ref(mention_target))),
                        msg_ts_fn(),
                    ),
                    query@.limit,
                ),
            ),
            match query@.limit {
                Some(l) => r@.len() <= l,
                None => true,
            },
            forall|a: int, b: int|
                0 <= a <= b < r@.len() ==> #[trigger] r@[a].timestamp >= #[trigger] r@[b].timestamp,
    {
        let ghost pred = match_pred(query@, view_opt_ref(mention_target));
        let mut picked: Vec<MessageRow> = Vec::new();
        let mut i: usize = 0;
        proof {
            reveal(Seq::filter);
            assert(self@.messages.take(0) =~= Seq::<MessageRowV>::empty());
            assert(rows_view(picked@) =~= arrange_desc(
                self@.messages.take(0).filter(pred),
                msg_ts_fn(),
            ));
        }
        while i < self.messages.len()
            invariant
                pred == match_pred(query@, view_opt_ref(mention_target)),
                i <= self.messages@.len(),
                rows_view(picked@) == arrange_desc(
                    self@.messages.take(i as int).filter(pred),
                    msg_ts_fn(),
                ),
                sorted_desc(rows_view(picked@), msg_ts_fn()),
            decreases self.messages@.len() - i,
        {
            let ghost prefix = self@.messages.take(i as int);
            let ghost prefix1 = self@.messages.take(i + 1);
            let ghost rowv = self@.messages[i as int];
            proof {
                reveal(Seq::filter);
                assert(prefix1.drop_last() =~= prefix);
                assert(prefix1.last() == rowv);
                assert(rowv == self.messages@[i as int]@);
            }
            if matches_row(&self.messages[i], query, mention_target) {
                proof {
                    assert(pred(rowv) == row_matches(rowv, query@, view_opt_ref(mention_target)));
                    assert(prefix1.filter(pred) == prefix.filter(pred).push(rowv));
                    lemma_arrange_push(prefix.filter(pred), msg_ts_fn(), rowv);
                    lemma_insert_desc_sorted(rows_view(picked@), msg_ts_fn(), rowv);
                }
                let row = clone_message_row(&self.messages[i]);
                let pos = message_insert_pos(&picked, row.timestamp);
                proof {
                    assert(msg_ts_fn()(rowv) == row.timestamp);
                }
                picked.insert(pos, row);
                proof {
                    assert(rows_view(picked@) =~= arrange_desc(
                        prefix.filter(pred),
                        msg_ts_fn(),
                    ).insert(pos as int, rowv));
                    assert(rows_view(picked@) == insert_desc(
                        arrange_desc(prefix.filter(pred), msg_ts_fn()),
                        msg_ts_fn(),
                        rowv,
                    ));
                }
            } else {
                proof {
                    assert(pred(rowv) == row_matches(rowv, query@, view_opt_ref(mention_target)));
                    assert(prefix1.filter(pred) == prefix.filter(pred));
                }
            }
            i = i + 1;
        }
        let ghost matched = self@.messages.filter(pred);
        let ghost ordered = arrange_desc(matched, msg_ts_fn());
        proof {
            assert(self@.messages.take(self.messages@.len() as int) =~= self@.messages);
            assert(rows_view(picked@) == ordered);
        }
        let limited: usize = match query.limit {
            Some(l) => if l < picked.len() {
                l
            } else {
                picked.len()
            },
            None => picked.len(),
        };
        let ghost target = limit_rows(ordered, query@.limit);
        proof {
            assert(target.len() == limited as int);
            assert(forall|t: int| 0 <= t < target.len() ==> target[t] == ordered[t]);
        }
        let mut out: Vec<IndexedMessageRecord> = Vec::new();
        let mut j: usize = 0;
        proof {
            assert(target.take(0) =~= Seq::<MessageRowV>::empty());
            assert(records_view(out@) =~= decoded_rows(target.take(0)));
        }
        while j < limited
            invariant
                j <= limited,
                limited as int == target.len(),
                limited <= picked@.len(),
                forall|t: int| 0 <= t < target.len() ==> target[t] == rows_view(picked@)[t],
                records_view(out@) == decoded_rows(target.take(j as int)),
            decreases limited - j,
        {
            let rec = decode_message_row(&picked[j]);
            out.push(rec);
            proof {
                assert(rows_view(picked@)[j as int] == picked@[j as int]@);
                assert(target[j as int] == rows_view(picked@)[j as int]);
                assert(rec@ == decoded_row(target[j as int]));
                assert(target.take(j + 1) =~= target.take(j as int).push(target[j as int]));
                assert(decoded_rows(target.take(j + 1)) =~= decoded_rows(
                    target.take(j as int),
                ).push(decoded_row(target[j as int])));
                assert(records_view(out@) =~= decoded_rows(target.take(j as int)).push(rec@));
            }
            j = j + 1;
        }
        proof {
            assert(target.take(target.len() as int) =~= target);
            lemma_arrange_sorted(matched, msg_ts_fn());
            lemma_limit_sorted(ordered, msg_ts_fn(), query@.limit);
            assert forall|a: int, b: int| 0 <= a <= b < out@.len() implies #[trigger] out@[a].timestamp
                >= #[trigger] out@[b].timestamp by {
                assert(records_view(out@)[a] == out@[a]@);
                assert(records_view(out@)[b] == out@[b]@);
                assert(out@[a]@ == decoded_row(target[a]));
                assert(out@[b]@ == decoded_row(target[b]));
                assert(msg_ts_fn()(target[a]) >= msg_ts_fn()(target[b]));
            }
        }
        out
    }

    /// Loads everything stored for one room: its messages and its media,
    /// each ordered newest first, with no other filtering.
    pub fn load_room_index(&self, room_id: &String) -> (r: PersistedRoomIndexResponse)
        ensures
            records_view(r.messages@) == decoded_rows(
                arrange_desc(self@.messages.filter(msg_room_pred(room_id@)), msg_ts_fn()),
            ),
            media_view(r.media@) == arrange_desc(
                self@.media.filter(media_room_pred(room_id@)),
                media_ts_fn(),
            ),
            forall|a: int, b: int|
                0 <= a <= b < r.messages@.len() ==> #[trigger] r.messages@[a].timestamp
                    >= #[trigger] r.messages@[b].timestamp,
            forall|a: int, b: int|
                0 <= a <= b < r.media@.len() ==> #[trigger] r.media@[a].timestamp
                    >= #[trigger] r.media@[b].timestamp,
    {
        let ghost mpred = msg_room_pred(room_id@);
        let mut picked: Vec<MessageRow> = Vec::new();
        let mut i: usize = 0;
        proof {
            reveal(Seq::filter);
            assert(self@.messages.take(0) =~= Seq::<MessageRowV>::empty());
            assert(rows_view(picked@) =~= arrange_desc(
                self@.messages.take(0).filter(mpred),
                msg_ts_fn(),
            ));
        }
        while i < self.messages.len()
            invariant
                mpred == msg_room_pred(room_id@),
                i <= self.messages@.len(),
                rows_view(picked@) == arrange_desc(
                    self@.messages.take(i as int).filter(mpred),
                    msg_ts_fn(),
                ),
                sorted_desc(rows_view(picked@), msg_ts_fn()),
            decreases self.messages@.len() - i,
        {
            let ghost prefix = self@.messages.take(i as int);
            let ghost prefix1 = self@.messages.take(i + 1);
            let ghost rowv = self@.messages[i as int];
            proof {
                reveal(Seq::filter);
                assert(prefix1.drop_last() =~= prefix);
                assert(prefix1.last() == rowv);
                assert(rowv == self.messages@[i as int]@);
            }
            if self.messages[i].room_id == *room_id {
                proof {
                    assert(mpred(rowv));
                    assert(prefix1.filter(mpred) == prefix.filter(mpred).push(rowv));
                    lemma_arrange_push(prefix.filter(mpred), msg_ts_fn(), rowv);
                    lemma_insert_desc_sorted(rows_view(picked@), msg_ts_fn(), rowv);
                }
                let row = clone_message_row(&self.messages[i]);
                let pos = message_insert_pos(&picked, row.timestamp);
                proof {
                    assert(msg_ts_fn()(rowv) == row.timestamp);
                }
                picked.insert(pos, row);
                proof {
                    assert(rows_view(picked@) =~= arrange_desc(
                        prefix.filter(mpred),
                        msg_ts_fn(),
                    ).insert(pos as int, rowv));
                    assert(rows_view(picked@) == insert_desc(
                        arrange_desc(prefix.filter(mpred), msg_ts_fn()),
                        msg_ts_fn(),
                        rowv,
                    ));
                }
            } else {
                proof {
                    assert(!mpred(rowv));
                    assert(prefix1.filter(mpred) == prefix.filter(mpred));
                }
            }
            i = i + 1;
        }
        let ghost mordered = arrange_desc(self@.messages.filter(mpred), msg_ts_fn());
        proof {
            assert(self@.messages.take(self.messages@.len() as int) =~= self@.messages);
            assert(rows_view(picked@) == mordered);
        }
        let mut out_messages: Vec<IndexedMessageRecord> = Vec::new();
        let mut j: usize = 0;
        proof {
            assert(mordered.take(0) =~= Seq::<MessageRowV>::empty());
            assert(records_view(out_messages@) =~= decoded_rows(mordered.take(0)));
        }
        while j < picked.len()
            invariant
                j <= picked@.len(),
                rows_view(picked@) == mordered,
                records_view(out_messages@) == decoded_rows(mordered.take(j as int)),
            decreases picked@.len() - j,
        {
            let rec = decode_message_row(&picked[j]);
            out_messages.push(rec);
            proof {
                assert(rows_view(picked@)[j as int] == picked@[j as int]@);
                assert(rec@ == decoded_row(mordered[j as int]));
                assert(mordered.take(j + 1) =~= mordered.take(j as int).push(mordered[j as int]));
                assert(decoded_rows(mordered.take(j + 1)) =~= decoded_rows(
                    mordered.take(j as int),
                ).push(decoded_row(mordered[j as int])));
                assert(records_view(out_messages@) =~= decoded_rows(mordered.take(j as int)).push(
                    rec@,
                ));
            }
            j = j + 1;
        }
        proof {
            assert(mordered.take(mordered.len() as int) =~= mordered);
        }
        let ghost dpred = media_room_pred(room_id@);
        let mut out_media: Vec<MediaItemRecord> = Vec::new();
        let mut w: usize = 0;
        proof {
            reveal(Seq::filter);
            assert(self@.media.take(0) =~= Seq::<MediaItemRecordV>::empty());
            assert(media_view(out_media@) =~= arrange_desc(
                self@.media.take(0).filter(dpred),
                media_ts_fn(),
            ));
        }
        while w < self.media.len()
            invariant
                dpred == media_room_pred(room_id@),
                w <= self.media@.len(),
                media_view(out_media@) == arrange_desc(
                    self@.media.take(w as int).filter(dpred),
                    media_ts_fn(),
                ),
                sorted_desc(media_view(out_media@), media_ts_fn()),
            decreases self.media@.len() - w,
        {
            let ghost prefix = self@.media.take(w as int);
            let ghost prefix1 = self@.media.take(w + 1);
            let ghost itemv = self@.media[w as int];
            proof {
                reveal(Seq::filter);
                assert(prefix1.drop_last() =~= prefix);
                assert(prefix1.last() == itemv);
                assert(itemv == self.media@[w as int]@);
            }
            if self.media[w].room_id == *room_id {
                proof {
                    assert(dpred(itemv));
                    assert(prefix1.filter(dpred) == prefix.filter(dpred).push(itemv));
                    lemma_arrange_push(prefix.filter(dpred), media_ts_fn(), itemv);
                    lemma_insert_desc_sorted(media_view(out_media@), media_ts_fn(), itemv);
                }
                let item = clone_media_item(&self.media[w]);
                let pos = media_insert_pos(&out_media, item.timestamp);
                proof {
                    assert(media_ts_fn()(itemv) == item.timestamp);
                }
                out_media.insert(pos, item);
                proof {
                    assert(media_view(out_media@) =~= arrange_desc(
                        prefix.filter(dpred),
                        media_ts_fn(),
                    ).insert(pos as int, itemv));
                    assert(media_view(out_media@) == insert_desc(
                        arrange_desc(prefix.filter(dpred), media_ts_fn()),
                        media_ts_fn(),
                        itemv,
                    ));
                }
            } else {
                proof {
                    assert(!dpred(itemv));
                    assert(prefix1.filter(dpred) == prefix.filter(dpred));
                }
            }
            w = w + 1;
        }
        proof {
            assert(self@.media.take(self.media@.len() as int) =~= self@.media);
            lemma_arrange_sorted(self@.messages.filter(mpred), msg_ts_fn());
            lemma_arrange_sorted(self@.media.filter(dpred), media_ts_fn());
            assert forall|a: int, b: int| 0 <= a <= b < out_messages@.len() implies #[trigger] out_messages@[a].timestamp
                >= #[trigger] out_messages@[b].timestamp by {
                assert(records_view(out_messages@)[a] == out_messages@[a]@);
                assert(records_view(out_messages@)[b] == out_messages@[b]@);
                assert(out_messages@[a]@ == decoded_row(mordered[a]));
                assert(out_messages@[b]@ == decoded_row(mordered[b]));
                assert(msg_ts_fn()(mordered[a]) >= msg_ts_fn()(mordered[b]));
            }
            assert forall|a: int, b: int| 0 <= a <= b < out_media@.len() implies #[trigger] out_media@[a].timestamp
                >= #[trigger] out_media@[b].timestamp by {
                let dv = media_view(out_media@);
                assert(dv[a] == out_media@[a]@);
                assert(dv[b] == out_media@[b]@);
                assert(media_ts_fn()(dv[a]) >= media_ts_fn()(dv[b]));
            }
        }
        PersistedRoomIndexResponse { media: out_media, messages: out_messages }
    }
}

} // verus!
