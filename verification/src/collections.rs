//! The smart-collection classifier: fixed heuristics over the stored index
//! that produce named, counted result sets for one user, computed fresh on
//! every call and never persisted.
//!
//! Two collections exist.  "important" counts messages tagged `important`
//! or carrying one of a fixed set of emphasis reactions; "mentions" counts
//! messages naming the user's localpart as a whole token, or `@localpart`
//! inside the body.  A collection with a zero count is omitted entirely.

use vstd::prelude::*;
use vstd::string::*;
use crate::index::{SearchIndex, rows_view};
use crate::query::{quoted, padded, body_text};
use crate::records::{
    MessageRow,
    MessageRowV,
    SmartCollectionSummaryResponse,
    SmartCollectionV,
};
use crate::text::{
    contains_seq,
    contains_str,
    contains_chars,
    chars_of,
    lower_chars,
    lower_seq,
    before_char,
    before_char_exec,
    drop_leading,
    lemma_drop_leading_skip,
    string_from_chars,
};

verus! {

// ---------------------------------------------------------------------------
// The heuristics
// ---------------------------------------------------------------------------

/// A message counts as important when its tag list holds the literal label
/// `important`, or its reaction list holds one of the emphasis glyphs.
pub open spec fn important_row(r: MessageRowV) -> bool {
    ||| contains_seq(r.tags_json, quoted("important"@))
    ||| contains_seq(r.reactions_json, quoted("⭐"@))
    ||| contains_seq(r.reactions_json, quoted("🔥"@))
    ||| contains_seq(r.reactions_json, quoted("❗"@))
}

/// The importance test, one shared term for every contract.
pub open spec fn important_pred() -> spec_fn(MessageRowV) -> bool {
    |r: MessageRowV| important_row(r)
}

/// The user's localpart: the identifier folded to lower case, cut at the
/// first domain separator, with every leading sigil removed.
pub open spec fn localpart_of(user: Seq<char>) -> Seq<char> {
    drop_leading(before_char(lower_seq(user), ':'), |c: char| c == '@')
}

/// A message mentions the localpart when its search surface holds it as a
/// whole token, or its lowered body holds `@` followed by it.
pub open spec fn mention_row(r: MessageRowV, local: Seq<char>) -> bool {
    ||| contains_seq(r.search_tokens, padded(local))
    ||| contains_seq(lower_seq(body_text(r.body)), seq!['@'] + local)
}

/// The mention test for one localpart, one shared term for every contract.
pub open spec fn mention_pred(local: Seq<char>) -> spec_fn(MessageRowV) -> bool {
    |r: MessageRowV| mention_row(r, local)
}

/// The views of a vector of collection summaries.
pub open spec fn summaries_view(v: Seq<SmartCollectionSummaryResponse>) -> Seq<SmartCollectionV> {
    v.map_values(|s: SmartCollectionSummaryResponse| s@)
}

/// The "important" entry with its count.
pub open spec fn important_summary(count: usize) -> SmartCollectionV {
    SmartCollectionV {
        id: "important"@,
        label: "Важно"@,
        description: "Сообщения с тегом important или популярными реакциями"@,
        count: count,
        token: "smart:important"@,
    }
}

/// The "mentions" entry with its count.
pub open spec fn mentions_summary(count: usize) -> SmartCollectionV {
    SmartCollectionV {
        id: "mentions"@,
        label: "Пропущенные упоминания"@,
        description: "Сообщения с упоминанием вашего аккаунта"@,
        count: count,
        token: "smart:mentions"@,
    }
}

/// What the classifier returns for a stored message table and a user:
/// the important entry first if its count is positive, then the mentions
/// entry if the localpart is nonempty and its count is positive.
pub open spec fn smart_collections_spec(rows: Seq<MessageRowV>, user: Seq<char>) -> Seq<
    SmartCollectionV,
> {
    let ic = rows.filter(important_pred()).len();
    let local = localpart_of(user);
    let mc = rows.filter(mention_pred(local)).len();
    let first: Seq<SmartCollectionV> = if ic > 0 {
        seq![important_summary(ic as usize)]
    } else {
        Seq::empty()
    };
    let second: Seq<SmartCollectionV> = if local.len() > 0 && mc > 0 {
        seq![mentions_summary(mc as usize)]
    } else {
        Seq::empty()
    };
    first + second
}

/// Law: a user with no important-tagged or emphasised messages and no
/// mentions gets the empty list, not entries with zero counts.
pub proof fn lemma_smart_collections_empty(rows: Seq<MessageRowV>, user: Seq<char>)
    requires
        rows.filter(important_pred()).len() == 0,
        rows.filter(mention_pred(localpart_of(user))).len() == 0,
    ensures
        smart_collections_spec(rows, user) == Seq::<SmartCollectionV>::empty(),
{
    assert(smart_collections_spec(rows, user) =~= Seq::<SmartCollectionV>::empty());
}

// ---------------------------------------------------------------------------
// The localpart
// ---------------------------------------------------------------------------

/// The user's localpart: lower case, cut at the first `:`, leading `@`
/// stripped.
pub fn normalized_localpart(user_id: &str) -> (r: String)
    ensures
        r@ == localpart_of(user_id@),
{
    let cs = chars_of(user_id);
    let low = lower_chars(&cs);
    let pre = before_char_exec(&low, ':');
    let mut start: usize = 0;
    while start < pre.len() && pre[start] == '@'
        invariant
            start <= pre@.len(),
            forall|i: int| 0 <= i < start ==> pre@[i] == '@',
        decreases pre@.len() - start,
    {
        start = start + 1;
    }
    proof {
        lemma_drop_leading_skip(pre@, |c: char| c == '@', start as int);
    }
    let mut out: Vec<char> = Vec::new();
    let mut i: usize = start;
    while i < pre.len()
        invariant
            start <= i <= pre@.len(),
            out@ == pre@.skip(start as int).take(i - start),
        decreases pre@.len() - i,
    {
        out.push(pre[i]);
        i = i + 1;
        assert(out@ =~= pre@.skip(start as int).take(i - start));
    }
    proof {
        assert(pre@.skip(start as int).take(pre@.len() - start) =~= pre@.skip(start as int));
    }
    string_from_chars(&out)
}

// ---------------------------------------------------------------------------
// The classifier
// ---------------------------------------------------------------------------

fn is_important_row(r: &MessageRow) -> (b: bool)
    ensures
        b == important_row(r@),
{
    proof {
        reveal_strlit("\"important\"");
        reveal_strlit("important");
        reveal_strlit("\"⭐\"");
        reveal_strlit("⭐");
        reveal_strlit("\"🔥\"");
        reveal_strlit("🔥");
        reveal_strlit("\"❗\"");
        reveal_strlit("❗");
        assert("\"important\""@ =~= quoted("important"@));
        assert("\"⭐\""@ =~= quoted("⭐"@));
        assert("\"🔥\""@ =~= quoted("🔥"@));
        assert("\"❗\""@ =~= quoted("❗"@));
    }
    if contains_str(r.tags_json.as_str(), "\"important\"") {
        return true;
    }
    if contains_str(r.reactions_json.as_str(), "\"⭐\"") {
        return true;
    }
    if contains_str(r.reactions_json.as_str(), "\"🔥\"") {
        return true;
    }
    if contains_str(r.reactions_json.as_str(), "\"❗\"") {
        return true;
    }
    false
}

fn is_mention_row(r: &MessageRow, local: &Vec<char>) -> (b: bool)
    ensures
        b == mention_row(r@, local@),
{
    let mut pat: Vec<char> = Vec::new();
    pat.push(' ');
    let mut lc = local.clone();
    pat.append(&mut lc);
    pat.push(' ');
    proof {
        assert(pat@ =~= padded(local@));
    }
    let sc = chars_of(r.search_tokens.as_str());
    if contains_chars(&sc, &pat) {
        return true;
    }
    let body_c = match &r.body {
        Some(b) => chars_of(b.as_str()),
        None => Vec::new(),
    };
    proof {
        assert(body_c@ =~= body_text(r@.body));
    }
    let body_low = lower_chars(&body_c);
    let mut at_pat: Vec<char> = Vec::new();
    at_pat.push('@');
    let mut lc2 = local.clone();
    at_pat.append(&mut lc2);
    proof {
        assert(at_pat@ =~= seq!['@'] + local@);
    }
    contains_chars(&body_low, &at_pat)
}

impl SearchIndex {
    /// Computes the smart collections for one user: each heuristic counted
    /// over the whole stored message table, entries with zero counts left
    /// out, the important entry always first.
    pub fn compute_smart_collections(&self, user_id: &str) -> (r: Vec<
        SmartCollectionSummaryResponse,
    >)
        ensures
            summaries_view(r@) == smart_collections_spec(self@.messages, user_id@),
    {
        let ghost rows = self@.messages;
        let mut important_count: usize = 0;
        let mut i: usize = 0;
        proof {
            reveal(Seq::filter);
            assert(rows.take(0) =~= Seq::<MessageRowV>::empty());
        }
        while i < self.messages.len()
            invariant
                rows == self@.messages,
                i <= self.messages@.len(),
                important_count as int == rows.take(i as int).filter(important_pred()).len(),
                important_count <= i,
            decreases self.messages@.len() - i,
        {
            let ghost prefix = rows.take(i as int);
            let ghost prefix1 = rows.take(i + 1);
            proof {
                reveal(Seq::filter);
                assert(prefix1.drop_last() =~= prefix);
                assert(prefix1.last() == rows[i as int]);
                assert(rows[i as int] == self.messages@[i as int]@);
            }
            if is_important_row(&self.messages[i]) {
                important_count = important_count + 1;
                proof {
                    assert((important_pred())(rows[i as int]));
                    assert(prefix1.filter(important_pred()) == prefix.filter(
                        important_pred(),
                    ).push(rows[i as int]));
                }
            } else {
                proof {
                    assert(!(important_pred())(rows[i as int]));
                    assert(prefix1.filter(important_pred()) == prefix.filter(important_pred()));
                }
            }
            i = i + 1;
        }
        proof {
            assert(rows.take(self.messages@.len() as int) =~= rows);
        }
        let mut out: Vec<SmartCollectionSummaryResponse> = Vec::new();
        if important_count > 0 {
            out.push(
                SmartCollectionSummaryResponse {
                    id: String::from_str("important"),
                    label: String::from_str("Важно"),
                    description: String::from_str(
                        "Сообщения с тегом important или популярными реакциями",
                    ),
                    count: important_count,
                    token: String::from_str("smart:important"),
                },
            );
        }
        let local = normalized_localpart(user_id);
        let lc = chars_of(local.as_str());
        let ghost lv = localpart_of(user_id@);
        proof {
            assert(lc@ == lv);
        }
        if lc.len() > 0 {
            let mut mentions_count: usize = 0;
            let mut j: usize = 0;
            proof {
                reveal(Seq::filter);
                assert(rows.take(0) =~= Seq::<MessageRowV>::empty());
            }
            while j < self.messages.len()
                invariant
                    rows == self@.messages,
                    lc@ == lv,
                    j <= self.messages@.len(),
                    mentions_count as int == rows.take(j as int).filter(mention_pred(lv)).len(),
                    mentions_count <= j,
                decreases self.messages@.len() - j,
            {
                let ghost prefix = rows.take(j as int);
                let ghost prefix1 = rows.take(j + 1);
                proof {
                    reveal(Seq::filter);
                    assert(prefix1.drop_last() =~= prefix);
                    assert(prefix1.last() == rows[j as int]);
                    assert(rows[j as int] == self.messages@[j as int]@);
                }
                if is_mention_row(&self.messages[j], &lc) {
                    mentions_count = mentions_count + 1;
                    proof {
                        assert((mention_pred(lv))(rows[j as int]));
                        assert(prefix1.filter(mention_pred(lv)) == prefix.filter(
                            mention_pred(lv),
                        ).push(rows[j as int]));
                    }
                } else {
                    proof {
                        assert(!(mention_pred(lv))(rows[j as int]));
                        assert(prefix1.filter(mention_pred(lv)) == prefix.filter(
                            mention_pred(lv),
                        ));
                    }
                }
                j = j + 1;
            }
            proof {
                assert(rows.take(self.messages@.len() as int) =~= rows);
            }
            if mentions_count > 0 {
                out.push(
                    SmartCollectionSummaryResponse {
                        id: String::from_str("mentions"),
                        label: String::from_str("Пропущенные упоминания"),
                        description: String::from_str(
                            "Сообщения с упоминанием вашего аккаунта",
                        ),
                        count: mentions_count,
                        token: String::from_str("smart:mentions"),
                    },
                );
            }
        }
        proof {
            assert(summaries_view(out@) =~= smart_collections_spec(rows, user_id@));
        }
        out
    }
}

} // verus!
