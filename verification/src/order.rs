//! Ordering results by timestamp, newest first.
//!
//! Query results are produced by inserting each matching row into an
//! already-ordered accumulator: a row goes after every row at least as new,
//! so rows with equal timestamps keep their storage order and the outcome is
//! deterministic for a fixed store.

use vstd::prelude::*;

verus! {

/// Where a row with timestamp `ts` lands: after every element at least as
/// new, before the first strictly older one.
pub open spec fn insert_pos<T>(acc: Seq<T>, tsf: spec_fn(T) -> i64, ts: i64) -> int
    decreases acc.len(),
{
    if acc.len() == 0 {
        0
    } else if tsf(acc[0]) < ts {
        0
    } else {
        1 + insert_pos(acc.drop_first(), tsf, ts)
    }
}

/// One row placed into an ordered accumulator.
pub open spec fn insert_desc<T>(acc: Seq<T>, tsf: spec_fn(T) -> i64, r: T) -> Seq<T> {
    acc.insert(insert_pos(acc, tsf, tsf(r)), r)
}

/// All rows placed in turn, oldest-first storage order feeding a
/// newest-first result.
pub open spec fn arrange_desc<T>(rows: Seq<T>, tsf: spec_fn(T) -> i64) -> Seq<T> {
    rows.fold_left(Seq::<T>::empty(), |acc: Seq<T>, r: T| insert_desc(acc, tsf, r))
}

/// Timestamps never increase along the sequence.
pub open spec fn sorted_desc<T>(rows: Seq<T>, tsf: spec_fn(T) -> i64) -> bool {
    forall|i: int, j: int|
        0 <= i <= j < rows.len() ==> #[trigger] tsf(rows[i]) >= #[trigger] tsf(rows[j])
}

/// The result truncated to a limit, where one is given; applied after
/// filtering and ordering, never before.
pub open spec fn limit_rows<T>(rows: Seq<T>, limit: Option<usize>) -> Seq<T> {
    match limit {
        Some(l) => if (l as int) < rows.len() {
            rows.take(l as int)
        } else {
            rows
        },
        None => rows,
    }
}

/// The insertion position splits the accumulator at the first strictly
/// older element.
pub proof fn lemma_insert_pos_props<T>(acc: Seq<T>, tsf: spec_fn(T) -> i64, ts: i64)
    ensures
        ({
            let p = insert_pos(acc, tsf, ts);
            &&& 0 <= p <= acc.len()
            &&& forall|i: int| 0 <= i < p ==> #[trigger] tsf(acc[i]) >= ts
            &&& p < acc.len() ==> tsf(acc[p]) < ts
        }),
    decreases acc.len(),
{
    if acc.len() == 0 {
    } else if tsf(acc[0]) < ts {
    } else {
        let rest = acc.drop_first();
        lemma_insert_pos_props(rest, tsf, ts);
        assert(forall|j: int| 0 <= j < rest.len() ==> rest[j] == acc[j + 1]);
        let p1 = insert_pos(rest, tsf, ts);
        assert forall|i: int| 0 <= i < p1 + 1 implies #[trigger] tsf(acc[i]) >= ts by {
            if i > 0 {
                assert(acc[i] == rest[i - 1]);
                assert(tsf(rest[i - 1]) >= ts);
            }
        }
    }
}

/// Any position with the splitting property is the insertion position.
pub proof fn lemma_insert_pos_at<T>(acc: Seq<T>, tsf: spec_fn(T) -> i64, ts: i64, p: int)
    requires
        0 <= p <= acc.len(),
        forall|i: int| 0 <= i < p ==> #[trigger] tsf(acc[i]) >= ts,
        p == acc.len() || tsf(acc[p]) < ts,
    ensures
        insert_pos(acc, tsf, ts) == p,
{
    lemma_insert_pos_props(acc, tsf, ts);
    let q = insert_pos(acc, tsf, ts);
    if q < p {
        assert(tsf(acc[q]) >= ts);
        assert(tsf(acc[q]) < ts);
    }
    if q > p {
        assert(tsf(acc[p]) >= ts);
        assert(tsf(acc[p]) < ts);
    }
}

/// Inserting into an ordered accumulator keeps it ordered.
pub proof fn lemma_insert_desc_sorted<T>(acc: Seq<T>, tsf: spec_fn(T) -> i64, r: T)
    requires
        sorted_desc(acc, tsf),
    ensures
        sorted_desc(insert_desc(acc, tsf, r), tsf),
        insert_desc(acc, tsf, r).len() == acc.len() + 1,
{
    let ts = tsf(r);
    let p = insert_pos(acc, tsf, ts);
    lemma_insert_pos_props(acc, tsf, ts);
    let res = acc.insert(p, r);
    assert forall|i: int, j: int| 0 <= i <= j < res.len() implies #[trigger] tsf(res[i])
        >= #[trigger] tsf(res[j]) by {
        let oi = if i < p {
            i
        } else {
            i - 1
        };
        let oj = if j < p {
            j
        } else {
            j - 1
        };
        if i == p && j == p {
        } else if i == p {
            assert(res[j] == acc[oj]);
            assert(tsf(acc[p]) < ts);
            assert(tsf(acc[p]) >= tsf(acc[oj]));
        } else if j == p {
            assert(res[i] == acc[oi]);
            assert(tsf(acc[oi]) >= ts);
        } else {
            assert(res[i] == acc[oi]);
            assert(res[j] == acc[oj]);
            assert(tsf(acc[oi]) >= tsf(acc[oj]));
        }
    }
}

/// An arranged sequence is ordered and has the same length.
pub proof fn lemma_arrange_sorted<T>(rows: Seq<T>, tsf: spec_fn(T) -> i64)
    ensures
        sorted_desc(arrange_desc(rows, tsf), tsf),
        arrange_desc(rows, tsf).len() == rows.len(),
    decreases rows.len(),
{
    if rows.len() == 0 {
    } else {
        let front = rows.drop_last();
        lemma_arrange_sorted(front, tsf);
        lemma_insert_desc_sorted(arrange_desc(front, tsf), tsf, rows.last());
        assert(arrange_desc(rows, tsf) == insert_desc(arrange_desc(front, tsf), tsf, rows.last()));
    }
}

/// Arranging a sequence extended by one row inserts that row.
pub proof fn lemma_arrange_push<T>(rows: Seq<T>, tsf: spec_fn(T) -> i64, r: T)
    ensures
        arrange_desc(rows.push(r), tsf) == insert_desc(arrange_desc(rows, tsf), tsf, r),
{
    assert(rows.push(r).drop_last() =~= rows);
    assert(rows.push(r).last() == r);
}

/// A truncated ordered sequence stays ordered.
pub proof fn lemma_limit_sorted<T>(rows: Seq<T>, tsf: spec_fn(T) -> i64, limit: Option<usize>)
    requires
        sorted_desc(rows, tsf),
    ensures
        sorted_desc(limit_rows(rows, limit), tsf),
        limit_rows(rows, limit).len() <= rows.len(),
        ({
            match limit {
                Some(l) => limit_rows(rows, limit).len() <= l,
                None => limit_rows(rows, limit).len() == rows.len(),
            }
        }),
{
    let res = limit_rows(rows, limit);
    assert(forall|i: int| 0 <= i < res.len() ==> res[i] == rows[i]);
}

} // verus!
