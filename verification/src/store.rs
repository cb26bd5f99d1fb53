//! Keyed rows and upsert semantics.
//!
//! Both stored tables follow the same discipline: rows are kept in insertion
//! order, each row has a key, keys are unique, and writing a row whose key is
//! already present overwrites that row in place (last write wins) while an
//! unseen key appends.  The definitions here are generic in the row type and
//! the key function; the index instantiates them for messages and for media.

use vstd::prelude::*;

verus! {

/// The position of the first row with key `k`, or -1 if no row has it.
pub open spec fn find_idx<T, K>(rows: Seq<T>, kf: spec_fn(T) -> K, k: K) -> int
    decreases rows.len(),
{
    if rows.len() == 0 {
        -1
    } else if kf(rows[0]) == k {
        0
    } else {
        let r = find_idx(rows.drop_first(), kf, k);
        if r < 0 {
            -1
        } else {
            r + 1
        }
    }
}

/// Some row has key `k`.
pub open spec fn has_key<T, K>(rows: Seq<T>, kf: spec_fn(T) -> K, k: K) -> bool {
    find_idx(rows, kf, k) >= 0
}

/// One upsert: overwrite the row with the same key in place, or append.
pub open spec fn upsert_row<T, K>(rows: Seq<T>, kf: spec_fn(T) -> K, row: T) -> Seq<T> {
    let i = find_idx(rows, kf, kf(row));
    if i >= 0 {
        rows.update(i, row)
    } else {
        rows.push(row)
    }
}

/// A whole batch applied in order, each record upserted in turn.
pub open spec fn apply_batch<T, K>(rows: Seq<T>, kf: spec_fn(T) -> K, batch: Seq<T>) -> Seq<T> {
    batch.fold_left(rows, |acc: Seq<T>, r: T| upsert_row(acc, kf, r))
}

/// No two rows share a key.
pub open spec fn unique_keys<T, K>(rows: Seq<T>, kf: spec_fn(T) -> K) -> bool {
    forall|i: int, j: int|
        0 <= i < j < rows.len() ==> #[trigger] kf(rows[i]) != #[trigger] kf(rows[j])
}

/// The position of the last record in `batch` with key `k`, or -1.
pub open spec fn last_occ<T, K>(batch: Seq<T>, kf: spec_fn(T) -> K, k: K) -> int
    decreases batch.len(),
{
    if batch.len() == 0 {
        -1
    } else if kf(batch.last()) == k {
        batch.len() - 1
    } else {
        last_occ(batch.drop_last(), kf, k)
    }
}

/// What `find_idx` returns: the first position holding the key, if any.
pub proof fn lemma_find_idx_props<T, K>(rows: Seq<T>, kf: spec_fn(T) -> K, k: K)
    ensures
        ({
            let r = find_idx(rows, kf, k);
            &&& r >= 0 ==> 0 <= r < rows.len() && kf(rows[r]) == k && (forall|j: int|
                0 <= j < r ==> #[trigger] kf(rows[j]) != k)
            &&& r < 0 ==> forall|j: int| 0 <= j < rows.len() ==> #[trigger] kf(rows[j]) != k
        }),
    decreases rows.len(),
{
    if rows.len() == 0 {
    } else if kf(rows[0]) == k {
    } else {
        let rest = rows.drop_first();
        lemma_find_idx_props(rest, kf, k);
        assert(forall|j: int| 0 <= j < rest.len() ==> rest[j] == rows[j + 1]);
        let r1 = find_idx(rest, kf, k);
        let r = find_idx(rows, kf, k);
        if r1 >= 0 {
            assert(r == r1 + 1);
            assert(kf(rows[r]) == kf(rest[r1]));
            assert forall|j: int| 0 <= j < r implies #[trigger] kf(rows[j]) != k by {
                if j > 0 {
                    assert(rows[j] == rest[j - 1]);
                    assert(kf(rest[j - 1]) != k);
                }
            }
        } else {
            assert forall|j: int| 0 <= j < rows.len() implies #[trigger] kf(rows[j]) != k by {
                if j > 0 {
                    assert(rows[j] == rest[j - 1]);
                    assert(kf(rest[j - 1]) != k);
                }
            }
        }
    }
}

/// A last occurrence, where there is one, lies in the batch and has the key.
pub proof fn lemma_last_occ_props<T, K>(batch: Seq<T>, kf: spec_fn(T) -> K, k: K)
    ensures
        ({
            let r = last_occ(batch, kf, k);
            r >= 0 ==> 0 <= r < batch.len() && kf(batch[r]) == k
        }),
    decreases batch.len(),
{
    if batch.len() > 0 && kf(batch.last()) != k {
        lemma_last_occ_props(batch.drop_last(), kf, k);
        let r = last_occ(batch.drop_last(), kf, k);
        if r >= 0 {
            assert(batch.drop_last()[r] == batch[r]);
        }
    }
}

/// A key is present exactly when some row carries it.
pub proof fn lemma_has_key_iff<T, K>(rows: Seq<T>, kf: spec_fn(T) -> K, k: K)
    ensures
        has_key(rows, kf, k) <==> exists|j: int| 0 <= j < rows.len() && #[trigger] kf(rows[j]) == k,
{
    lemma_find_idx_props(rows, kf, k);
    if has_key(rows, kf, k) {
        let r = find_idx(rows, kf, k);
        assert(kf(rows[r]) == k);
    }
}

/// What one upsert does: keys in place are kept, the written row lands on
/// its key's position or at the end, and nothing else moves.
pub proof fn lemma_upsert_row<T, K>(rows: Seq<T>, kf: spec_fn(T) -> K, row: T)
    requires
        unique_keys(rows, kf),
    ensures
        ({
            let res = upsert_row(rows, kf, row);
            let i = find_idx(rows, kf, kf(row));
            let t = if i >= 0 {
                i
            } else {
                rows.len() as int
            };
            &&& unique_keys(res, kf)
            &&& res.len() == if i >= 0 {
                rows.len() as int
            } else {
                rows.len() + 1 as int
            }
            &&& forall|j: int| 0 <= j < rows.len() ==> #[trigger] kf(res[j]) == kf(rows[j])
            &&& res[t] == row
            &&& forall|j: int| 0 <= j < res.len() && j != t ==> res[j] == rows[j]
            &&& has_key(res, kf, kf(row))
        }),
{
    let res = upsert_row(rows, kf, row);
    let i = find_idx(rows, kf, kf(row));
    lemma_find_idx_props(rows, kf, kf(row));
    if i >= 0 {
        assert(forall|j: int| 0 <= j < res.len() && j != i ==> res[j] == rows[j]);
        assert(forall|j: int| 0 <= j < rows.len() ==> #[trigger] kf(res[j]) == kf(rows[j])) by {
            assert(kf(rows[i]) == kf(row));
        }
    } else {
        assert(forall|j: int| 0 <= j < rows.len() ==> res[j] == rows[j]);
    }
    lemma_has_key_iff(res, kf, kf(row));
    let t = if i >= 0 {
        i
    } else {
        rows.len() as int
    };
    assert(kf(res[t]) == kf(row));
}

/// A batch extended by one record applies as the batch, then one upsert.
pub proof fn lemma_apply_batch_push<T, K>(
    rows: Seq<T>,
    kf: spec_fn(T) -> K,
    batch: Seq<T>,
    r: T,
)
    ensures
        apply_batch(rows, kf, batch.push(r)) == upsert_row(apply_batch(rows, kf, batch), kf, r),
{
    assert(batch.push(r).drop_last() =~= batch);
    assert(batch.push(r).last() == r);
}

/// What a whole batch leaves behind: keys keep their positions, every key
/// written by the batch holds the value of its last occurrence, and every
/// row the batch never touched is unchanged.
pub proof fn lemma_apply_batch_char<T, K>(rows: Seq<T>, kf: spec_fn(T) -> K, batch: Seq<T>)
    requires
        unique_keys(rows, kf),
    ensures
        ({
            let res = apply_batch(rows, kf, batch);
            &&& unique_keys(res, kf)
            &&& rows.len() <= res.len()
            &&& forall|j: int| 0 <= j < rows.len() ==> #[trigger] kf(res[j]) == kf(rows[j])
            &&& forall|j: int|
                0 <= j < res.len() ==> {
                    let lo = last_occ(batch, kf, #[trigger] kf(res[j]));
                    if lo >= 0 {
                        res[j] == batch[lo]
                    } else {
                        j < rows.len() && res[j] == rows[j]
                    }
                }
            &&& forall|t: int|
                0 <= t < batch.len() ==> has_key(res, kf, #[trigger] kf(batch[t]))
        }),
    decreases batch.len(),
{
    let res = apply_batch(rows, kf, batch);
    if batch.len() == 0 {
        assert(res == rows);
    } else {
        let front = batch.drop_last();
        let r = batch.last();
        let mid = apply_batch(rows, kf, front);
        lemma_apply_batch_char(rows, kf, front);
        lemma_upsert_row(mid, kf, r);
        assert(res == upsert_row(mid, kf, r));
        let k0 = kf(r);
        let i = find_idx(mid, kf, k0);
        lemma_find_idx_props(mid, kf, k0);
        let t = if i >= 0 {
            i
        } else {
            mid.len() as int
        };
        assert(forall|j: int| 0 <= j < front.len() ==> front[j] == batch[j]);
        assert(last_occ(batch, kf, k0) == batch.len() - 1);
        assert(res[t] == r && batch[batch.len() - 1] == r);
        assert forall|j: int| 0 <= j < rows.len() implies #[trigger] kf(res[j]) == kf(
            rows[j],
        ) by {
            assert(kf(mid[j]) == kf(rows[j]));
            assert(kf(res[j]) == kf(mid[j]));
        }
        assert forall|j: int| 0 <= j < res.len() implies {
            let lo = last_occ(batch, kf, #[trigger] kf(res[j]));
            if lo >= 0 {
                res[j] == batch[lo]
            } else {
                j < rows.len() && res[j] == rows[j]
            }
        } by {
            if j == t {
                assert(kf(res[j]) == k0);
                assert(last_occ(batch, kf, kf(res[j])) == batch.len() - 1);
            } else {
                assert(res[j] == mid[j]);
                if kf(mid[j]) == k0 {
                    if i >= 0 {
                        assert(kf(mid[i]) == k0);
                        assert(false);
                    } else {
                        assert(false);
                    }
                }
                assert(kf(res[j]) != k0);
                assert(last_occ(batch, kf, kf(mid[j])) == last_occ(front, kf, kf(mid[j])));
                let lo = last_occ(front, kf, kf(mid[j]));
                if lo >= 0 {
                    lemma_last_occ_props(front, kf, kf(mid[j]));
                    assert(mid[j] == front[lo]);
                    assert(front[lo] == batch[lo]);
                } else {
                    assert(j < rows.len() && mid[j] == rows[j]);
                }
            }
        }
        assert forall|t2: int| 0 <= t2 < batch.len() implies has_key(
            res,
            kf,
            #[trigger] kf(batch[t2]),
        ) by {
            let k = kf(batch[t2]);
            if k == k0 {
                lemma_has_key_iff(res, kf, k);
                assert(kf(res[t]) == k);
            } else {
                assert(batch[t2] == front[t2]);
                assert(has_key(mid, kf, k));
                lemma_has_key_iff(mid, kf, k);
                let w = choose|w: int| 0 <= w < mid.len() && #[trigger] kf(mid[w]) == k;
                if i >= 0 && w == i {
                    assert(kf(mid[i]) == k0);
                    assert(false);
                }
                assert(res[w] == mid[w]);
                assert(kf(res[w]) == k);
                lemma_has_key_iff(res, kf, k);
            }
        }
    }
}

/// A batch whose keys are all present leaves the row count unchanged.
pub proof fn lemma_apply_batch_len_fixed<T, K>(rows: Seq<T>, kf: spec_fn(T) -> K, batch: Seq<T>)
    requires
        unique_keys(rows, kf),
        forall|t: int| 0 <= t < batch.len() ==> has_key(rows, kf, #[trigger] kf(batch[t])),
    ensures
        apply_batch(rows, kf, batch).len() == rows.len(),
    decreases batch.len(),
{
    if batch.len() > 0 {
        let front = batch.drop_last();
        let r = batch.last();
        let mid = apply_batch(rows, kf, front);
        assert(forall|t: int| 0 <= t < front.len() ==> front[t] == batch[t]);
        lemma_apply_batch_len_fixed(rows, kf, front);
        lemma_apply_batch_char(rows, kf, front);
        let k0 = kf(r);
        lemma_has_key_iff(rows, kf, k0);
        let w = choose|w: int| 0 <= w < rows.len() && #[trigger] kf(rows[w]) == k0;
        assert(kf(mid[w]) == k0);
        lemma_has_key_iff(mid, kf, k0);
        lemma_upsert_row(mid, kf, r);
        assert(apply_batch(rows, kf, batch) == upsert_row(mid, kf, r)) by {
            lemma_apply_batch_push(rows, kf, front, r);
            assert(front.push(r) =~= batch);
        }
    }
}

/// Law: applying the same batch a second time changes nothing — ingestion
/// is idempotent.
pub proof fn lemma_apply_batch_idempotent<T, K>(rows: Seq<T>, kf: spec_fn(T) -> K, batch: Seq<T>)
    requires
        unique_keys(rows, kf),
    ensures
        apply_batch(apply_batch(rows, kf, batch), kf, batch) == apply_batch(rows, kf, batch),
{
    let once = apply_batch(rows, kf, batch);
    lemma_apply_batch_char(rows, kf, batch);
    lemma_apply_batch_len_fixed(once, kf, batch);
    let twice = apply_batch(once, kf, batch);
    lemma_apply_batch_char(once, kf, batch);
    assert forall|j: int| 0 <= j < once.len() implies twice[j] == once[j] by {
        assert(kf(twice[j]) == kf(once[j]));
        let k = kf(once[j]);
        let lo = last_occ(batch, kf, k);
        if lo >= 0 {
            assert(twice[j] == batch[lo]);
            assert(once[j] == batch[lo]);
        } else {
            assert(twice[j] == once[j]);
        }
    }
    assert(twice =~= once);
}

/// Law: upserting the same key twice leaves one row for it, holding the
/// second write.
pub proof fn lemma_upsert_twice_same_key<T, K>(rows: Seq<T>, kf: spec_fn(T) -> K, r1: T, r2: T)
    requires
        unique_keys(rows, kf),
        kf(r1) == kf(r2),
    ensures
        ({
            let res = upsert_row(upsert_row(rows, kf, r1), kf, r2);
            &&& unique_keys(res, kf)
            &&& has_key(res, kf, kf(r2))
            &&& res[find_idx(res, kf, kf(r2))] == r2
            &&& forall|j: int|
                0 <= j < res.len() && j != find_idx(res, kf, kf(r2)) ==> #[trigger] kf(res[j])
                    != kf(r2)
        }),
{
    let u1 = upsert_row(rows, kf, r1);
    lemma_upsert_row(rows, kf, r1);
    lemma_upsert_row(u1, kf, r2);
    let res = upsert_row(u1, kf, r2);
    lemma_find_idx_props(res, kf, kf(r2));
    lemma_find_idx_props(u1, kf, kf(r2));
    let i1 = find_idx(rows, kf, kf(r1));
    let t1 = if i1 >= 0 {
        i1
    } else {
        rows.len() as int
    };
    assert(u1[t1] == r1);
    let i2 = find_idx(u1, kf, kf(r2));
    assert(i2 >= 0);
    let ir = find_idx(res, kf, kf(r2));
    assert(res[i2] == r2);
    assert(kf(res[i2]) == kf(r2));
    assert(ir >= 0);
    if ir != i2 {
        assert(kf(res[ir]) == kf(r2));
        assert(false);
    }
}

} // verus!
