//! Keeping some rows of a table: what the rows that stay have to do with the
//! rows that were there.

use vstd::prelude::*;
use crate::model::Keyed;
use crate::tables::{has_key, keys_unique, some_row};

verus! {

/// For each row that `pred` keeps, its position in `rows`. The positions
/// ascend, so the rows that stay keep their order.
pub proof fn filter_positions<T>(rows: Seq<T>, pred: spec_fn(T) -> bool) -> (at: Seq<int>)
    ensures
        at.len() == rows.filter(pred).len(),
        forall|i: int|
            0 <= i < at.len() ==> 0 <= #[trigger] at[i] < rows.len() && rows[at[i]] == rows.filter(
                pred,
            )[i] && pred(rows[at[i]]),
        forall|i: int, j: int| 0 <= i < j < at.len() ==> #[trigger] at[i] < #[trigger] at[j],
    decreases rows.len(),
{
    reveal(Seq::filter);
    if rows.len() == 0 {
        Seq::empty()
    } else {
        let sub = filter_positions(rows.drop_last(), pred);
        if pred(rows.last()) {
            let at = sub.push(rows.len() - 1);
            assert forall|i: int| 0 <= i < at.len() implies 0 <= #[trigger] at[i] < rows.len()
                && rows[at[i]] == rows.filter(pred)[i] && pred(rows[at[i]]) by {
                if i < sub.len() {
                    assert(at[i] == sub[i]);
                    assert(rows.drop_last()[sub[i]] == rows[sub[i]]);
                }
            }
            assert forall|i: int, j: int| 0 <= i < j < at.len() implies #[trigger] at[i]
                < #[trigger] at[j] by {
                assert(at[i] == sub[i]);
                if j < sub.len() {
                    assert(at[j] == sub[j]);
                }
            }
            at
        } else {
            assert forall|i: int| 0 <= i < sub.len() implies 0 <= #[trigger] sub[i] < rows.len()
                && rows[sub[i]] == rows.filter(pred)[i] && pred(rows[sub[i]]) by {
                assert(rows.drop_last()[sub[i]] == rows[sub[i]]);
            }
            sub
        }
    }
}

/// Keeping some rows keeps their keys unique.
pub proof fn lemma_filter_keys_unique<T: Keyed>(rows: Seq<T>, pred: spec_fn(T) -> bool)
    requires
        keys_unique(rows),
    ensures
        keys_unique(rows.filter(pred)),
{
    let at = filter_positions(rows, pred);
    let kept = rows.filter(pred);
    assert forall|i: int, j: int| 0 <= i < j < kept.len() implies (#[trigger] kept[i]).key() != (
    #[trigger] kept[j]).key() by {
        assert(at[i] < at[j]);
        assert(rows[at[i]].key() != rows[at[j]].key());
    }
}

/// A row that `pred` keeps is found under its key afterwards.
pub proof fn lemma_filter_keeps_key<T: Keyed>(rows: Seq<T>, pred: spec_fn(T) -> bool, a: int)
    requires
        0 <= a < rows.len(),
        pred(rows[a]),
    ensures
        has_key(rows.filter(pred), rows[a].key()),
{
    rows.lemma_filter_contains(pred, a);
    let kept = rows.filter(pred);
    let m = choose|m: int| 0 <= m < kept.len() && kept[m] == rows[a];
    assert(kept[m].key() == rows[a].key());
}

/// A key found after keeping some rows belongs to a row that was there and
/// that `pred` keeps.
pub proof fn lemma_filter_key_origin<T: Keyed>(rows: Seq<T>, pred: spec_fn(T) -> bool, k: Seq<char>) -> (a: int)
    requires
        has_key(rows.filter(pred), k),
    ensures
        0 <= a < rows.len(),
        rows[a].key() == k,
        pred(rows[a]),
{
    let at = filter_positions(rows, pred);
    let kept = rows.filter(pred);
    let m = choose|m: int| 0 <= m < kept.len() && (#[trigger] kept[m]).key() == k;
    at[m]
}

/// The rows that `wanted` accepts, copied in their order.
pub(crate) fn select<T: Keyed, F: Fn(&T) -> bool>(rows: &Vec<T>, wanted: F, Ghost(pred): Ghost<
    spec_fn(T) -> bool,
>) -> (out: Vec<T>)
    requires
        forall|row: &T| #[trigger] wanted.requires((row,)),
        forall|row: &T, b: bool| #[trigger] wanted.ensures((row,), b) ==> b == pred(*row),
    ensures
        out@ == rows@.filter(pred),
{
    let mut out: Vec<T> = Vec::new();
    let mut i: usize = 0;
    proof {
        reveal_with_fuel(Seq::filter, 1);
        assert(rows@.take(0).filter(pred) =~= Seq::<T>::empty());
    }
    while i < rows.len()
        invariant
            i <= rows.len(),
            forall|row: &T| #[trigger] wanted.requires((row,)),
            forall|row: &T, b: bool| #[trigger] wanted.ensures((row,), b) ==> b == pred(*row),
            out@ == rows@.take(i as int).filter(pred),
        decreases rows.len() - i,
    {
        proof {
            assert(rows@.take(i + 1) =~= rows@.take(i as int).push(rows@[i as int]));
            rows@.take(i as int).lemma_filter_push(rows@[i as int], pred);
        }
        if wanted(&rows[i]) {
            out.push(rows[i].copy_row());
        }
        i += 1;
    }
    assert(rows@.take(i as int) =~= rows@);
    out
}

/// Whether `wanted` accepts some row.
pub(crate) fn any_row<T, F: Fn(&T) -> bool>(rows: &Vec<T>, wanted: F, Ghost(pred): Ghost<
    spec_fn(T) -> bool,
>) -> (found: bool)
    requires
        forall|row: &T| #[trigger] wanted.requires((row,)),
        forall|row: &T, b: bool| #[trigger] wanted.ensures((row,), b) ==> b == pred(*row),
    ensures
        found == some_row(rows@, pred),
{
    let mut i: usize = 0;
    while i < rows.len()
        invariant
            i <= rows.len(),
            forall|row: &T| #[trigger] wanted.requires((row,)),
            forall|row: &T, b: bool| #[trigger] wanted.ensures((row,), b) ==> b == pred(*row),
            forall|j: int| 0 <= j < i ==> !pred(#[trigger] rows@[j]),
        decreases rows.len() - i,
    {
        if wanted(&rows[i]) {
            return true;
        }
        i += 1;
    }
    false
}

/// A copy of every row, in order.
pub(crate) fn copy_rows<T: Keyed>(rows: &Vec<T>) -> (out: Vec<T>)
    ensures
        out@ == rows@,
{
    let mut out: Vec<T> = Vec::new();
    let mut i: usize = 0;
    while i < rows.len()
        invariant
            i <= rows.len(),
            out@ == rows@.take(i as int),
        decreases rows.len() - i,
    {
        out.push(rows[i].copy_row());
        assert(rows@.take(i + 1) =~= rows@.take(i as int).push(rows@[i as int]));
        i += 1;
    }
    assert(rows@.take(i as int) =~= rows@);
    out
}

} // verus!
