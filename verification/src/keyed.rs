//! Tables keyed by an integer id, as collecting rows into a map by id leaves them: one row
//! per id, the last one read.
use vstd::prelude::*;

verus! {

/// A row of a table whose rows are identified by an integer key.
pub trait KeyedRow: Sized {
    /// The row's key.
    spec fn row_key(&self) -> i64;

    /// The row's key.
    fn key(&self) -> (r: i64)
        ensures
            r == self.row_key(),
    ;
}

/// No two rows share a key: the table as a map from key to row.
pub open spec fn keys_distinct<T: KeyedRow>(rows: Seq<T>) -> bool {
    forall|i: int, j: int|
        0 <= i < j < rows.len() ==> #[trigger] rows[i].row_key() != #[trigger] rows[j].row_key()
}

/// The last row with key `key`: the one a map keeps when rows are inserted in order.
pub open spec fn last_row_for_key<T: KeyedRow>(rows: Seq<T>, key: i64) -> Option<T>
    decreases rows.len(),
{
    if rows.len() == 0 {
        None
    } else if rows.last().row_key() == key {
        Some(rows.last())
    } else {
        last_row_for_key(rows.drop_last(), key)
    }
}

/// Some row of `rows` has key `key`.
pub open spec fn has_key<T: KeyedRow>(rows: Seq<T>, key: i64) -> bool {
    exists|k: int| 0 <= k < rows.len() && #[trigger] rows[k].row_key() == key
}

/// Every key of `rows` is the key of a row of `kept`.
pub open spec fn keys_covered<T: KeyedRow>(rows: Seq<T>, kept: Seq<T>) -> bool {
    forall|j: int| 0 <= j < rows.len() ==> #[trigger] has_key(kept, rows[j].row_key())
}

/// The index of the row with key `key` in a table being filled.
fn find_key_index<T: KeyedRow>(kept: &Vec<T>, key: i64) -> (r: Option<usize>)
    ensures
        match r {
            Some(k) => k < kept@.len() && kept@[k as int].row_key() == key,
            None => forall|k: int| 0 <= k < kept@.len() ==> kept@[k].row_key() != key,
        },
{
    let mut i: usize = 0;
    while i < kept.len()
        invariant
            0 <= i <= kept@.len(),
            forall|k: int| 0 <= k < i ==> kept@[k].row_key() != key,
        decreases kept@.len() - i,
    {
        if kept[i].key() == key {
            return Some(i);
        }
        i = i + 1;
    }
    None
}

/// The table keyed by the rows' keys, as collecting the rows into a map does: one row per
/// key that occurs, the last row with that key. Each key stands where it first occurs.
pub fn rows_by_key<T: KeyedRow>(rows: Vec<T>) -> (r: Vec<T>)
    ensures
        keys_distinct(r@),
        forall|k: int| 0 <= k < r@.len() ==> last_row_for_key(rows@, #[trigger] r@[k].row_key()) == Some(r@[k]),
        keys_covered(rows@, r@),
{
    let ghost all = rows@;
    let mut rest = rows;
    let mut kept: Vec<T> = Vec::new();
    let n = rest.len();
    let mut i: usize = 0;
    assert(rest@ =~= all.skip(0));
    while i < n
        invariant
            0 <= i <= n,
            n == all.len(),
            rest@ == all.skip(i as int),
            keys_distinct(kept@),
            forall|k: int|
                0 <= k < kept@.len() ==> last_row_for_key(all.take(i as int), #[trigger] kept@[k].row_key())
                    == Some(kept@[k]),
            forall|j: int|
                0 <= j < i ==> exists|k: int| 0 <= k < kept@.len() && #[trigger] kept@[k].row_key() == #[trigger] all[j].row_key(),
        decreases n - i,
    {
        let x = rest.remove(0);
        assert(x == all[i as int]);
        assert(rest@ =~= all.skip(i + 1));
        let ghost taken = all.take(i + 1);
        assert(taken.drop_last() =~= all.take(i as int));
        assert(taken.last() == x);
        let ghost before = kept@;
        let d = x.key();
        match find_key_index(&kept, d) {
            Some(k) => {
                kept.set(k, x);
                assert forall|a: int| 0 <= a < kept@.len() implies last_row_for_key(taken, #[trigger] kept@[a].row_key())
                    == Some(kept@[a]) by {
                    if a != k as int {
                        assert(kept@[a] == before[a]);
                        if a < k as int {
                            assert(before[a].row_key() != before[k as int].row_key());
                        } else {
                            assert(before[k as int].row_key() != before[a].row_key());
                        }
                    }
                }
                assert forall|j: int| 0 <= j < i + 1 implies exists|b: int|
                    0 <= b < kept@.len() && #[trigger] kept@[b].row_key() == #[trigger] all[j].row_key() by {
                    if j < i {
                        let b = choose|b: int| 0 <= b < before.len() && #[trigger] before[b].row_key() == all[j].row_key();
                        if b == k as int {
                            assert(kept@[b].row_key() == all[j].row_key());
                        } else {
                            assert(kept@[b] == before[b]);
                        }
                    } else {
                        assert(kept@[k as int].row_key() == all[j].row_key());
                    }
                }
            },
            None => {
                kept.push(x);
                assert forall|a: int| 0 <= a < kept@.len() implies last_row_for_key(taken, #[trigger] kept@[a].row_key())
                    == Some(kept@[a]) by {
                    if a < before.len() {
                        assert(kept@[a] == before[a]);
                    }
                }
                assert forall|j: int| 0 <= j < i + 1 implies exists|b: int|
                    0 <= b < kept@.len() && #[trigger] kept@[b].row_key() == #[trigger] all[j].row_key() by {
                    if j < i {
                        let b = choose|b: int| 0 <= b < before.len() && #[trigger] before[b].row_key() == all[j].row_key();
                        assert(kept@[b] == before[b]);
                    } else {
                        assert(kept@[before.len() as int].row_key() == all[j].row_key());
                    }
                }
            },
        }
        i = i + 1;
    }
    assert(all.take(n as int) =~= all);
    assert forall|j: int| 0 <= j < all.len() implies #[trigger] has_key(kept@, all[j].row_key()) by {
        assert(j < i);
    }
    assert(keys_covered(all, kept@));
    kept
}

} // verus!
