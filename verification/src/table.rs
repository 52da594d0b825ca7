//! Rows with a unique integer key, read as a map from key to value.

use vstd::prelude::*;

verus! {

/// No two rows carry the same key.
pub open spec fn keys_distinct<V>(rows: Seq<(int, V)>) -> bool {
    forall|i: int, j: int| 0 <= i < j < rows.len() ==> (#[trigger] rows[i]).0 != (#[trigger] rows[j]).0
}

/// Some row carries the key `k`.
pub open spec fn has_key<V>(rows: Seq<(int, V)>, k: int) -> bool {
    exists|i: int| 0 <= i < rows.len() && (#[trigger] rows[i]).0 == k
}

/// A position at which the key `k` stands.
pub open spec fn position_of<V>(rows: Seq<(int, V)>, k: int) -> int {
    choose|i: int| 0 <= i < rows.len() && (#[trigger] rows[i]).0 == k
}

/// The map that the rows stand for.
pub open spec fn table_of<V>(rows: Seq<(int, V)>) -> Map<int, V> {
    Map::new(|k: int| has_key(rows, k), |k: int| rows[position_of(rows, k)].1)
}

/// Each row is an entry of the map.
pub proof fn lemma_table_row<V>(rows: Seq<(int, V)>, i: int)
    requires
        keys_distinct(rows),
        0 <= i < rows.len(),
    ensures
        table_of(rows).contains_key(rows[i].0),
        table_of(rows)[rows[i].0] == rows[i].1,
{
    let k = rows[i].0;
    assert(has_key(rows, k));
    let p = position_of(rows, k);
    assert(p == i) by {
        if p < i {
            assert(rows[p].0 != rows[i].0);
        } else if i < p {
            assert(rows[i].0 != rows[p].0);
        }
    }
}

/// Each entry of the map is a row.
pub proof fn lemma_table_entry<V>(rows: Seq<(int, V)>, k: int) -> (i: int)
    requires
        table_of(rows).contains_key(k),
    ensures
        0 <= i < rows.len(),
        rows[i].0 == k,
        table_of(rows)[k] == rows[i].1,
{
    assert(has_key(rows, k));
    position_of(rows, k)
}

/// Appending a row with a fresh key inserts it.
pub proof fn lemma_table_push<V>(rows: Seq<(int, V)>, k: int, v: V)
    requires
        keys_distinct(rows),
        !table_of(rows).contains_key(k),
    ensures
        keys_distinct(rows.push((k, v))),
        table_of(rows.push((k, v))) == table_of(rows).insert(k, v),
{
    let after = rows.push((k, v));
    assert(keys_distinct(after)) by {
        assert forall|i: int, j: int| 0 <= i < j < after.len() implies (#[trigger] after[i]).0 != (
        #[trigger] after[j]).0 by {
            if j == rows.len() {
                assert(after[i] == rows[i]);
                if rows[i].0 == k {
                    assert(has_key(rows, k));
                }
            } else {
                assert(after[i] == rows[i] && after[j] == rows[j]);
            }
        }
    }
    assert forall|key: int| #[trigger] table_of(after).contains_key(key) <==> table_of(rows).insert(
        k,
        v,
    ).contains_key(key) by {
        if has_key(rows, key) {
            let p = position_of(rows, key);
            assert(after[p].0 == key);
        }
        if has_key(after, key) {
            let p = position_of(after, key);
            if p < rows.len() {
                assert(rows[p].0 == key);
            }
        }
        if key == k {
            assert(after[rows.len() as int].0 == k);
        }
    }
    assert forall|key: int| #[trigger] table_of(after).contains_key(key) implies table_of(after)[key]
        == table_of(rows).insert(k, v)[key] by {
        let p = lemma_table_entry(after, key);
        if p < rows.len() {
            assert(rows[p] == after[p]);
            lemma_table_row(rows, p);
        }
    }
    assert(table_of(after) =~= table_of(rows).insert(k, v));
}

/// Replacing the value of a row replaces the entry.
pub proof fn lemma_table_update<V>(rows: Seq<(int, V)>, i: int, v: V)
    requires
        keys_distinct(rows),
        0 <= i < rows.len(),
    ensures
        keys_distinct(rows.update(i, (rows[i].0, v))),
        table_of(rows.update(i, (rows[i].0, v))) == table_of(rows).insert(rows[i].0, v),
{
    let k = rows[i].0;
    let after = rows.update(i, (k, v));
    assert(keys_distinct(after)) by {
        assert forall|a: int, b: int| 0 <= a < b < after.len() implies (#[trigger] after[a]).0 != (
        #[trigger] after[b]).0 by {
            assert(after[a].0 == rows[a].0 && after[b].0 == rows[b].0);
        }
    }
    assert forall|key: int| #[trigger] table_of(after).contains_key(key) <==> table_of(rows).insert(
        k,
        v,
    ).contains_key(key) by {
        if has_key(rows, key) {
            let p = position_of(rows, key);
            assert(after[p].0 == key);
        }
        if has_key(after, key) {
            let p = position_of(after, key);
            assert(rows[p].0 == key);
        }
        if key == k {
            assert(after[i].0 == k);
        }
    }
    assert forall|key: int| #[trigger] table_of(after).contains_key(key) implies table_of(after)[key]
        == table_of(rows).insert(k, v)[key] by {
        let p = lemma_table_entry(after, key);
        if p != i {
            assert(rows[p] == after[p]);
            lemma_table_row(rows, p);
        }
    }
    assert(table_of(after) =~= table_of(rows).insert(k, v));
}

/// Taking a row out removes the entry.
pub proof fn lemma_table_remove<V>(rows: Seq<(int, V)>, i: int)
    requires
        keys_distinct(rows),
        0 <= i < rows.len(),
    ensures
        keys_distinct(rows.remove(i)),
        table_of(rows.remove(i)) == table_of(rows).remove(rows[i].0),
{
    let k = rows[i].0;
    let after = rows.remove(i);
    assert forall|a: int| 0 <= a < after.len() implies #[trigger] after[a] == rows[if a < i {
        a
    } else {
        a + 1
    }] by {}
    assert(keys_distinct(after)) by {
        assert forall|a: int, b: int| 0 <= a < b < after.len() implies (#[trigger] after[a]).0 != (
        #[trigger] after[b]).0 by {
            let a0 = if a < i { a } else { a + 1 };
            let b0 = if b < i { b } else { b + 1 };
            assert(after[a] == rows[a0] && after[b] == rows[b0]);
            assert(rows[a0].0 != rows[b0].0);
        }
    }
    assert forall|key: int| #[trigger] table_of(after).contains_key(key) <==> table_of(rows).remove(
        k,
    ).contains_key(key) by {
        if has_key(rows, key) && key != k {
            let p = position_of(rows, key);
            let q = if p < i { p } else { p - 1 };
            assert(after[q] == rows[p]);
        }
        if has_key(after, key) {
            let q = position_of(after, key);
            let p = if q < i { q } else { q + 1 };
            assert(after[q] == rows[p]);
            assert(rows[p].0 == key);
            if key == k {
                if p < i {
                    assert(rows[p].0 != rows[i].0);
                } else {
                    assert(rows[i].0 != rows[p].0);
                }
            }
        }
    }
    assert forall|key: int| #[trigger] table_of(after).contains_key(key) implies table_of(after)[key]
        == table_of(rows).remove(k)[key] by {
        let q = lemma_table_entry(after, key);
        let p = if q < i { q } else { q + 1 };
        assert(after[q] == rows[p]);
        lemma_table_row(rows, p);
    }
    assert(table_of(after) =~= table_of(rows).remove(k));
}

} // verus!
