//! What holds of the hash table across several operations, stated over the
//! table's buckets.

use vstd::prelude::*;
use crate::table::{
    bucket_of, cells_delete, cells_get, cells_insert, distinct_keys, find, lemma_find_is,
    lemma_find_props, table_delete, table_get, table_insert, table_wf, Buckets, Cells,
};

verus! {

/// After `key` is set to `value` in a list of cells, a lookup of `key` finds
/// `value`, and the key's cell stands where `find` points.
pub proof fn lemma_cells_get_after_insert(cells: Cells, key: Seq<char>, value: Seq<char>)
    ensures
        cells_get(cells_insert(cells, key, value), key) == Some(value),
        find(cells_insert(cells, key, value), key) == find(cells, key),
{
    lemma_find_props(cells, key);
    lemma_find_is(cells_insert(cells, key, value), key, find(cells, key));
}

/// Setting one key in a list of cells leaves the lookup of every other key
/// as it was.
pub proof fn lemma_cells_insert_keeps_others(
    cells: Cells,
    key: Seq<char>,
    value: Seq<char>,
    other: Seq<char>,
)
    requires
        other != key,
    ensures
        cells_get(cells_insert(cells, key, value), other) == cells_get(cells, other),
{
    lemma_find_props(cells, key);
    lemma_find_props(cells, other);
    let after = cells_insert(cells, key, value);
    let q = find(cells, other);
    if q < cells.len() {
        lemma_find_is(after, other, q);
    } else {
        lemma_find_is(after, other, after.len() as int);
    }
}

/// Setting a key keeps the keys of a list of cells distinct.
pub proof fn lemma_cells_insert_distinct(cells: Cells, key: Seq<char>, value: Seq<char>)
    requires
        distinct_keys(cells),
    ensures
        distinct_keys(cells_insert(cells, key, value)),
{
    lemma_find_props(cells, key);
}

/// Deleting a key keeps the keys of a list of cells distinct.
pub proof fn lemma_cells_delete_distinct(cells: Cells, key: Seq<char>)
    requires
        distinct_keys(cells),
    ensures
        distinct_keys(cells_delete(cells, key)),
{
    lemma_find_props(cells, key);
}

/// After `key` is deleted from a list of cells with distinct keys, no cell
/// holds it.
pub proof fn lemma_cells_get_after_delete(cells: Cells, key: Seq<char>)
    requires
        distinct_keys(cells),
    ensures
        cells_get(cells_delete(cells, key), key) is None,
        forall|j: int| 0 <= j < cells_delete(cells, key).len() ==> cells_delete(cells, key)[j].0 != key,
{
    lemma_find_props(cells, key);
    let after = cells_delete(cells, key);
    let p = find(cells, key);
    assert forall|j: int| 0 <= j < after.len() implies after[j].0 != key by {
        if p < cells.len() {
            if j < p {
                assert(after[j] == cells[j]);
            } else {
                assert(after[j] == cells[j + 1]);
            }
        }
    }
    lemma_find_is(after, key, after.len() as int);
}

/// Deleting one key from a list of cells leaves the lookup of every other
/// key as it was.
pub proof fn lemma_cells_delete_keeps_others(cells: Cells, key: Seq<char>, other: Seq<char>)
    requires
        other != key,
    ensures
        cells_get(cells_delete(cells, key), other) == cells_get(cells, other),
{
    lemma_find_props(cells, key);
    lemma_find_props(cells, other);
    let after = cells_delete(cells, key);
    let p = find(cells, key);
    let q = find(cells, other);
    if p < cells.len() {
        let shifted = if q < p { q } else { q - 1 };
        assert forall|j: int| 0 <= j < shifted implies after[j].0 != other by {
            if j < p {
                assert(after[j] == cells[j]);
            } else {
                assert(after[j] == cells[j + 1]);
            }
        }
        if q < cells.len() {
            assert(after[shifted] == cells[q]);
        }
        lemma_find_is(after, other, shifted);
    }
}

/// After `insert(key, value)`, `get(key)` returns `value`.
pub proof fn lemma_get_after_insert(table: Buckets, key: Seq<char>, value: Seq<char>)
    requires
        table.len() > 0,
    ensures
        table_get(table_insert(table, key, value), key) == Some(value),
{
    let b = bucket_of(key, table.len());
    lemma_cells_get_after_insert(table[b], key, value);
}

/// After `delete(key)`, `get(key)` returns nothing.
pub proof fn lemma_get_after_delete(table: Buckets, key: Seq<char>)
    requires
        table.len() > 0,
        table_wf(table),
    ensures
        table_get(table_delete(table, key), key) is None,
{
    let b = bucket_of(key, table.len());
    lemma_cells_get_after_delete(table[b], key);
}

/// An insert or a delete of one key changes what `get` returns for no other
/// key: a key that was deleted stays absent until it is inserted again, and a
/// key that was inserted keeps its value until it is deleted or overwritten.
pub proof fn lemma_other_keys_untouched(
    table: Buckets,
    key: Seq<char>,
    value: Seq<char>,
    other: Seq<char>,
)
    requires
        table.len() > 0,
        other != key,
    ensures
        table_get(table_insert(table, key, value), other) == table_get(table, other),
        table_get(table_delete(table, key), other) == table_get(table, other),
{
    let b = bucket_of(key, table.len());
    lemma_cells_insert_keeps_others(table[b], key, value, other);
    lemma_cells_delete_keeps_others(table[b], key, other);
}

/// Inserts and deletes keep a table well formed.
pub proof fn lemma_wf_preserved(table: Buckets, key: Seq<char>, value: Seq<char>)
    requires
        table.len() > 0,
        table_wf(table),
    ensures
        table_wf(table_insert(table, key, value)),
        table_wf(table_delete(table, key)),
        table_insert(table, key, value).len() == table.len(),
        table_delete(table, key).len() == table.len(),
{
    let b = bucket_of(key, table.len());
    lemma_find_props(table[b], key);
    lemma_cells_insert_distinct(table[b], key, value);
    lemma_cells_delete_distinct(table[b], key);
    let inserted = table_insert(table, key, value);
    let deleted = table_delete(table, key);
    assert forall|c: int, i: int|
        0 <= c < inserted.len() && 0 <= i < inserted[c].len() implies bucket_of(
        (#[trigger] inserted[c][i]).0,
        inserted.len(),
    ) == c by {
        if c == b {
            if i < table[b].len() && i != find(table[b], key) {
                assert(inserted[c][i] == table[b][i]);
            }
        } else {
            assert(inserted[c][i] == table[c][i]);
        }
    }
    assert forall|c: int, i: int|
        0 <= c < deleted.len() && 0 <= i < deleted[c].len() implies bucket_of(
        (#[trigger] deleted[c][i]).0,
        deleted.len(),
    ) == c by {
        if c == b {
            let p = find(table[b], key);
            if p < table[b].len() {
                if i < p {
                    assert(deleted[c][i] == table[b][i]);
                } else {
                    assert(deleted[c][i] == table[b][i + 1]);
                }
            }
        } else {
            assert(deleted[c][i] == table[c][i]);
        }
    }
}

/// `insert(key, first)` followed by `insert(key, second)` leaves exactly one
/// cell for `key` in the key's bucket, and that cell holds `second`.
pub proof fn lemma_insert_twice(
    table: Buckets,
    key: Seq<char>,
    first: Seq<char>,
    second: Seq<char>,
)
    requires
        table.len() > 0,
        table_wf(table),
    ensures
        ({
            let after = table_insert(table_insert(table, key, first), key, second);
            let bucket = after[bucket_of(key, table.len())];
            let p = find(bucket, key);
            &&& after == table_insert(table, key, second)
            &&& 0 <= p < bucket.len()
            &&& bucket[p] == (key, second)
            &&& forall|j: int| 0 <= j < bucket.len() && j != p ==> bucket[j].0 != key
        }),
{
    let b = bucket_of(key, table.len());
    let once = table_insert(table, key, first);
    let after = table_insert(once, key, second);
    lemma_find_props(table[b], key);
    lemma_cells_get_after_insert(table[b], key, first);
    lemma_cells_insert_distinct(table[b], key, first);
    lemma_cells_get_after_insert(once[b], key, second);
    lemma_cells_insert_distinct(once[b], key, second);
    lemma_find_props(after[b], key);
    assert(after[b] =~= cells_insert(table[b], key, second));
    assert(after =~= table_insert(table, key, second));
}

/// Inserts into distinct buckets do not interfere: each leaves the other's
/// bucket as it was, and the two give the same table in either order.
pub proof fn lemma_distinct_buckets_independent(
    table: Buckets,
    key_a: Seq<char>,
    value_a: Seq<char>,
    key_b: Seq<char>,
    value_b: Seq<char>,
)
    requires
        table.len() > 0,
        bucket_of(key_a, table.len()) != bucket_of(key_b, table.len()),
    ensures
        table_insert(table, key_a, value_a)[bucket_of(key_b, table.len())] == table[bucket_of(
            key_b,
            table.len(),
        )],
        table_insert(table_insert(table, key_a, value_a), key_b, value_b) == table_insert(
            table_insert(table, key_b, value_b),
            key_a,
            value_a,
        ),
        table_get(table_insert(table_insert(table, key_a, value_a), key_b, value_b), key_a)
            == Some(value_a),
        table_get(table_insert(table_insert(table, key_a, value_a), key_b, value_b), key_b)
            == Some(value_b),
{
    let ab = table_insert(table_insert(table, key_a, value_a), key_b, value_b);
    let ba = table_insert(table_insert(table, key_b, value_b), key_a, value_a);
    assert(ab =~= ba);
    lemma_cells_get_after_insert(table[bucket_of(key_a, table.len())], key_a, value_a);
    lemma_cells_get_after_insert(table[bucket_of(key_b, table.len())], key_b, value_b);
}

/// The table as a map from the keys that a lookup finds to their values.
pub open spec fn contents(table: Buckets) -> Map<Seq<char>, Seq<char>> {
    Map::new(
        |key: Seq<char>| table_get(table, key) is Some,
        |key: Seq<char>| table_get(table, key).unwrap(),
    )
}

/// As a map, the table after `insert(key, value)` is the map with `key` set
/// to `value`, and after `delete(key)` it is the map without `key`.
pub proof fn lemma_contents(table: Buckets, key: Seq<char>, value: Seq<char>)
    requires
        table.len() > 0,
        table_wf(table),
    ensures
        contents(table_insert(table, key, value)) == contents(table).insert(key, value),
        contents(table_delete(table, key)) == contents(table).remove(key),
{
    lemma_get_after_insert(table, key, value);
    lemma_get_after_delete(table, key);
    assert forall|other: Seq<char>| other != key implies table_get(
        table_insert(table, key, value),
        other,
    ) == table_get(table, other) && table_get(table_delete(table, key), other) == table_get(
        table,
        other,
    ) by {
        lemma_other_keys_untouched(table, key, value, other);
    }
    assert(contents(table_insert(table, key, value)) =~= contents(table).insert(key, value));
    assert(contents(table_delete(table, key)) =~= contents(table).remove(key));
}

} // verus!
