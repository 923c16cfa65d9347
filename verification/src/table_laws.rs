//! What the operations on a table do, row by row.
use crate::selection::{lemma_picks_last, lemma_picks_none, picks};
use crate::storage_table::{
    dropped_rows, lemma_row, other_rows, position_of, row_of, rows_map, stored_rows, Key,
    StorageTable, SubnetKey,
};
use vstd::prelude::*;

verus! {

/// Whether some row has the key.
pub open spec fn has_row<K, V>(rows: Seq<(K, V)>, key: K) -> bool {
    exists|i: int| 0 <= i < rows.len() && (#[trigger] rows[i]).0 == key
}

/// Whether a value was stored: in the place of a row that has its key, or in a new last row where
/// none has; every other row stays where it is.
pub open spec fn stores<K, V>(before: Seq<(K, V)>, after: Seq<(K, V)>, key: K, value: V) -> bool {
    if has_row(before, key) {
        exists|place: int|
            0 <= place < before.len() && (#[trigger] before[place]).0 == key && after
                == before.update(place, (key, value))
    } else {
        after == before.push((key, value))
    }
}

/// Whether a row that has the key was taken out, with the others left in their order, and nothing
/// where none has it.
pub open spec fn removes<K, V>(before: Seq<(K, V)>, after: Seq<(K, V)>, key: K) -> bool {
    if has_row(before, key) {
        exists|place: int|
            0 <= place < before.len() && (#[trigger] before[place]).0 == key && after
                == before.take(place) + before.skip(place + 1)
    } else {
        after == before
    }
}

/// Rows are stored as they should be.
pub proof fn lemma_stores<K, V>(rows: Seq<(K, V)>, key: K, value: V)
    ensures
        stores(rows, stored_rows(rows, key, value), key, value),
{
    lemma_has_row(rows, key);
    if has_row(rows, key) {
        assert(row_of(rows, key, position_of(rows, key)));
        assert(rows[position_of(rows, key)].0 == key);
    }
}

/// Rows are taken out as they should be.
pub proof fn lemma_removes<K, V>(rows: Seq<(K, V)>, key: K)
    ensures
        removes(rows, dropped_rows(rows, key), key),
{
    lemma_has_row(rows, key);
    if has_row(rows, key) {
        let place = position_of(rows, key);
        assert(row_of(rows, key, place));
        assert(rows[place].0 == key);
        assert(rows.remove(place) =~= rows.take(place) + rows.skip(place + 1));
    }
}

/// Rows that have a key have it in the map that they stand for, and the other way round.
proof fn lemma_has_row<K, V>(rows: Seq<(K, V)>, key: K)
    ensures
        has_row(rows, key) <==> rows_map(rows).contains_key(key),
{
    if has_row(rows, key) {
        let i = choose|i: int| 0 <= i < rows.len() && (#[trigger] rows[i]).0 == key;
        assert(row_of(rows, key, i));
    }
    if rows_map(rows).contains_key(key) {
        let i = choose|i: int| row_of(rows, key, i);
        assert(rows[i].0 == key);
    }
}

/// A table has no key in two rows, tells how many rows it has, and stands for the map from the keys
/// of its rows to their values.
pub proof fn law_table<K: Key, V: View>(table: StorageTable<K, V>, len: usize)
    requires
        call_ensures(StorageTable::<K, V>::len, (&table,), len),
    ensures
        len == table.rows().len(),
        forall|i: int, j: int|
            0 <= i < j < table.rows().len() ==> (#[trigger] table.rows()[i]).0 != (
            #[trigger] table.rows()[j]).0,
        forall|key: K| #[trigger] table@.contains_key(key) <==> has_row(table.rows(), key),
        forall|i: int|
            0 <= i < table.rows().len() ==> table@[(#[trigger] table.rows()[i]).0]
                == table.rows()[i].1,
{
    assert forall|key: K| #[trigger] table@.contains_key(key) <==> has_row(table.rows(), key) by {
        lemma_has_row(table.rows(), key);
    }
    assert forall|i: int| 0 <= i < table.rows().len() implies table@[(
    #[trigger] table.rows()[i]).0] == table.rows()[i].1 by {
        lemma_row(table.rows(), i);
    }
}

/// A key is looked up in the row that has it.
pub proof fn law_table_get<K: Key, V: View>(
    table: StorageTable<K, V>,
    key: K,
    len: usize,
    value: Option<&V>,
)
    requires
        call_ensures(StorageTable::<K, V>::len, (&table,), len),
        call_ensures(StorageTable::<K, V>::get, (&table, &key), value),
    ensures
        value is Some <==> has_row(table.rows(), key),
        value matches Some(v) ==> forall|i: int|
            0 <= i < table.rows().len() && (#[trigger] table.rows()[i]).0 == key ==> v@
                == table.rows()[i].1,
{
    lemma_has_row(table.rows(), key);
    assert forall|i: int| 0 <= i < table.rows().len() && (#[trigger] table.rows()[i]).0
        == key implies table@[key] == table.rows()[i].1 by {
        lemma_row(table.rows(), i);
    }
}

/// A row is read where it stands.
pub proof fn law_table_row<K: Key, V: View>(table: StorageTable<K, V>, i: usize, row: (&K, &V))
    requires
        i < table.rows().len(),
        call_ensures(StorageTable::<K, V>::row, (&table, i), row),
    ensures
        *row.0 == table.rows()[i as int].0,
        row.1@ == table.rows()[i as int].1,
{
}

/// A new table has no rows.
pub proof fn law_table_new<K: Key, V: View>(table: StorageTable<K, V>)
    requires
        call_ensures(StorageTable::<K, V>::new, (), table),
    ensures
        table.rows().len() == 0,
        forall|key: K| !#[trigger] table@.contains_key(key),
{
}

/// Storing a value puts it into the row of its key, or into a new last row; every other row stays
/// where it is, and every other key keeps its value.
pub proof fn law_table_insert<K: Key, V: View>(
    table: &mut StorageTable<K, V>,
    key: K,
    value: V,
    len: usize,
)
    requires
        call_ensures(StorageTable::<K, V>::len, (&*old(table),), len),
        call_ensures(StorageTable::<K, V>::insert, (table, key, value), ()),
    ensures
        final(table)@.contains_key(key),
        final(table)@[key] == value@,
        forall|other: K|
            other != key ==> (#[trigger] final(table)@.contains_key(other) <==> old(
                table,
            )@.contains_key(other)),
        forall|other: K|
            other != key && old(table)@.contains_key(other) ==> #[trigger] final(table)@[other]
                == old(table)@[other],
        final(table).rows().len() == old(table).rows().len() + if has_row(old(table).rows(), key) {
            0int
        } else {
            1int
        },
        !has_row(old(table).rows(), key) ==> final(table).rows()[old(table).rows().len() as int]
            == (key, value@),
        forall|i: int|
            0 <= i < old(table).rows().len() ==> #[trigger] final(table).rows()[i] == if old(
                table,
            ).rows()[i].0 == key {
                (key, value@)
            } else {
                old(table).rows()[i]
            },
{
    let rows = old(table).rows();
    lemma_has_row(rows, key);
    if has_row(rows, key) {
        let place = position_of(rows, key);
        assert(row_of(rows, key, place));
        assert forall|i: int| 0 <= i < rows.len() && i != place implies (#[trigger] rows[i]).0
            != key by {
            assert(rows[i].0 != rows[place].0);
        }
    } else {
        assert forall|i: int| 0 <= i < rows.len() implies (#[trigger] rows[i]).0 != key by {
            if rows[i].0 == key {
                assert(has_row(rows, key));
            }
        }
    }
}

/// Replacing the value of a row replaces that of its key, and nothing else.
pub proof fn law_table_set_row<K: Key, V: View>(
    table: &mut StorageTable<K, V>,
    i: usize,
    key: K,
    value: V,
)
    requires
        i < old(table).rows().len(),
        key == old(table).rows()[i as int].0,
        call_ensures(StorageTable::<K, V>::set_row, (table, i, key, value), ()),
    ensures
        final(table).rows().len() == old(table).rows().len(),
        forall|j: int|
            0 <= j < old(table).rows().len() ==> #[trigger] final(table).rows()[j] == if j == i {
                (key, value@)
            } else {
                old(table).rows()[j]
            },
{
}

/// Taking a key out takes its row out and gives its value; the other rows stay in their order.
pub proof fn law_table_take<K: Key, V: View>(
    table: &mut StorageTable<K, V>,
    key: K,
    len: usize,
    value: Option<V>,
)
    requires
        call_ensures(StorageTable::<K, V>::len, (&*old(table),), len),
        call_ensures(StorageTable::<K, V>::take, (table, &key), value),
    ensures
        value is Some <==> has_row(old(table).rows(), key),
        value matches Some(v) ==> v@ == old(table)@[key],
        !final(table)@.contains_key(key),
        forall|other: K|
            other != key ==> (#[trigger] final(table)@.contains_key(other) <==> old(
                table,
            )@.contains_key(other)),
        forall|other: K|
            other != key && old(table)@.contains_key(other) ==> #[trigger] final(table)@[other]
                == old(table)@[other],
        removes(old(table).rows(), final(table).rows(), key),
{
    lemma_has_row(old(table).rows(), key);
    lemma_removes(old(table).rows(), key);
}

/// Whether `at` are the positions of the rows of other subnets, from the first to the last.
pub open spec fn elsewhere<K: SubnetKey, V>(at: Seq<int>, rows: Seq<(K, V)>, netuid: u16) -> bool {
    picks(at, rows, |row: (K, V)| row.0.subnet_of() != netuid)
}

/// A last row stays behind those before it, if it is one of another subnet.
proof fn lemma_elsewhere<K: SubnetKey, V>(at: Seq<int>, rows: Seq<(K, V)>, netuid: u16)
    requires
        rows.len() > 0,
        elsewhere(at, rows.drop_last(), netuid),
    ensures
        forall|k: int| 0 <= k < at.len() ==> 0 <= #[trigger] at[k] < rows.len() - 1,
        rows.last().0.subnet_of() != netuid ==> elsewhere(at.push(rows.len() - 1), rows, netuid),
        rows.last().0.subnet_of() == netuid ==> elsewhere(at, rows, netuid),
{
    let keep = |row: (K, V)| row.0.subnet_of() != netuid;
    assert(picks(at, rows.drop_last(), keep));
    lemma_picks_last(at, rows, keep);
}

/// The rows of other subnets have positions.
pub proof fn lemma_other_positions<K: SubnetKey, V>(rows: Seq<(K, V)>, netuid: u16) -> (at: Seq<int>)
    ensures
        elsewhere(at, rows, netuid),
        other_rows(rows, netuid).len() == at.len(),
        forall|k: int|
            0 <= k < at.len() ==> #[trigger] other_rows(rows, netuid)[k] == rows[at[k]],
    decreases rows.len(),
{
    reveal(Seq::filter);
    if rows.len() == 0 {
        lemma_picks_none(rows, |row: (K, V)| row.0.subnet_of() != netuid);
        Seq::empty()
    } else {
        let shorter = rows.drop_last();
        let at = lemma_other_positions(shorter, netuid);
        lemma_elsewhere(at, rows, netuid);
        let some = other_rows(shorter, netuid);
        let all = other_rows(rows, netuid);
        if rows.last().0.subnet_of() != netuid {
            let more = at.push(rows.len() - 1);
            assert(all =~= some.push(rows.last()));
            assert forall|k: int| 0 <= k < more.len() implies #[trigger] all[k] == rows[more[k]] by {
                if k < at.len() {
                    assert(more[k] == at[k]);
                    assert(all[k] == some[k]);
                    assert(shorter[at[k]] == rows[at[k]]);
                }
            }
            more
        } else {
            assert(all =~= some);
            assert forall|k: int| 0 <= k < at.len() implies #[trigger] all[k] == rows[at[k]] by {
                assert(all[k] == some[k]);
                assert(shorter[at[k]] == rows[at[k]]);
            }
            at
        }
    }
}

/// Clearing a subnet leaves the rows of the others, in their order.
pub proof fn law_table_clear_prefix<K: SubnetKey, V: View>(
    table: &mut StorageTable<K, V>,
    netuid: u16,
)
    requires
        call_ensures(StorageTable::<K, V>::clear_prefix, (table, netuid), ()),
    ensures
        exists|at: Seq<int>| #[trigger]
            elsewhere(at, old(table).rows(), netuid) && final(table).rows().len() == at.len()
                && forall|k: int|
                0 <= k < at.len() ==> #[trigger] final(table).rows()[k] == old(
                    table,
                ).rows()[at[k]],
{
    let at = lemma_other_positions(old(table).rows(), netuid);
}

} // verus!
