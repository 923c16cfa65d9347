//! A table from keys to values, kept as rows in the order in which the keys were first stored.
use crate::primitives::{AccountId, H160};
use vstd::prelude::*;

verus! {

/// A key that can be told apart from another.
pub trait Key: Sized {
    /// Whether two keys are the same.
    fn same(&self, other: &Self) -> (same: bool)
        ensures
            same == (*self == *other),
    ;
}

impl Key for AccountId {
    fn same(&self, other: &AccountId) -> (same: bool) {
        crate::primitives::same_bytes(&self.0, &other.0)
    }
}

/// A key whose first part is a subnet.
pub trait SubnetKey: Key {
    /// The subnet of the key.
    spec fn subnet_of(&self) -> u16;

    /// The subnet of the key.
    fn subnet(&self) -> (netuid: u16)
        ensures
            netuid == self.subnet_of(),
    ;
}

impl SubnetKey for (u16, u16) {
    open spec fn subnet_of(&self) -> u16 {
        self.0
    }

    fn subnet(&self) -> (netuid: u16) {
        self.0
    }
}

impl SubnetKey for (u16, H160) {
    open spec fn subnet_of(&self) -> u16 {
        self.0
    }

    fn subnet(&self) -> (netuid: u16) {
        self.0
    }
}

/// A subnet and a neuron's position on it.
impl Key for (u16, u16) {
    fn same(&self, other: &(u16, u16)) -> (same: bool) {
        self.0 == other.0 && self.1 == other.1
    }
}

/// A subnet and an EVM address.
impl Key for (u16, H160) {
    fn same(&self, other: &(u16, H160)) -> (same: bool) {
        self.0 == other.0 && crate::primitives::same_bytes(&self.1.0, &other.1.0)
    }
}

/// A subnet and an account.
impl Key for (u16, AccountId) {
    fn same(&self, other: &(u16, AccountId)) -> (same: bool) {
        self.0 == other.0 && crate::primitives::same_bytes(&self.1.0, &other.1.0)
    }
}

/// An approver, and a spender with a subnet and the counter of its registration.
impl Key for (H160, (H160, u16, u64)) {
    fn same(&self, other: &(H160, (H160, u16, u64))) -> (same: bool) {
        crate::primitives::same_bytes(&self.0.0, &other.0.0)
            && crate::primitives::same_bytes(&self.1.0.0, &other.1.0.0)
            && self.1.1 == other.1.1 && self.1.2 == other.1.2
    }
}

/// Whether no key occurs in two rows.
pub open spec fn keys_distinct<K, V>(rows: Seq<(K, V)>) -> bool {
    forall|i: int, j: int|
        0 <= i < rows.len() && 0 <= j < rows.len() && i != j ==> #[trigger] rows[i].0
            != #[trigger] rows[j].0
}

/// Whether the row at `i` is the one of `key`.
pub open spec fn row_of<K, V>(rows: Seq<(K, V)>, key: K, i: int) -> bool {
    0 <= i < rows.len() && rows[i].0 == key
}

/// The map that rows with distinct keys stand for.
pub open spec fn rows_map<K, V>(rows: Seq<(K, V)>) -> Map<K, V> {
    Map::new(
        |key: K| exists|i: int| row_of(rows, key, i),
        |key: K| rows[choose|i: int| row_of(rows, key, i)].1,
    )
}

/// Where the row of a key stands.
pub open spec fn position_of<K, V>(rows: Seq<(K, V)>, key: K) -> int {
    choose|i: int| row_of(rows, key, i)
}

/// The rows after a key was given a value: in its row if it has one, and else in a new row at the
/// end.
pub open spec fn stored_rows<K, V>(rows: Seq<(K, V)>, key: K, value: V) -> Seq<(K, V)> {
    if rows_map(rows).contains_key(key) {
        rows.update(position_of(rows, key), (key, value))
    } else {
        rows.push((key, value))
    }
}

/// The rows without that of a key.
pub open spec fn dropped_rows<K, V>(rows: Seq<(K, V)>, key: K) -> Seq<(K, V)> {
    if rows_map(rows).contains_key(key) {
        rows.remove(position_of(rows, key))
    } else {
        rows
    }
}

/// The rows of other subnets, in their order.
pub open spec fn other_rows<K: SubnetKey, V>(rows: Seq<(K, V)>, netuid: u16) -> Seq<(K, V)> {
    rows.filter(|row: (K, V)| row.0.subnet_of() != netuid)
}

/// A map without the keys of one subnet.
pub open spec fn without_subnet<K: SubnetKey, V>(map: Map<K, V>, netuid: u16) -> Map<K, V> {
    Map::new(|key: K| map.contains_key(key) && key.subnet_of() != netuid, |key: K| map[key])
}

/// A row whose key occurs once gives the value of its key.
pub proof fn lemma_row<K, V>(rows: Seq<(K, V)>, i: int)
    requires
        keys_distinct(rows),
        0 <= i < rows.len(),
    ensures
        rows_map(rows).contains_key(rows[i].0),
        rows_map(rows)[rows[i].0] == rows[i].1,
{
    assert(row_of(rows, rows[i].0, i));
    let j = choose|j: int| row_of(rows, rows[i].0, j);
    assert(row_of(rows, rows[i].0, j));
}

/// Rows with distinct keys, and the map that they stand for.
pub struct StorageTable<K: Key, V: View> {
    entries: Vec<(K, V)>,
}

impl<K: Key, V: View> StorageTable<K, V> {
    /// The rows, in the order in which their keys were stored.
    pub closed spec fn rows(&self) -> Seq<(K, V::V)> {
        self.entries@.map_values(|row: (K, V)| (row.0, row.1@))
    }

    #[verifier::type_invariant]
    spec fn well_formed(self) -> bool {
        keys_distinct(self.rows())
    }
}

impl<K: Key, V: View> View for StorageTable<K, V> {
    type V = Map<K, V::V>;

    open spec fn view(&self) -> Map<K, V::V> {
        rows_map(self.rows())
    }
}

impl<K: Key, V: View> StorageTable<K, V> {
    /// The empty table.
    pub fn new() -> (table: StorageTable<K, V>)
        ensures
            table.rows() == Seq::<(K, V::V)>::empty(),
            table@ == Map::<K, V::V>::empty(),
    {
        let table = StorageTable { entries: Vec::new() };
        assert(table.rows() =~= Seq::empty());
        assert(table@ =~= Map::empty());
        table
    }

    /// The number of rows.
    pub fn len(&self) -> (len: usize)
        ensures
            len == self.rows().len(),
            keys_distinct(self.rows()),
    {
        proof {
            use_type_invariant(self);
        }
        self.entries.len()
    }

    /// The row at position `i`.
    pub fn row(&self, i: usize) -> (row: (&K, &V))
        requires
            i < self.rows().len(),
        ensures
            (*row.0, row.1@) == self.rows()[i as int],
    {
        let row = &self.entries[i];
        (&row.0, &row.1)
    }

    fn position(&self, key: &K) -> (position: Option<usize>)
        ensures
            match position {
                Some(i) => row_of(self.rows(), *key, i as int) && i == position_of(
                    self.rows(),
                    *key,
                ) && self@.contains_key(*key) && self@[*key] == self.rows()[i as int].1,
                None => !self@.contains_key(*key),
            },
    {
        proof {
            use_type_invariant(self);
        }
        let mut i: usize = 0;
        while i < self.entries.len()
            invariant
                i <= self.entries@.len(),
                keys_distinct(self.rows()),
                forall|j: int| 0 <= j < i ==> self.entries@[j].0 != *key,
            decreases self.entries@.len() - i,
        {
            if self.entries[i].0.same(key) {
                proof {
                    lemma_row(self.rows(), i as int);
                    assert(row_of(self.rows(), *key, position_of(self.rows(), *key)));
                }
                return Some(i);
            }
            i = i + 1;
        }
        assert forall|j: int| !row_of(self.rows(), *key, j) by {}
        None
    }

    /// The value of `key`, if it has one.
    pub fn get(&self, key: &K) -> (value: Option<&V>)
        ensures
            match value {
                Some(v) => self@.contains_key(*key) && v@ == self@[*key],
                None => !self@.contains_key(*key),
            },
    {
        match self.position(key) {
            Some(i) => Some(&self.entries[i].1),
            None => None,
        }
    }

    /// Gives `key` the value `value`, in its row if it has one and else in a new row at the end.
    pub fn insert(&mut self, key: K, value: V)
        ensures
            final(self)@ == old(self)@.insert(key, value@),
            final(self).rows() == stored_rows(old(self).rows(), key, value@),
    {
        proof {
            use_type_invariant(&*self);
        }
        if let Some(i) = self.position(&key) {
            self.set_row(i, key, value);
            return;
        }
        let ghost before = self.rows();
        let mut entries: Vec<(K, V)> = Vec::new();
        std::mem::swap(&mut entries, &mut self.entries);
        entries.push((key, value));
        let ghost after = entries@.map_values(|row: (K, V)| (row.0, row.1@));
        assert(after =~= before.push((key, value@)));
        proof {
            lemma_push(before, key, value@);
        }
        self.entries = entries;
    }

    /// Writes `value` over the value of the row at position `i`.
    pub fn set_row(&mut self, i: usize, key: K, value: V)
        requires
            i < old(self).rows().len(),
            key == old(self).rows()[i as int].0,
        ensures
            final(self).rows() == old(self).rows().update(i as int, (key, value@)),
            final(self)@ == old(self)@.insert(key, value@),
    {
        proof {
            use_type_invariant(&*self);
            lemma_update(self.rows(), i as int, key, value@);
        }
        let ghost before = self.rows();
        let mut entries: Vec<(K, V)> = Vec::new();
        std::mem::swap(&mut entries, &mut self.entries);
        entries.set(i, (key, value));
        let ghost after = entries@.map_values(|row: (K, V)| (row.0, row.1@));
        assert(after =~= before.update(i as int, (key, value@)));
        self.entries = entries;
    }

    /// Removes the row at position `i`, and gives its value.
    fn remove_row(&mut self, i: usize) -> (value: V)
        requires
            i < old(self).rows().len(),
        ensures
            final(self).rows() == old(self).rows().remove(i as int),
            final(self)@ == old(self)@.remove(old(self).rows()[i as int].0),
            value@ == old(self).rows()[i as int].1,
    {
        proof {
            use_type_invariant(&*self);
            lemma_remove(self.rows(), i as int);
        }
        let ghost before = self.rows();
        let mut entries: Vec<(K, V)> = Vec::new();
        std::mem::swap(&mut entries, &mut self.entries);
        let row = entries.remove(i);
        let ghost after = entries@.map_values(|row: (K, V)| (row.0, row.1@));
        assert(after =~= before.remove(i as int));
        self.entries = entries;
        row.1
    }

    /// Takes `key` and its value out of the table.
    pub fn take(&mut self, key: &K) -> (value: Option<V>)
        ensures
            final(self)@ == old(self)@.remove(*key),
            final(self).rows() == dropped_rows(old(self).rows(), *key),
            match value {
                Some(v) => old(self)@.contains_key(*key) && v@ == old(self)@[*key],
                None => !old(self)@.contains_key(*key),
            },
    {
        match self.position(key) {
            Some(i) => Some(self.remove_row(i)),
            None => {
                assert(self@ =~= old(self)@.remove(*key));
                None
            },
        }
    }
}

impl<K: SubnetKey, V: View> StorageTable<K, V> {
    /// Removes every row of the subnet `netuid`.
    pub fn clear_prefix(&mut self, netuid: u16)
        ensures
            final(self)@ == without_subnet(old(self)@, netuid),
            final(self).rows() == other_rows(old(self).rows(), netuid),
    {
        let ghost before = self.rows();
        let ghost mut seen: int = 0;
        let mut i: usize = 0;
        proof {
            use_type_invariant(&*self);
            reveal(Seq::filter);
            assert(other_rows(before.take(0), netuid) =~= Seq::empty());
            assert(self.rows() =~= other_rows(before.take(0), netuid) + before.skip(0));
        }
        while i < self.len()
            invariant
                before == old(self).rows(),
                0 <= seen <= before.len(),
                i == other_rows(before.take(seen), netuid).len(),
                self.rows() == other_rows(before.take(seen), netuid) + before.skip(seen),
            decreases before.len() - seen,
        {
            let row = self.row(i);
            let ghost shorter = before.take(seen);
            proof {
                reveal(Seq::filter);
                assert(self.rows()[i as int] == before[seen]);
                assert(before.take(seen + 1).drop_last() =~= shorter);
                assert(before.take(seen + 1).last() == before[seen]);
            }
            if row.0.subnet() == netuid {
                let _ = self.remove_row(i);
            } else {
                i = i + 1;
            }
            proof {
                seen = seen + 1;
                assert(self.rows() =~= other_rows(before.take(seen), netuid) + before.skip(seen));
            }
        }
        proof {
            assert(before.skip(seen) =~= Seq::empty());
            assert(before.take(seen) =~= before);
            assert(self.rows() =~= other_rows(before, netuid));
            lemma_other_rows(before, netuid);
        }
    }
}

/// Dropping the rows of a subnet drops its keys, and nothing else.
proof fn lemma_other_rows<K: SubnetKey, V>(rows: Seq<(K, V)>, netuid: u16)
    requires
        keys_distinct(rows),
    ensures
        keys_distinct(other_rows(rows, netuid)),
        rows_map(other_rows(rows, netuid)) == without_subnet(rows_map(rows), netuid),
    decreases rows.len(),
{
    reveal(Seq::filter);
    let after = other_rows(rows, netuid);
    let expected = without_subnet(rows_map(rows), netuid);
    if rows.len() == 0 {
        assert(rows_map(after) =~= expected);
    } else {
        let shorter = rows.drop_last();
        let key = rows.last().0;
        let value = rows.last().1;
        assert(keys_distinct(shorter));
        lemma_other_rows(shorter, netuid);
        assert(!rows_map(shorter).contains_key(key)) by {
            if rows_map(shorter).contains_key(key) {
                let i = choose|i: int| row_of(shorter, key, i);
                assert(rows[i].0 == rows[rows.len() - 1].0);
            }
        }
        lemma_push(shorter, key, value);
        assert(shorter.push(rows.last()) =~= rows);
        if key.subnet_of() != netuid {
            lemma_push(other_rows(shorter, netuid), key, value);
            assert(after =~= other_rows(shorter, netuid).push(rows.last()));
        }
        assert(rows_map(after) =~= expected);
    }
}

/// Writing over a row changes the value of its key and nothing else.
proof fn lemma_update<K, V>(rows: Seq<(K, V)>, i: int, key: K, value: V)
    requires
        keys_distinct(rows),
        row_of(rows, key, i),
    ensures
        keys_distinct(rows.update(i, (key, value))),
        rows_map(rows.update(i, (key, value))) == rows_map(rows).insert(key, value),
{
    let after = rows.update(i, (key, value));
    assert(keys_distinct(after)) by {
        assert(forall|j: int| 0 <= j < rows.len() ==> after[j].0 == #[trigger] rows[j].0);
    }
    assert forall|k: K|
        rows_map(after).contains_key(k) <==> rows_map(rows).insert(key, value).contains_key(k) by {
        if rows_map(after).contains_key(k) {
            let j = choose|j: int| row_of(after, k, j);
            assert(row_of(rows, k, j));
        }
        if rows_map(rows).contains_key(k) {
            let j = choose|j: int| row_of(rows, k, j);
            assert(row_of(after, k, j));
        }
        assert(row_of(after, key, i));
    }
    assert forall|k: K| rows_map(after).contains_key(k) implies #[trigger] rows_map(after)[k]
        == rows_map(rows).insert(key, value)[k] by {
        let j = choose|j: int| row_of(after, k, j);
        lemma_row(after, j);
        lemma_row(rows, j);
    }
    assert(rows_map(after) =~= rows_map(rows).insert(key, value));
}

/// A row with a new key adds that key and nothing else.
proof fn lemma_push<K, V>(rows: Seq<(K, V)>, key: K, value: V)
    requires
        keys_distinct(rows),
        !rows_map(rows).contains_key(key),
    ensures
        keys_distinct(rows.push((key, value))),
        rows_map(rows.push((key, value))) == rows_map(rows).insert(key, value),
{
    let after = rows.push((key, value));
    assert forall|j: int| 0 <= j < rows.len() implies #[trigger] rows[j].0 != key by {
        lemma_row(rows, j);
    }
    assert forall|k: K|
        rows_map(after).contains_key(k) <==> rows_map(rows).insert(key, value).contains_key(k) by {
        if rows_map(after).contains_key(k) {
            let j = choose|j: int| row_of(after, k, j);
            if j < rows.len() {
                assert(row_of(rows, k, j));
            }
        }
        if rows_map(rows).contains_key(k) {
            let j = choose|j: int| row_of(rows, k, j);
            assert(row_of(after, k, j));
        }
        assert(row_of(after, key, rows.len() as int));
    }
    assert forall|k: K| rows_map(after).contains_key(k) implies #[trigger] rows_map(after)[k]
        == rows_map(rows).insert(key, value)[k] by {
        let j = choose|j: int| row_of(after, k, j);
        lemma_row(after, j);
        if j < rows.len() {
            lemma_row(rows, j);
        }
    }
    assert(rows_map(after) =~= rows_map(rows).insert(key, value));
}

/// Removing a row removes its key and nothing else.
proof fn lemma_remove<K, V>(rows: Seq<(K, V)>, i: int)
    requires
        keys_distinct(rows),
        0 <= i < rows.len(),
    ensures
        keys_distinct(rows.remove(i)),
        rows_map(rows.remove(i)) == rows_map(rows).remove(rows[i].0),
{
    let after = rows.remove(i);
    let key = rows[i].0;
    assert forall|j: int| 0 <= j < after.len() implies #[trigger] after[j] == rows[if j < i {
        j
    } else {
        j + 1
    }] by {}
    assert forall|k: K|
        rows_map(after).contains_key(k) <==> rows_map(rows).remove(key).contains_key(k) by {
        if rows_map(after).contains_key(k) {
            let j = choose|j: int| row_of(after, k, j);
            let l = if j < i {
                j
            } else {
                j + 1
            };
            assert(row_of(rows, k, l));
            assert(rows[l].0 != rows[i].0);
        }
        if rows_map(rows).remove(key).contains_key(k) {
            let j = choose|j: int| row_of(rows, k, j);
            let l = if j < i {
                j
            } else {
                j - 1
            };
            assert(row_of(after, k, l));
        }
    }
    assert forall|k: K| rows_map(after).contains_key(k) implies #[trigger] rows_map(after)[k]
        == rows_map(rows).remove(key)[k] by {
        let j = choose|j: int| row_of(after, k, j);
        let l = if j < i {
            j
        } else {
            j + 1
        };
        lemma_row(after, j);
        lemma_row(rows, l);
    }
    assert(rows_map(after) =~= rows_map(rows).remove(key));
}

} // verus!
