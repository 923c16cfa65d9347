//! What holds of associations over any number of operations.
use crate::evm::bucket::{
    at_block, blocks_ascend, first_at, stably_sorted, tracked_at, tracks, upserted, without_uid,
};
use crate::evm::error::AssociationError;
use crate::evm::index::{bucket_of, remapped_bucket, remapped_uid, uids_distinct, EvmIndex};
use crate::evm::migration::entered;
use crate::evm::pallet::{Origin, Pallet};
use crate::evm::signature::{association_digest, normalized, signer_address};
use crate::primitives::{AccountId, H160};
use crate::storage_table::{keys_distinct, lemma_row, row_of, rows_map};
use vstd::prelude::*;

verus! {

/// What dropping a neuron leaves of a bucket: the entries of the others.
proof fn lemma_without_uid(bucket: Seq<(u16, u64)>, uid: u16)
    ensures
        forall|e: (u16, u64)| #[trigger]
            without_uid(bucket, uid).contains(e) <==> bucket.contains(e) && e.0 != uid,
        without_uid(bucket, uid).len() <= bucket.len(),
        uids_distinct(bucket) ==> uids_distinct(without_uid(bucket, uid)),
    decreases bucket.len(),
{
    reveal(Seq::filter);
    if bucket.len() > 0 {
        let shorter = bucket.drop_last();
        let last = bucket.last();
        lemma_without_uid(shorter, uid);
        let kept = without_uid(shorter, uid);
        let all = without_uid(bucket, uid);
        assert forall|e: (u16, u64)| #[trigger] all.contains(e) <==> bucket.contains(e) && e.0
            != uid by {
            assert(kept.contains(e) <==> shorter.contains(e) && e.0 != uid);
            if all.contains(e) {
                let i = choose|i: int| 0 <= i < all.len() && all[i] == e;
                if i < kept.len() {
                    assert(kept[i] == e);
                    let j = choose|j: int| 0 <= j < shorter.len() && shorter[j] == e;
                    assert(bucket[j] == e);
                } else {
                    assert(bucket[bucket.len() - 1] == e);
                }
            }
            if bucket.contains(e) && e.0 != uid {
                let j = choose|j: int| 0 <= j < bucket.len() && bucket[j] == e;
                if j < shorter.len() {
                    assert(shorter[j] == e);
                    let i = choose|i: int| 0 <= i < kept.len() && kept[i] == e;
                    assert(all[i] == e);
                } else {
                    assert(all[kept.len() as int] == e);
                }
            }
        }
        if uids_distinct(bucket) {
            assert(uids_distinct(shorter));
            if last.0 != uid {
                assert forall|i: int| 0 <= i < kept.len() implies (#[trigger] kept[i]).0 != last.0 by {
                    assert(kept.contains(kept[i]));
                    let j = choose|j: int| 0 <= j < shorter.len() && shorter[j] == kept[i];
                    assert(bucket[j] == kept[i]);
                    assert(bucket[bucket.len() - 1] == last);
                }
                assert(all =~= kept.push(last));
            }
        }
    }
}

/// What entering a neuron makes of a bucket that has room: its entry, and those of the others.
proof fn lemma_upserted(bucket: Seq<(u16, u64)>, uid: u16, block: u64, capacity: nat)
    requires
        tracks(bucket, uid) || bucket.len() < capacity,
    ensures
        uids_distinct(bucket) ==> uids_distinct(upserted(bucket, uid, block, capacity)),
        uids_distinct(bucket) ==> forall|e: (u16, u64)| #[trigger]
            upserted(bucket, uid, block, capacity).contains(e) <==> e == (uid, block) || (
            bucket.contains(e) && e.0 != uid),
        upserted(bucket, uid, block, capacity).contains((uid, block)),
        forall|e: (u16, u64)| #[trigger]
            upserted(bucket, uid, block, capacity).contains(e) && e.0 != uid <==> bucket.contains(e)
                && e.0 != uid,
        upserted(bucket, uid, block, capacity).len() == if tracks(bucket, uid) {
            bucket.len()
        } else {
            bucket.len() + 1
        },
{
    let after = upserted(bucket, uid, block, capacity);
    if tracks(bucket, uid) {
        lemma_first(bucket, uid);
        let first = choose|i: int| first_at(bucket, uid, i);
        assert(first_at(bucket, uid, first));
        assert(after =~= bucket.update(first, (uid, block)));
        assert(after[first] == (uid, block));
        assert forall|e: (u16, u64)| #[trigger] after.contains(e) implies e == (uid, block) || (
        bucket.contains(e) && (uids_distinct(bucket) ==> e.0 != uid)) by {
            let i = choose|i: int| 0 <= i < after.len() && after[i] == e;
            if i != first {
                assert(bucket[i] == e);
                assert(bucket[first].0 == uid);
            }
        }
        assert forall|e: (u16, u64)| bucket.contains(e) && e.0 != uid implies #[trigger]
            after.contains(e) by {
            let i = choose|i: int| 0 <= i < bucket.len() && bucket[i] == e;
            assert(after[i] == e);
        }
        assert(forall|i: int| 0 <= i < bucket.len() ==> (#[trigger] after[i]).0 == bucket[i].0);
    } else {
        assert(forall|i: int| 0 <= i < bucket.len() ==> (#[trigger] bucket[i]).0 != uid) by {
            if exists|i: int| 0 <= i < bucket.len() && (#[trigger] bucket[i]).0 == uid {
                let i = choose|i: int| 0 <= i < bucket.len() && (#[trigger] bucket[i]).0 == uid;
                assert(tracked_at(bucket, uid, i));
            }
        }
        assert forall|e: (u16, u64)| #[trigger] after.contains(e) <==> e == (uid, block) || (
        bucket.contains(e) && e.0 != uid) by {
            if after.contains(e) {
                let i = choose|i: int| 0 <= i < after.len() && after[i] == e;
                if i < bucket.len() {
                    assert(bucket[i] == e);
                }
            }
            if bucket.contains(e) {
                let i = choose|i: int| 0 <= i < bucket.len() && bucket[i] == e;
                assert(after[i] == e);
            }
            assert(after[bucket.len() as int] == (uid, block));
        }
    }
}

/// A neuron with an entry has a first one.
pub proof fn lemma_first(bucket: Seq<(u16, u64)>, uid: u16)
    requires
        tracks(bucket, uid),
    ensures
        exists|i: int| first_at(bucket, uid, i),
    decreases bucket.len(),
{
    let i = choose|i: int| tracked_at(bucket, uid, i);
    let front = bucket.take(i);
    if tracks(front, uid) {
        lemma_first(front, uid);
        let j = choose|j: int| first_at(front, uid, j);
        assert(bucket[j] == front[j]);
        assert(forall|k: int| 0 <= k < j ==> #[trigger] bucket[k] == front[k]);
        assert(first_at(bucket, uid, j));
    } else {
        assert forall|k: int| 0 <= k < i implies (#[trigger] bucket[k]).0 != uid by {
            if bucket[k].0 == uid {
                assert(tracked_at(front, uid, k));
            }
        }
        assert(first_at(bucket, uid, i));
    }
}

/// In a consistent index an entry of a bucket is the association of its neuron.
proof fn lemma_entry_backed(s: EvmIndex, capacity: nat, netuid: u16, key: H160, e: (u16, u64))
    requires
        s.consistent(capacity),
        s.bucket(netuid, key).contains(e),
    ensures
        s.reverse.contains_key((netuid, key)),
        s.forward.contains_key((netuid, e.0)),
        s.forward[(netuid, e.0)] == (key, e.1),
{
    let bucket = s.bucket(netuid, key);
    let i = choose|i: int| 0 <= i < bucket.len() && bucket[i] == e;
    assert(s.backed(netuid, key, i));
}

/// In a consistent index every bucket, the empty one of an unknown address too, has each neuron
/// once.
proof fn lemma_bucket_distinct(s: EvmIndex, capacity: nat, netuid: u16, key: H160)
    requires
        s.consistent(capacity),
    ensures
        uids_distinct(s.bucket(netuid, key)),
        s.bucket(netuid, key).len() <= capacity,
{
    if s.reverse.contains_key((netuid, key)) {
        assert(s.bucket_sound(netuid, key, capacity));
    }
}

/// An index is consistent if its buckets are sound and hold exactly the associations.
proof fn lemma_consistent(s: EvmIndex, capacity: nat)
    requires
        forall|netuid: u16, key: H160, e: (u16, u64)| #[trigger]
            s.bucket(netuid, key).contains(e) <==> s.forward.contains_key((netuid, e.0))
                && s.forward[(netuid, e.0)] == (key, e.1),
        forall|netuid: u16, key: H160|
            s.reverse.contains_key((netuid, key)) ==> #[trigger] s.bucket_sound(
                netuid,
                key,
                capacity,
            ),
    ensures
        s.consistent(capacity),
{
    assert forall|netuid: u16, uid: u16| #[trigger]
        s.forward.contains_key((netuid, uid)) implies s.listed(netuid, uid) by {
        let key = s.forward[(netuid, uid)].0;
        let block = s.forward[(netuid, uid)].1;
        assert(s.bucket(netuid, key).contains((uid, block)));
    }
    assert forall|netuid: u16, key: H160, i: int|
        s.reverse.contains_key((netuid, key)) && 0 <= i < s.reverse[(netuid, key)].len() implies
            #[trigger] s.backed(netuid, key, i) by {
        assert(s.bucket(netuid, key).contains(s.reverse[(netuid, key)][i]));
    }
}

/// Dropping a neuron from the bucket of an address changes that bucket alone.
proof fn lemma_drop_uid(s: EvmIndex, netuid: u16, key: H160, uid: u16)
    ensures
        s.drop_uid(netuid, key, uid).forward == s.forward,
        s.drop_uid(netuid, key, uid).bucket(netuid, key) == without_uid(s.bucket(netuid, key), uid),
        forall|n: u16, k: H160|
            (n, k) != (netuid, key) ==> #[trigger] s.drop_uid(netuid, key, uid).bucket(n, k)
                == s.bucket(n, k),
{
    reveal(Seq::filter);
    assert(without_uid(Seq::empty(), uid) =~= Seq::empty());
    let after = s.drop_uid(netuid, key, uid);
    if s.reverse.contains_key((netuid, key)) && without_uid(s.reverse[(netuid, key)], uid).len()
        == 0 {
        assert(after.bucket(netuid, key) =~= without_uid(s.bucket(netuid, key), uid));
    }
}

/// The two maps are consistent before anything is associated, whatever a bucket may hold.
pub proof fn law_empty_index_is_consistent(capacity: nat)
    ensures
        (EvmIndex { forward: Map::empty(), reverse: Map::empty() }).consistent(capacity),
{
}

/// The two maps stay consistent when a neuron is associated with an address that has room for it.
pub proof fn law_associate_keeps_consistency(
    s: EvmIndex,
    netuid: u16,
    uid: u16,
    key: H160,
    block: u64,
    capacity: nat,
)
    requires
        s.consistent(capacity),
        s.has_room(netuid, uid, key, capacity),
    ensures
        s.associate(netuid, uid, key, block, capacity).consistent(capacity),
{
    let moves = s.forward.contains_key((netuid, uid)) && s.forward[(netuid, uid)].0 != key;
    let old_key = s.forward[(netuid, uid)].0;
    let moved = if moves {
        s.drop_uid(netuid, old_key, uid)
    } else {
        s
    };
    let after = s.associate(netuid, uid, key, block, capacity);
    if moves {
        lemma_drop_uid(s, netuid, old_key, uid);
        lemma_without_uid(s.bucket(netuid, old_key), uid);
        lemma_bucket_distinct(s, capacity, netuid, old_key);
    }
    assert(moved.bucket(netuid, key) == s.bucket(netuid, key));
    lemma_bucket_distinct(s, capacity, netuid, key);
    lemma_upserted(s.bucket(netuid, key), uid, block, capacity);
    assert forall|n: u16, k: H160, e: (u16, u64)| #[trigger]
        after.bucket(n, k).contains(e) <==> after.forward.contains_key((n, e.0))
            && after.forward[(n, e.0)] == (k, e.1) by {
        lemma_entry_iff(s, capacity, n, k, e);
        if (n, k) == (netuid, key) {
            assert(after.bucket(n, k) == upserted(s.bucket(netuid, key), uid, block, capacity));
        } else {
            assert(after.bucket(n, k) == moved.bucket(n, k));
            if moves && (n, k) == (netuid, old_key) {
                assert(after.bucket(n, k) == without_uid(s.bucket(netuid, old_key), uid));
            }
        }
    }
    assert forall|n: u16, k: H160| after.reverse.contains_key((n, k)) implies #[trigger]
        after.bucket_sound(n, k, capacity) by {
        lemma_bucket_distinct(s, capacity, n, k);
        if (n, k) == (netuid, key) {
            assert(after.reverse[(n, k)] == upserted(s.bucket(netuid, key), uid, block, capacity));
        } else if moves && (n, k) == (netuid, old_key) {
            assert(after.reverse[(n, k)] == without_uid(s.bucket(netuid, old_key), uid));
        } else {
            assert(s.reverse.contains_key((n, k)));
            assert(s.bucket_sound(n, k, capacity));
            assert(after.reverse[(n, k)] == s.reverse[(n, k)]);
        }
    }
    lemma_consistent(after, capacity);
}

/// In a consistent index the entries of buckets are exactly the associations.
proof fn lemma_entry_iff(s: EvmIndex, capacity: nat, netuid: u16, key: H160, e: (u16, u64))
    requires
        s.consistent(capacity),
    ensures
        s.bucket(netuid, key).contains(e) <==> s.forward.contains_key((netuid, e.0))
            && s.forward[(netuid, e.0)] == (key, e.1),
{
    if s.bucket(netuid, key).contains(e) {
        lemma_entry_backed(s, capacity, netuid, key, e);
    }
    if s.forward.contains_key((netuid, e.0)) {
        assert(s.listed(netuid, e.0));
    }
}

/// The two maps stay consistent when a neuron loses its association.
pub proof fn law_dissociate_keeps_consistency(s: EvmIndex, netuid: u16, uid: u16, capacity: nat)
    requires
        s.consistent(capacity),
    ensures
        s.dissociate(netuid, uid).consistent(capacity),
{
    if s.forward.contains_key((netuid, uid)) {
        let key = s.forward[(netuid, uid)].0;
        let parted = EvmIndex { forward: s.forward.remove((netuid, uid)), ..s };
        let after = s.dissociate(netuid, uid);
        lemma_drop_uid(parted, netuid, key, uid);
        lemma_without_uid(s.bucket(netuid, key), uid);
        assert(parted.bucket(netuid, key) == s.bucket(netuid, key));
        assert forall|n: u16, k: H160, e: (u16, u64)| #[trigger]
            after.bucket(n, k).contains(e) <==> after.forward.contains_key((n, e.0))
                && after.forward[(n, e.0)] == (k, e.1) by {
            lemma_entry_iff(s, capacity, n, k, e);
            assert(parted.bucket(n, k) == s.bucket(n, k));
            if (n, k) == (netuid, key) {
                assert(after.bucket(n, k) == without_uid(s.bucket(netuid, key), uid));
            } else {
                assert(after.bucket(n, k) == s.bucket(n, k));
            }
        }
        assert forall|n: u16, k: H160| after.reverse.contains_key((n, k)) implies #[trigger]
            after.bucket_sound(n, k, capacity) by {
            lemma_bucket_distinct(s, capacity, n, k);
            assert(s.reverse.contains_key((n, k)));
            assert(s.bucket_sound(n, k, capacity));
            if (n, k) == (netuid, key) {
                assert(after.reverse[(n, k)] == without_uid(s.bucket(netuid, key), uid));
            } else {
                assert(after.reverse[(n, k)] == s.reverse[(n, k)]);
            }
        }
        lemma_consistent(after, capacity);
    }
}

/// Dropping a neuron that a bucket does not have leaves the bucket as it is.
proof fn lemma_untracked(bucket: Seq<(u16, u64)>, uid: u16)
    requires
        !tracks(bucket, uid),
    ensures
        without_uid(bucket, uid) == bucket,
    decreases bucket.len(),
{
    reveal(Seq::filter);
    if bucket.len() > 0 {
        let shorter = bucket.drop_last();
        if tracks(shorter, uid) {
            let i = choose|i: int| tracked_at(shorter, uid, i);
            assert(tracked_at(bucket, uid, i));
        }
        lemma_untracked(shorter, uid);
        assert(!tracked_at(bucket, uid, bucket.len() - 1));
        assert(shorter.push(bucket.last()) =~= bucket);
    }
}

/// A neuron without an association that is associated and at once dissociated leaves everything as
/// it was, the order of the buckets too. Of the maps this takes only that the bucket of the address
/// does not name the neuron, and is not stored where it is empty.
pub proof fn law_dissociate_undoes_associate(
    s: EvmIndex,
    netuid: u16,
    uid: u16,
    key: H160,
    block: u64,
    capacity: nat,
)
    requires
        !s.forward.contains_key((netuid, uid)),
        !tracks(s.bucket(netuid, key), uid),
        s.reverse.contains_key((netuid, key)) ==> s.reverse[(netuid, key)].len() > 0,
    ensures
        s.associate(netuid, uid, key, block, capacity).dissociate(netuid, uid) == s,
{
    let bucket = s.bucket(netuid, key);
    let entered = upserted(bucket, uid, block, capacity);
    lemma_untracked(bucket, uid);
    assert(without_uid(entered, uid) == bucket) by {
        reveal(Seq::filter);
        if bucket.len() < capacity {
            assert(entered.drop_last() =~= bucket);
        }
    }
    let after = s.associate(netuid, uid, key, block, capacity).dissociate(netuid, uid);
    assert(after.forward =~= s.forward);
    assert(after.reverse =~= s.reverse);
}

/// Nothing of a subnet that loses its associations is left in either map, and nothing of another
/// subnet changes.
pub proof fn law_clear_leaves_nothing(s: EvmIndex, netuid: u16)
    ensures
        forall|uid: u16| !s.clear(netuid).forward.contains_key((netuid, uid)),
        forall|key: H160| !s.clear(netuid).reverse.contains_key((netuid, key)),
        forall|other: u16, uid: u16|
            other != netuid ==> (#[trigger] s.clear(netuid).forward.contains_key((other, uid))
                <==> s.forward.contains_key((other, uid))),
        forall|other: u16, uid: u16| #[trigger]
            s.clear(netuid).forward.contains_key((other, uid)) ==> s.clear(netuid).forward[(
                other,
                uid,
            )] == s.forward[(other, uid)],
        forall|other: u16, key: H160|
            other != netuid ==> #[trigger] s.clear(netuid).bucket(other, key) == s.bucket(
                other,
                key,
            ),
{
}

/// The two maps stay consistent when a subnet loses its associations.
pub proof fn law_clear_keeps_consistency(s: EvmIndex, netuid: u16, capacity: nat)
    requires
        s.consistent(capacity),
    ensures
        s.clear(netuid).consistent(capacity),
{
    let after = s.clear(netuid);
    assert forall|n: u16, k: H160, e: (u16, u64)| #[trigger]
        after.bucket(n, k).contains(e) <==> after.forward.contains_key((n, e.0))
            && after.forward[(n, e.0)] == (k, e.1) by {
        lemma_entry_iff(s, capacity, n, k, e);
        if n != netuid {
            assert(after.bucket(n, k) == s.bucket(n, k));
        }
    }
    assert forall|n: u16, k: H160| after.reverse.contains_key((n, k)) implies #[trigger]
        after.bucket_sound(n, k, capacity) by {
        assert(s.bucket_sound(n, k, capacity));
    }
    lemma_consistent(after, capacity);
}

/// Whether a position has an association after the neurons of a subnet were compacted.
pub open spec fn associated_after(
    forward: Map<(u16, u16), (H160, u64)>,
    netuid: u16,
    old_to_new_uid: Map<usize, usize>,
    slot: (u16, u16),
) -> bool {
    if slot.0 == netuid {
        exists|uid: u16| compacts_to(forward, netuid, old_to_new_uid, uid, slot.1)
    } else {
        forward.contains_key(slot)
    }
}

/// The position from which a neuron came in a compaction.
pub open spec fn slot_before(
    forward: Map<(u16, u16), (H160, u64)>,
    netuid: u16,
    old_to_new_uid: Map<usize, usize>,
    slot: (u16, u16),
) -> (u16, u16) {
    if slot.0 == netuid {
        (netuid, choose|uid: u16| compacts_to(forward, netuid, old_to_new_uid, uid, slot.1))
    } else {
        slot
    }
}

/// The associations of a subnet after its neurons were compacted.
pub open spec fn compacted(
    forward: Map<(u16, u16), (H160, u64)>,
    netuid: u16,
    old_to_new_uid: Map<usize, usize>,
) -> Map<(u16, u16), (H160, u64)> {
    Map::new(
        |slot: (u16, u16)| associated_after(forward, netuid, old_to_new_uid, slot),
        |slot: (u16, u16)| forward[slot_before(forward, netuid, old_to_new_uid, slot)],
    )
}

/// Whether an associated neuron gets a position in a compaction.
pub open spec fn compacts_to(
    forward: Map<(u16, u16), (H160, u64)>,
    netuid: u16,
    old_to_new_uid: Map<usize, usize>,
    uid: u16,
    new_uid: u16,
) -> bool {
    forward.contains_key((netuid, uid)) && remapped_uid(old_to_new_uid, uid) == new_uid
}

/// The two maps stay consistent when the neurons of a subnet are compacted, each to a position of
/// its own, and the buckets follow.
pub proof fn law_remap_keeps_consistency(
    s: EvmIndex,
    netuid: u16,
    old_to_new_uid: Map<usize, usize>,
    capacity: nat,
)
    requires
        s.consistent(capacity),
        forall|a: u16, b: u16|
            s.forward.contains_key((netuid, a)) && s.forward.contains_key((netuid, b)) && a != b
                ==> #[trigger] remapped_uid(old_to_new_uid, a) != #[trigger] remapped_uid(
                old_to_new_uid,
                b,
            ),
    ensures
        (EvmIndex {
            forward: compacted(s.forward, netuid, old_to_new_uid),
            reverse: s.remap(netuid, old_to_new_uid).reverse,
        }).consistent(capacity),
{
    let after = EvmIndex {
        forward: compacted(s.forward, netuid, old_to_new_uid),
        reverse: s.remap(netuid, old_to_new_uid).reverse,
    };
    assert forall|n: u16, k: H160, e: (u16, u64)| #[trigger]
        after.bucket(n, k).contains(e) <==> after.forward.contains_key((n, e.0))
            && after.forward[(n, e.0)] == (k, e.1) by {
        if n != netuid {
            lemma_entry_iff(s, capacity, n, k, e);
            assert(after.bucket(n, k) == s.bucket(n, k));
        } else {
            let bucket = s.bucket(n, k);
            let moved = after.bucket(n, k);
            assert(moved =~= remapped_bucket(old_to_new_uid, bucket));
            if moved.contains(e) {
                let i = choose|i: int| 0 <= i < moved.len() && moved[i] == e;
                let uid = bucket[i].0;
                assert(e == (remapped_uid(old_to_new_uid, uid), bucket[i].1));
                assert(bucket.contains(bucket[i]));
                lemma_entry_iff(s, capacity, n, k, bucket[i]);
                assert(compacts_to(s.forward, netuid, old_to_new_uid, uid, e.0));
                let other = choose|u: u16| compacts_to(s.forward, netuid, old_to_new_uid, u, e.0);
                assert(compacts_to(s.forward, netuid, old_to_new_uid, other, e.0));
                assert(other == uid);
                let slot = (n, e.0);
                assert(compacts_to(s.forward, netuid, old_to_new_uid, uid, slot.1));
                assert(after.forward.contains_key(slot));
            }
            if after.forward.contains_key((n, e.0)) && after.forward[(n, e.0)] == (k, e.1) {
                let uid = choose|u: u16| compacts_to(s.forward, netuid, old_to_new_uid, u, e.0);
                assert(compacts_to(s.forward, netuid, old_to_new_uid, uid, e.0));
                lemma_entry_iff(s, capacity, n, k, (uid, e.1));
                let i = choose|i: int| 0 <= i < bucket.len() && bucket[i] == (uid, e.1);
                assert(moved[i] == (remapped_uid(old_to_new_uid, bucket[i].0), bucket[i].1));
                assert(moved[i] == e);
            }
        }
    }
    assert forall|n: u16, k: H160| after.reverse.contains_key((n, k)) implies #[trigger]
        after.bucket_sound(n, k, capacity) by {
        assert(s.bucket_sound(n, k, capacity));
        if n == netuid {
            let bucket = s.reverse[(n, k)];
            let moved = after.reverse[(n, k)];
            assert(moved =~= remapped_bucket(old_to_new_uid, bucket));
            assert forall|i: int, j: int|
                0 <= i < moved.len() && 0 <= j < moved.len() && i != j implies (
            #[trigger] moved[i]).0 != (#[trigger] moved[j]).0 by {
                assert(s.backed(n, k, i));
                assert(s.backed(n, k, j));
                assert(bucket[i].0 != bucket[j].0);
            }
        }
    }
    lemma_consistent(after, capacity);
}

/// However a request for an association ends, the two maps stay consistent.
pub proof fn law_association_keeps_consistency(
    before: Pallet,
    after: Pallet,
    origin: Origin,
    netuid: u16,
    evm_key: H160,
    block_number: u64,
    signature: Seq<u8>,
)
    requires
        before.index().consistent(before.capacity()),
        match before.refusal(origin, netuid, evm_key, block_number, signature) {
            Some(_) => after == before,
            None => origin matches Origin::Signed(hotkey) && after.associated_from(
                &before,
                netuid,
                hotkey,
                before.uids@[(netuid, hotkey)],
                evm_key,
            ),
        },
    ensures
        after.index().consistent(after.capacity()),
{
    if before.refusal(origin, netuid, evm_key, block_number, signature) is None {
        law_associate_keeps_consistency(
            before.index(),
            netuid,
            before.uids@[(netuid, origin->Signed_0)],
            evm_key,
            before.block_number,
            before.capacity(),
        );
    }
}

/// An association is granted only to the address that signed for the hotkey and the block.
pub proof fn law_only_the_signer_is_associated(
    before: Pallet,
    origin: Origin,
    netuid: u16,
    evm_key: H160,
    block_number: u64,
    signature: Seq<u8>,
)
    requires
        before.refusal(origin, netuid, evm_key, block_number, signature) is None,
    ensures
        origin matches Origin::Signed(hotkey) && signer_address(
            signature,
            association_digest(hotkey, block_number),
        ) == Ok::<Seq<u8>, AssociationError>(evm_key.0@),
{
}

/// Whether a signature counts its recovery byte from 0 or from 27 makes no difference to who signed.
pub proof fn law_recovery_byte_may_count_from_27(signature: Seq<u8>, digest: Seq<u8>)
    requires
        signature.len() == 65,
        signature[64] < 27,
    ensures
        signer_address(signature.update(64, (signature[64] + 27) as u8), digest) == signer_address(
            signature,
            digest,
        ),
{
    let shifted = signature.update(64, (signature[64] + 27) as u8);
    assert(normalized(shifted) =~= signature);
}

/// After an association the neuron has the address and the block, and the address has the neuron;
/// an address that the neuron had before no longer has it. Of the maps this takes only that another
/// address whose bucket names the neuron is the one that the neuron has.
pub proof fn law_associate_moves_the_neuron(
    s: EvmIndex,
    netuid: u16,
    uid: u16,
    key: H160,
    block: u64,
    capacity: nat,
)
    requires
        s.has_room(netuid, uid, key, capacity),
        forall|other: H160|
            other != key && tracks(#[trigger] s.bucket(netuid, other), uid)
                ==> s.forward.contains_key((netuid, uid)) && s.forward[(netuid, uid)].0 == other,
    ensures
        s.associate(netuid, uid, key, block, capacity).forward.contains_key((netuid, uid)),
        s.associate(netuid, uid, key, block, capacity).forward[(netuid, uid)] == (key, block),
        s.associate(netuid, uid, key, block, capacity).bucket(netuid, key).contains((uid, block)),
        forall|other: H160|
            other != key ==> !tracks(
                #[trigger] s.associate(netuid, uid, key, block, capacity).bucket(netuid, other),
                uid,
            ),
{
    let after = s.associate(netuid, uid, key, block, capacity);
    let bucket = s.bucket(netuid, key);
    lemma_upserted(bucket, uid, block, capacity);
    assert(after.bucket(netuid, key) == upserted(bucket, uid, block, capacity));
    assert forall|other: H160| other != key implies !tracks(
        #[trigger] after.bucket(netuid, other),
        uid,
    ) by {
        let was = s.bucket(netuid, other);
        if s.forward.contains_key((netuid, uid)) && s.forward[(netuid, uid)].0 == other {
            lemma_without_uid(was, uid);
            let left = after.bucket(netuid, other);
            assert forall|i: int| !tracked_at(left, uid, i) by {
                if tracked_at(left, uid, i) {
                    assert(left.contains(left[i]));
                }
            }
        } else {
            assert(after.bucket(netuid, other) == was);
        }
    }
}

/// A neuron that an address already stands for can be associated with it again however full its
/// bucket is; the bucket keeps its length, and the other neurons keep their entries.
pub proof fn law_refresh_takes_no_place(
    s: EvmIndex,
    netuid: u16,
    uid: u16,
    key: H160,
    block: u64,
    capacity: nat,
)
    requires
        tracks(s.bucket(netuid, key), uid),
    ensures
        s.has_room(netuid, uid, key, capacity),
        s.associate(netuid, uid, key, block, capacity).bucket(netuid, key).len() == s.bucket(
            netuid,
            key,
        ).len(),
        forall|e: (u16, u64)|
            e.0 != uid ==> (#[trigger] s.associate(netuid, uid, key, block, capacity).bucket(
                netuid,
                key,
            ).contains(e) <==> s.bucket(netuid, key).contains(e)),
{
    let bucket = s.bucket(netuid, key);
    lemma_upserted(bucket, uid, block, capacity);
    assert(s.associate(netuid, uid, key, block, capacity).bucket(netuid, key) == upserted(
        bucket,
        uid,
        block,
        capacity,
    ));
}

/// After an association at one block, and while the association stands, the neuron is held back
/// exactly until as many blocks passed as the rate limit says.
pub proof fn law_rate_limit_window(
    before: Pallet,
    after: Pallet,
    later: Pallet,
    netuid: u16,
    hotkey: AccountId,
    uid: u16,
    evm_key: H160,
)
    requires
        after.associated_from(&before, netuid, hotkey, uid, evm_key),
        later.index().forward == after.index().forward,
        later.config == after.config,
        later.block_number >= after.block_number,
    ensures
        later.rate_limited(netuid, uid) <==> later.block_number - after.block_number
            < after.config.evm_key_associate_rate_limit,
{
}

/// A bucket has one order from the oldest block to the newest that keeps the order within a block.
pub proof fn law_lookup_order_is_unique(
    a: Seq<(u16, u64)>,
    b: Seq<(u16, u64)>,
    bucket: Seq<(u16, u64)>,
)
    requires
        stably_sorted(a, bucket),
        stably_sorted(b, bucket),
    ensures
        a == b,
{
    assert forall|block: u64| #[trigger] at_block(a, block) == at_block(b, block) by {
        assert(at_block(a, block) == at_block(bucket, block));
        assert(at_block(b, block) == at_block(bucket, block));
    }
    lemma_same_order(a, b);
}

/// Entries whose blocks ascend are fixed by what they hold at each block.
proof fn lemma_same_order(a: Seq<(u16, u64)>, b: Seq<(u16, u64)>)
    requires
        blocks_ascend(a),
        blocks_ascend(b),
        forall|block: u64| #[trigger] at_block(a, block) == at_block(b, block),
    ensures
        a == b,
    decreases a.len(),
{
    reveal(Seq::filter);
    if a.len() == 0 {
        if b.len() > 0 {
            lemma_at_block(b, b[0].1);
            assert(at_block(a, b[0].1) == at_block(b, b[0].1));
            assert(at_block(b, b[0].1).contains(b[0]));
        }
        assert(a =~= b);
    } else if b.len() == 0 {
        lemma_at_block(a, a[0].1);
        assert(at_block(a, a[0].1) == at_block(b, a[0].1));
        assert(at_block(a, a[0].1).contains(a[0]));
    } else {
        let newest = a.last().1;
        lemma_at_block(a, newest);
        lemma_at_block(b, newest);
        lemma_at_block(a, b.last().1);
        lemma_at_block(b, b.last().1);
        assert(at_block(a, newest) == at_block(b, newest));
        assert(at_block(a, b.last().1) == at_block(b, b.last().1));
        assert(at_block(a, newest).contains(a[a.len() - 1]));
        assert(b.contains(a.last()));
        assert(at_block(b, b.last().1).contains(b[b.len() - 1]));
        assert(a.contains(b.last()));
        assert(b.last().1 == newest);
        assert(at_block(a, newest) =~= at_block(a.drop_last(), newest).push(a.last()));
        assert(at_block(b, newest) =~= at_block(b.drop_last(), newest).push(b.last()));
        assert(a.last() == at_block(a, newest).last());
        assert(b.last() == at_block(b, newest).last());
        assert forall|block: u64| #[trigger]
            at_block(a.drop_last(), block) == at_block(b.drop_last(), block) by {
            assert(at_block(a, block) == at_block(b, block));
            if block == newest {
                assert(at_block(a.drop_last(), block) =~= at_block(a, block).drop_last());
                assert(at_block(b.drop_last(), block) =~= at_block(b, block).drop_last());
            }
        }
        lemma_same_order(a.drop_last(), b.drop_last());
        assert(a =~= a.drop_last().push(a.last()));
        assert(b =~= b.drop_last().push(b.last()));
    }
}

/// The entries at a block are those entries that are of that block.
proof fn lemma_at_block(entries: Seq<(u16, u64)>, block: u64)
    ensures
        forall|e: (u16, u64)| #[trigger]
            at_block(entries, block).contains(e) <==> entries.contains(e) && e.1 == block,
    decreases entries.len(),
{
    assert forall|e: (u16, u64)| #[trigger]
        at_block(entries, block).contains(e) <==> entries.contains(e) && e.1 == block by {
        reveal(Seq::filter);
        if entries.len() > 0 {
            lemma_at_block(entries.drop_last(), block);
            let fewer = at_block(entries.drop_last(), block);
            let all = at_block(entries, block);
            assert(fewer.contains(e) <==> entries.drop_last().contains(e) && e.1 == block);
            if all.contains(e) {
                let i = choose|i: int| 0 <= i < all.len() && all[i] == e;
                if i < fewer.len() {
                    assert(fewer[i] == e);
                    let j = choose|j: int|
                        0 <= j < entries.drop_last().len() && entries.drop_last()[j] == e;
                    assert(entries[j] == e);
                } else {
                    assert(entries[entries.len() - 1] == e);
                }
            }
            if entries.contains(e) && e.1 == block {
                let j = choose|j: int| 0 <= j < entries.len() && entries[j] == e;
                if j < entries.len() - 1 {
                    assert(entries.drop_last()[j] == e);
                    let i = choose|i: int| 0 <= i < fewer.len() && fewer[i] == e;
                    assert(all[i] == e);
                } else {
                    assert(all[fewer.len() as int] == e);
                }
            }
        }
    }
}

/// In a consistent index, a lookup that is not cut short gives exactly the neurons that are
/// associated with the address, each with the block of its association.
pub proof fn law_lookup_gives_the_associations(
    s: EvmIndex,
    capacity: nat,
    netuid: u16,
    key: H160,
    sorted: Seq<(u16, u64)>,
    uid: u16,
    block: u64,
)
    requires
        s.consistent(capacity),
        stably_sorted(sorted, s.bucket(netuid, key)),
    ensures
        sorted.contains((uid, block)) <==> s.forward.contains_key((netuid, uid))
            && s.forward[(netuid, uid)] == (key, block),
{
    let bucket = s.bucket(netuid, key);
    lemma_entry_iff(s, capacity, netuid, key, (uid, block));
    lemma_at_block(sorted, block);
    lemma_at_block(bucket, block);
    assert(at_block(sorted, block) == at_block(bucket, block));
    assert(at_block(sorted, block).contains((uid, block)) <==> sorted.contains((uid, block)));
    assert(at_block(bucket, block).contains((uid, block)) <==> bucket.contains((uid, block)));
}

/// Whether a row is of a neuron of a subnet that is associated with an address.
pub open spec fn of_address(row: ((u16, u16), (H160, u64)), netuid: u16, key: H160) -> bool {
    row.0.0 == netuid && row.1.0 == key
}

/// The associations with an address on a subnet.
pub open spec fn rows_of_address(
    rows: Seq<((u16, u16), (H160, u64))>,
    netuid: u16,
    key: H160,
) -> Seq<((u16, u16), (H160, u64))> {
    rows.filter(|row: ((u16, u16), (H160, u64))| of_address(row, netuid, key))
}

/// How many of the associations are with an address on a subnet.
pub open spec fn held(rows: Seq<((u16, u16), (H160, u64))>, netuid: u16, key: H160) -> nat {
    rows_of_address(rows, netuid, key).len()
}

/// Entering associations into a bucket, whatever it holds and however many there are, leaves no
/// neuron in it twice and the bucket within its capacity. The neurons that it had stay, and every
/// new entry is one of the associations. An association is left out only where the bucket is full.
pub proof fn law_migration_enters_what_fits(
    reverse: Map<(u16, H160), Seq<(u16, u64)>>,
    rows: Seq<((u16, u16), (H160, u64))>,
    capacity: nat,
    netuid: u16,
    key: H160,
)
    requires
        keys_distinct(rows),
        uids_distinct(bucket_of(reverse, netuid, key)),
        bucket_of(reverse, netuid, key).len() <= capacity,
    ensures
        ({
            let was = bucket_of(reverse, netuid, key);
            let now = bucket_of(entered(reverse, rows, capacity), netuid, key);
            &&& uids_distinct(now)
            &&& was.len() <= now.len() <= capacity
            &&& forall|uid: u16| tracks(was, uid) ==> #[trigger] tracks(now, uid)
            &&& forall|e: (u16, u64)| #[trigger]
                now.contains(e) ==> was.contains(e) || rows.contains(
                    ((netuid, e.0), (key, e.1)),
                )
            &&& forall|i: int|
                0 <= i < rows.len() && of_address(rows[i], netuid, key) ==> now.contains(
                    ((#[trigger] rows[i]).0.1, rows[i].1.1),
                ) || (now.len() == capacity && !tracks(now, rows[i].0.1))
        }),
    decreases rows.len(),
{
    let was = bucket_of(reverse, netuid, key);
    let now = bucket_of(entered(reverse, rows, capacity), netuid, key);
    if rows.len() > 0 {
        let shorter = rows.drop_last();
        let earlier = entered(reverse, shorter, capacity);
        let old_bucket = bucket_of(earlier, netuid, key);
        let uid = rows.last().0.1;
        let block = rows.last().1.1;
        assert(keys_distinct(shorter));
        law_migration_enters_what_fits(reverse, shorter, capacity, netuid, key);
        let here = rows.last().0.0 == netuid && rows.last().1.0 == key;
        assert(now == if here {
            upserted(old_bucket, uid, block, capacity)
        } else {
            old_bucket
        });
        let stores = tracks(old_bucket, uid) || old_bucket.len() < capacity;
        if here && stores {
            lemma_upserted(old_bucket, uid, block, capacity);
            assert(now.contains((uid, block)));
        }
        assert forall|u: u16| tracks(was, u) implies #[trigger] tracks(now, u) by {
            assert(tracks(old_bucket, u));
            lemma_still_tracked(old_bucket, uid, block, capacity, u);
        }
        assert forall|e: (u16, u64)| #[trigger] now.contains(e) implies was.contains(e)
            || rows.contains(((netuid, e.0), (key, e.1))) by {
            let row = ((netuid, e.0), (key, e.1));
            if old_bucket.contains(e) {
                if shorter.contains(row) {
                    let i = choose|i: int| 0 <= i < shorter.len() && shorter[i] == row;
                    assert(rows[i] == row);
                }
            } else {
                assert(e == (uid, block));
                assert(rows[rows.len() - 1] == row);
            }
        }
        assert forall|i: int|
            0 <= i < rows.len() && of_address(rows[i], netuid, key) implies now.contains(
            ((#[trigger] rows[i]).0.1, rows[i].1.1),
        ) || (now.len() == capacity && !tracks(now, rows[i].0.1)) by {
            if i < shorter.len() {
                assert(shorter[i] == rows[i]);
                assert(rows[i].0 != rows[rows.len() - 1].0);
                if here && stores {
                    assert(rows[i].0.1 != uid);
                    if !old_bucket.contains((rows[i].0.1, rows[i].1.1)) {
                        lemma_not_newly_tracked(old_bucket, uid, block, capacity, rows[i].0.1);
                    }
                }
            }
        }
    }
}

/// Entering a neuron into a bucket drops no other.
proof fn lemma_still_tracked(
    bucket: Seq<(u16, u64)>,
    uid: u16,
    block: u64,
    capacity: nat,
    other: u16,
)
    requires
        uids_distinct(bucket),
        tracks(bucket, other),
    ensures
        tracks(upserted(bucket, uid, block, capacity), other),
{
    let after = upserted(bucket, uid, block, capacity);
    let i = choose|i: int| tracked_at(bucket, other, i);
    if tracks(bucket, uid) {
        lemma_first(bucket, uid);
    }
    assert(tracked_at(after, other, i));
}

/// Entering a neuron into a bucket adds no other.
proof fn lemma_not_newly_tracked(
    bucket: Seq<(u16, u64)>,
    uid: u16,
    block: u64,
    capacity: nat,
    other: u16,
)
    requires
        !tracks(bucket, other),
        other != uid,
    ensures
        !tracks(upserted(bucket, uid, block, capacity), other),
{
    let after = upserted(bucket, uid, block, capacity);
    if tracks(bucket, uid) {
        lemma_first(bucket, uid);
    }
    if tracks(after, other) {
        let i = choose|i: int| tracked_at(after, other, i);
        assert(tracked_at(bucket, other, i));
    }
}

/// Whether buckets hold nothing but associations, each neuron once and none over its capacity.
pub open spec fn buckets_backed(s: EvmIndex, capacity: nat) -> bool {
    &&& forall|netuid: u16, key: H160, i: int|
        s.reverse.contains_key((netuid, key)) && 0 <= i < s.reverse[(netuid, key)].len()
            ==> #[trigger] s.backed(netuid, key, i)
    &&& forall|netuid: u16, key: H160|
        s.reverse.contains_key((netuid, key)) ==> #[trigger] s.bucket_sound(netuid, key, capacity)
}

/// Entering every association makes the two maps consistent, where the buckets held nothing but
/// associations, be it none at all, and no address has more neurons of a subnet than it may.
pub proof fn law_migration_makes_consistent(
    reverse: Map<(u16, H160), Seq<(u16, u64)>>,
    rows: Seq<((u16, u16), (H160, u64))>,
    capacity: nat,
)
    requires
        keys_distinct(rows),
        buckets_backed((EvmIndex { forward: rows_map(rows), reverse }), capacity),
        forall|netuid: u16, key: H160| #[trigger] held(rows, netuid, key) <= capacity,
    ensures
        (EvmIndex {
            forward: rows_map(rows),
            reverse: entered(reverse, rows, capacity),
        }).consistent(capacity),
{
    let before = EvmIndex { forward: rows_map(rows), reverse };
    let after = EvmIndex { forward: rows_map(rows), reverse: entered(reverse, rows, capacity) };
    assert forall|n: u16, k: H160, e: (u16, u64)| #[trigger]
        after.bucket(n, k).contains(e) <==> after.forward.contains_key((n, e.0))
            && after.forward[(n, e.0)] == (k, e.1) by {
        lemma_bucket_after(before, rows, capacity, n, k);
        lemma_row_entry(rows, n, k, e);
    }
    assert forall|n: u16, k: H160| after.reverse.contains_key((n, k)) implies #[trigger]
        after.bucket_sound(n, k, capacity) by {
        lemma_bucket_after(before, rows, capacity, n, k);
        lemma_entered_keys(reverse, rows, capacity, n, k);
        let bucket = after.bucket(n, k);
        if reverse.contains_key((n, k)) {
            assert(before.bucket_sound(n, k, capacity));
        } else {
            let i = choose|i: int| 0 <= i < rows.len() && of_address(rows[i], n, k);
            let entry = (rows[i].0.1, rows[i].1.1);
            assert(rows[i] == ((n, entry.0), (k, entry.1)));
            assert(rows.contains(rows[i]));
            assert(bucket.contains(entry));
        }
    }
    lemma_consistent(after, capacity);
}

/// A bucket is stored after entering associations if it was before, or if one is with its address.
proof fn lemma_entered_keys(
    reverse: Map<(u16, H160), Seq<(u16, u64)>>,
    rows: Seq<((u16, u16), (H160, u64))>,
    capacity: nat,
    netuid: u16,
    key: H160,
)
    requires
        entered(reverse, rows, capacity).contains_key((netuid, key)),
    ensures
        reverse.contains_key((netuid, key)) || exists|i: int|
            0 <= i < rows.len() && of_address(rows[i], netuid, key),
    decreases rows.len(),
{
    if rows.len() > 0 {
        if of_address(rows.last(), netuid, key) {
            assert(of_address(rows[rows.len() - 1], netuid, key));
        } else {
            lemma_entered_keys(reverse, rows.drop_last(), capacity, netuid, key);
            if !reverse.contains_key((netuid, key)) {
                let shorter = rows.drop_last();
                let i = choose|i: int| 0 <= i < shorter.len() && of_address(shorter[i], netuid, key);
                assert(of_address(rows[i], netuid, key));
            }
        }
    }
}

/// An entry is an association exactly where a row says so.
proof fn lemma_row_entry(
    rows: Seq<((u16, u16), (H160, u64))>,
    netuid: u16,
    key: H160,
    e: (u16, u64),
)
    requires
        keys_distinct(rows),
    ensures
        rows.contains(((netuid, e.0), (key, e.1))) <==> rows_map(rows).contains_key((netuid, e.0))
            && rows_map(rows)[(netuid, e.0)] == (key, e.1),
{
    let slot = (netuid, e.0);
    let row = (slot, (key, e.1));
    if rows.contains(row) {
        let i = choose|i: int| 0 <= i < rows.len() && rows[i] == row;
        lemma_row(rows, i);
    }
    if rows_map(rows).contains_key(slot) {
        let i = choose|i: int| row_of(rows, slot, i);
        lemma_row(rows, i);
        if rows_map(rows)[slot] == (key, e.1) {
            assert(rows[i] == row);
        }
    }
}

/// After entering every association, with no address over its capacity, a bucket that held nothing
/// but associations holds exactly those with its address.
proof fn lemma_bucket_after(
    before: EvmIndex,
    rows: Seq<((u16, u16), (H160, u64))>,
    capacity: nat,
    netuid: u16,
    key: H160,
)
    requires
        keys_distinct(rows),
        before.forward == rows_map(rows),
        buckets_backed(before, capacity),
        held(rows, netuid, key) <= capacity,
    ensures
        ({
            let now = bucket_of(entered(before.reverse, rows, capacity), netuid, key);
            &&& uids_distinct(now)
            &&& before.bucket(netuid, key).len() <= now.len() <= capacity
            &&& forall|e: (u16, u64)| #[trigger]
                now.contains(e) <==> rows.contains(((netuid, e.0), (key, e.1)))
        }),
{
    let was = before.bucket(netuid, key);
    let now = bucket_of(entered(before.reverse, rows, capacity), netuid, key);
    if before.reverse.contains_key((netuid, key)) {
        assert(before.bucket_sound(netuid, key, capacity));
    }
    law_migration_enters_what_fits(before.reverse, rows, capacity, netuid, key);
    assert forall|e: (u16, u64)| #[trigger] now.contains(e) implies rows.contains(
        ((netuid, e.0), (key, e.1)),
    ) by {
        if was.contains(e) {
            let i = choose|i: int| 0 <= i < was.len() && was[i] == e;
            assert(before.backed(netuid, key, i));
            lemma_row_entry(rows, netuid, key, e);
        }
    }
    assert forall|e: (u16, u64)| rows.contains(((netuid, e.0), (key, e.1))) implies #[trigger]
        now.contains(e) by {
        let i = choose|i: int| 0 <= i < rows.len() && rows[i] == ((netuid, e.0), (key, e.1));
        assert(of_address(rows[i], netuid, key));
        if !now.contains((rows[i].0.1, rows[i].1.1)) {
            let longer = now.push(e);
            assert(forall|j: int| 0 <= j < now.len() ==> (#[trigger] now[j]).0 != e.0) by {
                if exists|j: int| 0 <= j < now.len() && (#[trigger] now[j]).0 == e.0 {
                    let j = choose|j: int| 0 <= j < now.len() && (#[trigger] now[j]).0 == e.0;
                    assert(tracked_at(now, e.0, j));
                }
            }
            assert forall|j: int| 0 <= j < longer.len() implies rows.contains(
                ((netuid, (#[trigger] longer[j]).0), (key, longer[j].1)),
            ) by {
                if j < now.len() {
                    assert(now.contains(now[j]));
                }
            }
            lemma_at_most_held(rows, netuid, key, longer);
        }
    }
}

/// Entries of different neurons that are all associations with an address are at most as many as
/// there are such associations.
proof fn lemma_at_most_held(
    rows: Seq<((u16, u16), (H160, u64))>,
    netuid: u16,
    key: H160,
    entries: Seq<(u16, u64)>,
)
    requires
        uids_distinct(entries),
        forall|i: int|
            0 <= i < entries.len() ==> rows.contains(
                ((netuid, (#[trigger] entries[i]).0), (key, entries[i].1)),
            ),
    ensures
        entries.len() <= held(rows, netuid, key),
{
    let matching = rows_of_address(rows, netuid, key);
    let found = matching.map_values(|row: ((u16, u16), (H160, u64))| (row.0.1, row.1.1));
    assert(entries.no_duplicates());
    entries.unique_seq_to_set();
    assert forall|e: (u16, u64)| entries.to_set().contains(e) implies found.to_set().contains(
        e,
    ) by {
        let i = choose|i: int| 0 <= i < entries.len() && entries[i] == e;
        let row = ((netuid, e.0), (key, e.1));
        assert(entries[i] == e);
        assert(rows.contains(row));
        let j = choose|j: int| 0 <= j < rows.len() && rows[j] == row;
        rows.lemma_filter_contains(
            |row: ((u16, u16), (H160, u64))| of_address(row, netuid, key),
            j,
        );
        let m = choose|m: int| 0 <= m < matching.len() && matching[m] == row;
        assert(found[m] == e);
    }
    found.lemma_cardinality_of_set();
    vstd::set_lib::lemma_len_subset(entries.to_set(), found.to_set());
}

/// Entering the associations into buckets that already agree with them changes nothing.
pub proof fn law_migration_leaves_a_consistent_index(
    reverse: Map<(u16, H160), Seq<(u16, u64)>>,
    rows: Seq<((u16, u16), (H160, u64))>,
    capacity: nat,
)
    requires
        keys_distinct(rows),
        (EvmIndex { forward: rows_map(rows), reverse }).consistent(capacity),
    ensures
        entered(reverse, rows, capacity) == reverse,
{
    lemma_entered_again(EvmIndex { forward: rows_map(rows), reverse }, rows, capacity, rows.len());
    assert(rows.take(rows.len() as int) =~= rows);
}

/// Entering the first `n` associations into buckets that already agree with all of them changes
/// nothing.
proof fn lemma_entered_again(
    s: EvmIndex,
    rows: Seq<((u16, u16), (H160, u64))>,
    capacity: nat,
    n: nat,
)
    requires
        keys_distinct(rows),
        s.forward == rows_map(rows),
        s.consistent(capacity),
        n <= rows.len(),
    ensures
        entered(s.reverse, rows.take(n as int), capacity) == s.reverse,
    decreases n,
{
    if n > 0 {
        let seen = rows.take(n as int);
        assert(seen.drop_last() =~= rows.take(n - 1));
        assert(seen.last() == rows[n - 1]);
        lemma_entered_again(s, rows, capacity, (n - 1) as nat);
        let netuid = rows[n - 1].0.0;
        let uid = rows[n - 1].0.1;
        let key = rows[n - 1].1.0;
        let block = rows[n - 1].1.1;
        lemma_row(rows, n - 1);
        lemma_entry_iff(s, capacity, netuid, key, (uid, block));
        lemma_bucket_distinct(s, capacity, netuid, key);
        let bucket = s.bucket(netuid, key);
        let i = choose|i: int| 0 <= i < bucket.len() && bucket[i] == (uid, block);
        assert(tracked_at(bucket, uid, i));
        lemma_first(bucket, uid);
        assert(upserted(bucket, uid, block, capacity) =~= bucket);
        assert(s.reverse.insert((netuid, key), bucket) =~= s.reverse);
    } else {
        assert(rows.take(0) =~= Seq::empty());
    }
}

} // verus!
