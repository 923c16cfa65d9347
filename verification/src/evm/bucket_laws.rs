//! What the operations on one bucket do, entry by entry.
use crate::evm::bucket::{
    copy, drop_uid, find_uid, first_at, lemma_insert_sorted, sort_by_block, stably_sorted,
    tracked_at, tracks, upsert, upserted, without_uid,
};
use crate::evm::laws::{law_lookup_order_is_unique, lemma_first};
use crate::selection::{lemma_picks_last, lemma_picks_none, picks};
use vstd::prelude::*;

verus! {

/// Whether some entry of a bucket is that of the neuron.
pub open spec fn names(bucket: Seq<(u16, u64)>, uid: u16) -> bool {
    exists|i: int| 0 <= i < bucket.len() && (#[trigger] bucket[i]).0 == uid
}

/// Whether a bucket took in a neuron with its block: in the place of its first entry if it has one,
/// at the end if it has none and the bucket has room, and else not at all. All other entries stay
/// where they are.
pub open spec fn takes_in(
    before: Seq<(u16, u64)>,
    after: Seq<(u16, u64)>,
    uid: u16,
    block: u64,
    most: int,
) -> bool {
    if names(before, uid) {
        &&& after.len() == before.len()
        &&& forall|i: int|
            0 <= i < before.len() ==> #[trigger] after[i] == if before[i].0 == uid && forall|j: int|
                0 <= j < i ==> (#[trigger] before[j]).0 != uid {
                (uid, block)
            } else {
                before[i]
            }
    } else if before.len() < most {
        &&& after.len() == before.len() + 1
        &&& after[before.len() as int] == (uid, block)
        &&& forall|i: int| 0 <= i < before.len() ==> #[trigger] after[i] == before[i]
    } else {
        after == before
    }
}

/// Whether `at` are the positions of the entries of other neurons, from the first to the last.
pub open spec fn others(at: Seq<int>, bucket: Seq<(u16, u64)>, uid: u16) -> bool {
    picks(at, bucket, |entry: (u16, u64)| entry.0 != uid)
}

/// Whether a bucket lost the entries of a neuron, and kept those of the others in their order.
pub open spec fn loses(before: Seq<(u16, u64)>, after: Seq<(u16, u64)>, uid: u16) -> bool {
    exists|at: Seq<int>| #[trigger]
        others(at, before, uid) && after.len() == at.len() && forall|k: int|
            0 <= k < at.len() ==> #[trigger] after[k] == before[at[k]]
}

/// Whether `at` puts the entries of a bucket in order: every position once, from the oldest block to
/// the newest, and those of one block as they stand.
pub open spec fn orders(at: Seq<int>, bucket: Seq<(u16, u64)>) -> bool {
    &&& at.len() == bucket.len()
    &&& forall|k: int| 0 <= k < at.len() ==> 0 <= #[trigger] at[k] < bucket.len()
    &&& forall|k: int, l: int|
        0 <= k < l < at.len() ==> bucket[#[trigger] at[k]].1 < bucket[#[trigger] at[l]].1 || (
        bucket[at[k]].1 == bucket[at[l]].1 && at[k] < at[l])
}

/// Naming a neuron is tracking it.
pub proof fn lemma_names(bucket: Seq<(u16, u64)>, uid: u16)
    ensures
        names(bucket, uid) <==> tracks(bucket, uid),
{
    if names(bucket, uid) {
        let i = choose|i: int| 0 <= i < bucket.len() && (#[trigger] bucket[i]).0 == uid;
        assert(tracked_at(bucket, uid, i));
    }
}

/// A bucket takes in a neuron as it should.
pub proof fn lemma_takes_in(bucket: Seq<(u16, u64)>, uid: u16, block: u64, capacity: nat)
    ensures
        takes_in(
            bucket,
            upserted(bucket, uid, block, capacity),
            uid,
            block,
            capacity as int,
        ),
{
    lemma_names(bucket, uid);
    let after = upserted(bucket, uid, block, capacity);
    if names(bucket, uid) {
        lemma_first(bucket, uid);
        let first = choose|i: int| first_at(bucket, uid, i);
        assert(first_at(bucket, uid, first));
        assert forall|i: int| 0 <= i < bucket.len() implies #[trigger] after[i] == if bucket[i].0
            == uid && forall|j: int| 0 <= j < i ==> (#[trigger] bucket[j]).0 != uid {
            (uid, block)
        } else {
            bucket[i]
        } by {
            if i < first {
                assert(bucket[i].0 != uid);
            } else if i > first {
                assert(bucket[first].0 == uid);
            }
        }
    }
}

/// A bucket loses a neuron as it should.
pub proof fn lemma_loses(bucket: Seq<(u16, u64)>, uid: u16)
    ensures
        loses(bucket, without_uid(bucket, uid), uid),
    decreases bucket.len(),
{
    reveal(Seq::filter);
    let all = without_uid(bucket, uid);
    if bucket.len() == 0 {
        lemma_picks_none(bucket, |entry: (u16, u64)| entry.0 != uid);
        assert(others(Seq::empty(), bucket, uid));
    } else {
        let shorter = bucket.drop_last();
        lemma_loses(shorter, uid);
        let some = without_uid(shorter, uid);
        let at = choose|at: Seq<int>| #[trigger]
            others(at, shorter, uid) && some.len() == at.len() && forall|k: int|
                0 <= k < at.len() ==> #[trigger] some[k] == shorter[at[k]];
        lemma_others_last(at, bucket, uid);
        if bucket.last().0 != uid {
            let more = at.push(bucket.len() - 1);
            assert(all =~= some.push(bucket.last()));
            assert forall|k: int| 0 <= k < more.len() implies #[trigger] all[k]
                == bucket[more[k]] by {
                if k < at.len() {
                    assert(more[k] == at[k]);
                    assert(all[k] == some[k]);
                    assert(0 <= at[k] < shorter.len());
                    assert(shorter[at[k]] == bucket[at[k]]);
                }
            }
            assert(others(more, bucket, uid));
        } else {
            assert(all =~= some);
            assert forall|k: int| 0 <= k < at.len() implies #[trigger] all[k] == bucket[at[k]] by {
                assert(all[k] == some[k]);
                assert(0 <= at[k] < shorter.len());
                assert(shorter[at[k]] == bucket[at[k]]);
            }
            assert(others(at, bucket, uid));
        }
    }
}

/// A last entry stays behind those before it, if it is that of another neuron.
proof fn lemma_others_last(at: Seq<int>, bucket: Seq<(u16, u64)>, uid: u16)
    requires
        bucket.len() > 0,
        others(at, bucket.drop_last(), uid),
    ensures
        forall|k: int| 0 <= k < at.len() ==> 0 <= #[trigger] at[k] < bucket.len() - 1,
        bucket.last().0 != uid ==> others(at.push(bucket.len() - 1), bucket, uid),
        bucket.last().0 == uid ==> others(at, bucket, uid),
{
    let keep = |entry: (u16, u64)| entry.0 != uid;
    assert(picks(at, bucket.drop_last(), keep));
    lemma_picks_last(at, bucket, keep);
}

/// The entries that positions give.
spec fn read_at(bucket: Seq<(u16, u64)>, at: Seq<int>) -> Seq<(u16, u64)> {
    Seq::new(at.len(), |k: int| bucket[at[k]])
}

/// Every bucket can be put in order.
proof fn lemma_can_be_ordered(bucket: Seq<(u16, u64)>) -> (at: Seq<int>)
    ensures
        orders(at, bucket),
        stably_sorted(read_at(bucket, at), bucket),
    decreases bucket.len(),
{
    if bucket.len() == 0 {
        let at = Seq::<int>::empty();
        assert(read_at(bucket, at) =~= bucket);
        at
    } else {
        let shorter = bucket.drop_last();
        let entry = bucket.last();
        let some = lemma_can_be_ordered(shorter);
        let sorted = read_at(shorter, some);
        let position = lemma_place(sorted, entry.1);
        lemma_insert_sorted(sorted, shorter, entry, position);
        let at = some.insert(position, bucket.len() - 1);
        assert(shorter.push(entry) =~= bucket);
        assert(forall|k: int| 0 <= k < some.len() ==> 0 <= #[trigger] some[k] < shorter.len());
        assert(read_at(bucket, at) =~= sorted.insert(position, entry));
        assert forall|k: int, l: int| 0 <= k < l < at.len() implies bucket[#[trigger] at[k]].1
            < bucket[#[trigger] at[l]].1 || (bucket[at[k]].1 == bucket[at[l]].1 && at[k]
            < at[l]) by {
            let i = if k < position {
                k
            } else {
                k - 1
            };
            let j = if l < position {
                l
            } else {
                l - 1
            };
            if k != position {
                assert(at[k] == some[i]);
                assert(sorted[i] == shorter[some[i]]);
            }
            if l != position {
                assert(at[l] == some[j]);
                assert(sorted[j] == shorter[some[j]]);
            }
        }
        at
    }
}

/// Where an entry of a block goes among sorted ones: behind all that are not newer.
proof fn lemma_place(sorted: Seq<(u16, u64)>, block: u64) -> (position: int)
    requires
        forall|i: int, j: int|
            0 <= i <= j < sorted.len() ==> (#[trigger] sorted[i]).1 <= (#[trigger] sorted[j]).1,
    ensures
        0 <= position <= sorted.len(),
        forall|j: int| 0 <= j < position ==> (#[trigger] sorted[j]).1 <= block,
        forall|j: int| position <= j < sorted.len() ==> block < (#[trigger] sorted[j]).1,
    decreases sorted.len(),
{
    if sorted.len() == 0 || sorted.last().1 <= block {
        sorted.len() as int
    } else {
        let shorter = sorted.drop_last();
        assert(forall|j: int| 0 <= j < shorter.len() ==> #[trigger] shorter[j] == sorted[j]);
        let position = lemma_place(shorter, block);
        assert forall|j: int| 0 <= j < position implies (#[trigger] sorted[j]).1 <= block by {
            assert(shorter[j] == sorted[j]);
        }
        assert forall|j: int| position <= j < sorted.len() implies block < (
        #[trigger] sorted[j]).1 by {
            if j < shorter.len() {
                assert(shorter[j] == sorted[j]);
            }
        }
        position
    }
}

/// What is sorted is the bucket put in order.
pub proof fn lemma_ordered(sorted: Seq<(u16, u64)>, bucket: Seq<(u16, u64)>) -> (at: Seq<int>)
    requires
        stably_sorted(sorted, bucket),
    ensures
        orders(at, bucket),
        sorted.len() == at.len(),
        forall|k: int| 0 <= k < at.len() ==> #[trigger] sorted[k] == bucket[at[k]],
{
    let at = lemma_can_be_ordered(bucket);
    law_lookup_order_is_unique(sorted, read_at(bucket, at), bucket);
    at
}

/// A neuron is found at its first entry, and nowhere exactly where it has none.
pub proof fn law_find_uid(bucket: Vec<(u16, u64)>, uid: u16, found: Option<usize>)
    requires
        call_ensures(find_uid, (&bucket, uid), found),
    ensures
        found is Some <==> names(bucket@, uid),
        found matches Some(i) ==> i < bucket@.len() && bucket@[i as int].0 == uid,
        found matches Some(i) ==> forall|j: int| 0 <= j < i ==> (#[trigger] bucket@[j]).0 != uid,
{
    lemma_names(bucket@, uid);
}

/// Taking in a neuron puts it where it should, and tells whether it did.
pub proof fn law_upsert(
    bucket: &mut Vec<(u16, u64)>,
    uid: u16,
    block: u64,
    capacity: u32,
    stored: bool,
)
    requires
        call_ensures(upsert, (bucket, uid, block, capacity), stored),
    ensures
        takes_in(old(bucket)@, final(bucket)@, uid, block, capacity as int),
        stored <==> names(old(bucket)@, uid) || old(bucket)@.len() < capacity,
{
    lemma_names(old(bucket)@, uid);
    lemma_takes_in(old(bucket)@, uid, block, capacity as nat);
}

/// A copy holds the same entries at the same places.
pub proof fn law_copy(bucket: Vec<(u16, u64)>, same: Vec<(u16, u64)>)
    requires
        call_ensures(copy, (&bucket,), same),
    ensures
        same@.len() == bucket@.len(),
        forall|i: int| 0 <= i < same@.len() ==> #[trigger] same@[i] == bucket@[i],
{
}

/// Dropping a neuron leaves the entries of the others, in their order.
pub proof fn law_drop_uid(bucket: Vec<(u16, u64)>, uid: u16, kept: Vec<(u16, u64)>)
    requires
        call_ensures(drop_uid, (&bucket, uid), kept),
    ensures
        loses(bucket@, kept@, uid),
{
    lemma_loses(bucket@, uid);
}

/// Sorting puts every entry once, from the oldest block to the newest, and those of one block as
/// they stood.
pub proof fn law_sort_by_block(bucket: Vec<(u16, u64)>, sorted: Vec<(u16, u64)>)
    requires
        call_ensures(sort_by_block, (&bucket,), sorted),
    ensures
        exists|at: Seq<int>| #[trigger]
            orders(at, bucket@) && sorted@.len() == at.len() && forall|k: int|
                0 <= k < at.len() ==> #[trigger] sorted@[k] == bucket@[at[k]],
{
    let at = lemma_ordered(sorted@, bucket@);
}

} // verus!
