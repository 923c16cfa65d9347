//! The bucket of one EVM address: the neurons that it stands for on a subnet, each with the block
//! at which it was associated.
use vstd::prelude::*;

verus! {

/// Whether the entry at `i` is one of `uid`.
pub open spec fn tracked_at(bucket: Seq<(u16, u64)>, uid: u16, i: int) -> bool {
    0 <= i < bucket.len() && bucket[i].0 == uid
}

/// Whether the bucket has an entry for `uid`.
pub open spec fn tracks(bucket: Seq<(u16, u64)>, uid: u16) -> bool {
    exists|i: int| tracked_at(bucket, uid, i)
}

/// Whether the entry at `i` is the first one of `uid`.
pub open spec fn first_at(bucket: Seq<(u16, u64)>, uid: u16, i: int) -> bool {
    tracked_at(bucket, uid, i) && forall|j: int| 0 <= j < i ==> (#[trigger] bucket[j]).0 != uid
}

/// The bucket after `uid` was associated at `block`: an entry of `uid` gets the new block in
/// place, a new `uid` is added at the end while there is room, and a full bucket stays as it is.
pub open spec fn upserted(bucket: Seq<(u16, u64)>, uid: u16, block: u64, capacity: nat) -> Seq<
    (u16, u64),
> {
    if tracks(bucket, uid) {
        bucket.update(choose|i: int| first_at(bucket, uid, i), (uid, block))
    } else if bucket.len() < capacity {
        bucket.push((uid, block))
    } else {
        bucket
    }
}

/// The bucket without the entries of `uid`.
pub open spec fn without_uid(bucket: Seq<(u16, u64)>, uid: u16) -> Seq<(u16, u64)> {
    bucket.filter(|entry: (u16, u64)| entry.0 != uid)
}

/// The entries that were associated at `block`, in their order.
pub open spec fn at_block(entries: Seq<(u16, u64)>, block: u64) -> Seq<(u16, u64)> {
    entries.filter(|entry: (u16, u64)| entry.1 == block)
}

/// Whether blocks never decrease along the entries.
pub open spec fn blocks_ascend(entries: Seq<(u16, u64)>) -> bool {
    forall|i: int, j: int|
        0 <= i <= j < entries.len() ==> (#[trigger] entries[i]).1 <= (#[trigger] entries[j]).1
}

/// Whether `sorted` holds the entries of `bucket` from the oldest block to the newest, those of
/// one block in the order in which the bucket holds them.
pub open spec fn stably_sorted(sorted: Seq<(u16, u64)>, bucket: Seq<(u16, u64)>) -> bool {
    &&& blocks_ascend(sorted)
    &&& forall|block: u64| #[trigger] at_block(sorted, block) == at_block(bucket, block)
}

/// Where the first entry of `uid` stands.
pub fn find_uid(bucket: &Vec<(u16, u64)>, uid: u16) -> (found: Option<usize>)
    ensures
        match found {
            Some(i) => first_at(bucket@, uid, i as int) && tracks(bucket@, uid),
            None => !tracks(bucket@, uid),
        },
{
    let mut i: usize = 0;
    while i < bucket.len()
        invariant
            i <= bucket@.len(),
            forall|j: int| 0 <= j < i ==> (#[trigger] bucket@[j]).0 != uid,
        decreases bucket@.len() - i,
    {
        if bucket[i].0 == uid {
            assert(tracked_at(bucket@, uid, i as int));
            return Some(i);
        }
        i = i + 1;
    }
    None
}

/// Associates `uid` at `block`; tells whether the bucket holds the association afterwards.
pub fn upsert(bucket: &mut Vec<(u16, u64)>, uid: u16, block: u64, capacity: u32) -> (stored: bool)
    ensures
        final(bucket)@ == upserted(old(bucket)@, uid, block, capacity as nat),
        stored == (tracks(old(bucket)@, uid) || old(bucket)@.len() < capacity),
{
    match find_uid(bucket, uid) {
        Some(i) => {
            proof {
                let first = choose|k: int| first_at(bucket@, uid, k);
                assert(first_at(bucket@, uid, first));
                assert(first == i) by {
                    if first < i {
                        assert(bucket@[first].0 != uid);
                    }
                    if i < first {
                        assert(bucket@[i as int].0 != uid);
                    }
                }
            }
            bucket.set(i, (uid, block));
            true
        },
        None => {
            if (bucket.len() as u64) < (capacity as u64) {
                bucket.push((uid, block));
                true
            } else {
                false
            }
        },
    }
}

/// A bucket with the same entries.
pub fn copy(bucket: &Vec<(u16, u64)>) -> (same: Vec<(u16, u64)>)
    ensures
        same@ == bucket@,
{
    let mut same: Vec<(u16, u64)> = Vec::new();
    let mut i: usize = 0;
    while i < bucket.len()
        invariant
            i <= bucket@.len(),
            same@ == bucket@.take(i as int),
        decreases bucket@.len() - i,
    {
        same.push(bucket[i]);
        i = i + 1;
        assert(same@ =~= bucket@.take(i as int));
    }
    assert(bucket@.take(i as int) =~= bucket@);
    same
}

/// Drops the entries of `uid`.
pub fn drop_uid(bucket: &Vec<(u16, u64)>, uid: u16) -> (kept: Vec<(u16, u64)>)
    ensures
        kept@ == without_uid(bucket@, uid),
{
    let mut kept: Vec<(u16, u64)> = Vec::new();
    let mut i: usize = 0;
    assert(bucket@.take(0) =~= Seq::empty());
    proof {
        reveal(Seq::filter);
    }
    while i < bucket.len()
        invariant
            i <= bucket@.len(),
            kept@ == without_uid(bucket@.take(i as int), uid),
        decreases bucket@.len() - i,
    {
        proof {
            reveal(Seq::filter);
            assert(bucket@.take(i + 1).drop_last() =~= bucket@.take(i as int));
        }
        if bucket[i].0 != uid {
            kept.push(bucket[i]);
        }
        i = i + 1;
    }
    assert(bucket@.take(i as int) =~= bucket@);
    kept
}

/// Putting an entry behind everything that is not newer keeps the order stable.
pub proof fn lemma_insert_sorted(
    sorted: Seq<(u16, u64)>,
    seen: Seq<(u16, u64)>,
    entry: (u16, u64),
    position: int,
)
    requires
        stably_sorted(sorted, seen),
        0 <= position <= sorted.len(),
        forall|j: int| 0 <= j < position ==> (#[trigger] sorted[j]).1 <= entry.1,
        forall|j: int| position <= j < sorted.len() ==> entry.1 < (#[trigger] sorted[j]).1,
    ensures
        stably_sorted(sorted.insert(position, entry), seen.push(entry)),
{
    let after = sorted.insert(position, entry);
    let front = sorted.take(position);
    let back = sorted.skip(position);
    assert(after =~= front + (seq![entry] + back));
    assert(sorted =~= front + back);
    assert forall|block: u64| #[trigger] at_block(after, block) == at_block(seen.push(entry), block) by {
        let pred = |e: (u16, u64)| e.1 == block;
        assert(at_block(sorted, block) == at_block(seen, block));
        Seq::filter_distributes_over_add(front, seq![entry] + back, pred);
        Seq::filter_distributes_over_add(seq![entry], back, pred);
        Seq::filter_distributes_over_add(front, back, pred);
        reveal(Seq::filter);
        assert(seen.push(entry).drop_last() =~= seen);
        assert(seq![entry].drop_last() =~= Seq::empty());
        assert(Seq::<(u16, u64)>::empty().filter(pred) =~= Seq::empty());
        if entry.1 == block {
            lemma_none_at_block(back, block);
            assert(back.filter(pred) =~= Seq::empty());
            assert(after.filter(pred) =~= front.filter(pred) + seq![entry]);
            assert(sorted.filter(pred) =~= front.filter(pred));
            assert(seen.push(entry).filter(pred) =~= seen.filter(pred).push(entry));
            assert(after.filter(pred) =~= seen.push(entry).filter(pred));
        } else {
            assert(seq![entry].filter(pred) =~= Seq::empty());
            assert(after.filter(pred) =~= front.filter(pred) + back.filter(pred));
        }
    }
}

/// Entries none of which is of `block` leave nothing at `block`.
proof fn lemma_none_at_block(entries: Seq<(u16, u64)>, block: u64)
    requires
        forall|j: int| 0 <= j < entries.len() ==> (#[trigger] entries[j]).1 != block,
    ensures
        at_block(entries, block) == Seq::<(u16, u64)>::empty(),
    decreases entries.len(),
{
    reveal(Seq::filter);
    if entries.len() > 0 {
        lemma_none_at_block(entries.drop_last(), block);
    }
}

/// The entries of a bucket from the oldest block to the newest, those of one block in the order in
/// which the bucket holds them.
pub fn sort_by_block(bucket: &Vec<(u16, u64)>) -> (sorted: Vec<(u16, u64)>)
    ensures
        stably_sorted(sorted@, bucket@),
        sorted@.len() == bucket@.len(),
{
    let mut sorted: Vec<(u16, u64)> = Vec::new();
    let mut i: usize = 0;
    assert(bucket@.take(0) =~= Seq::empty());
    while i < bucket.len()
        invariant
            i <= bucket@.len(),
            sorted@.len() == i,
            stably_sorted(sorted@, bucket@.take(i as int)),
        decreases bucket@.len() - i,
    {
        let entry = bucket[i];
        let mut position: usize = sorted.len();
        while position > 0 && entry.1 < sorted[position - 1].1
            invariant
                position <= sorted@.len(),
                forall|j: int| position <= j < sorted@.len() ==> entry.1 < (#[trigger] sorted@[j]).1,
            decreases position,
        {
            position = position - 1;
        }
        proof {
            lemma_insert_sorted(sorted@, bucket@.take(i as int), entry, position as int);
            assert(bucket@.take(i as int).push(entry) =~= bucket@.take(i + 1));
        }
        sorted.insert(position, entry);
        i = i + 1;
    }
    assert(bucket@.take(i as int) =~= bucket@);
    sorted
}

} // verus!
