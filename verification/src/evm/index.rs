//! The two maps of associations as mathematical objects: from neurons to EVM addresses, and from
//! EVM addresses back to neurons.
use crate::evm::bucket::{tracks, upserted, without_uid};
use crate::primitives::H160;
use crate::storage_table::without_subnet;
use vstd::prelude::*;

verus! {

/// The associations of every subnet.
#[verifier::ext_equal]
pub struct EvmIndex {
    /// The EVM address of a neuron, by subnet and position, and the block of the association.
    pub forward: Map<(u16, u16), (H160, u64)>,
    /// The bucket of an EVM address on a subnet.
    pub reverse: Map<(u16, H160), Seq<(u16, u64)>>,
}

/// The bucket of an address, empty where none is stored.
pub open spec fn bucket_of(
    reverse: Map<(u16, H160), Seq<(u16, u64)>>,
    netuid: u16,
    key: H160,
) -> Seq<(u16, u64)> {
    if reverse.contains_key((netuid, key)) {
        reverse[(netuid, key)]
    } else {
        Seq::empty()
    }
}

/// The position that a compaction gives to `uid`: a neuron that the compaction does not mention
/// stays where it is.
pub open spec fn remapped_uid(old_to_new_uid: Map<usize, usize>, uid: u16) -> u16 {
    if old_to_new_uid.contains_key(uid as usize) {
        old_to_new_uid[uid as usize] as u16
    } else {
        uid
    }
}

/// A bucket with the positions that a compaction gives.
pub open spec fn remapped_bucket(
    old_to_new_uid: Map<usize, usize>,
    bucket: Seq<(u16, u64)>,
) -> Seq<(u16, u64)> {
    bucket.map_values(|entry: (u16, u64)| (remapped_uid(old_to_new_uid, entry.0), entry.1))
}

/// The buckets after those of a subnet followed a compaction of its neurons.
pub open spec fn remapped_buckets(
    reverse: Map<(u16, H160), Seq<(u16, u64)>>,
    netuid: u16,
    old_to_new_uid: Map<usize, usize>,
) -> Map<(u16, H160), Seq<(u16, u64)>> {
    Map::new(
        |k: (u16, H160)| reverse.contains_key(k),
        |k: (u16, H160)|
            if k.0 == netuid {
                remapped_bucket(old_to_new_uid, reverse[k])
            } else {
                reverse[k]
            },
    )
}

/// Whether no neuron has two entries.
pub open spec fn uids_distinct(bucket: Seq<(u16, u64)>) -> bool {
    forall|i: int, j: int|
        0 <= i < bucket.len() && 0 <= j < bucket.len() && i != j ==> (#[trigger] bucket[i]).0 != (
        #[trigger] bucket[j]).0
}

impl EvmIndex {
    /// The bucket of an address, empty where none is stored.
    pub open spec fn bucket(self, netuid: u16, key: H160) -> Seq<(u16, u64)> {
        bucket_of(self.reverse, netuid, key)
    }

    /// Whether an address may be associated with a neuron: the neuron is already in its bucket, or
    /// the bucket has room.
    pub open spec fn has_room(self, netuid: u16, uid: u16, key: H160, capacity: nat) -> bool {
        tracks(self.bucket(netuid, key), uid) || self.bucket(netuid, key).len() < capacity
    }

    /// A neuron left the bucket of an address; a bucket that this empties is dropped.
    pub open spec fn drop_uid(self, netuid: u16, key: H160, uid: u16) -> EvmIndex {
        if !self.reverse.contains_key((netuid, key)) {
            self
        } else if without_uid(self.reverse[(netuid, key)], uid).len() == 0 {
            EvmIndex { reverse: self.reverse.remove((netuid, key)), ..self }
        } else {
            EvmIndex {
                reverse: self.reverse.insert(
                    (netuid, key),
                    without_uid(self.reverse[(netuid, key)], uid),
                ),
                ..self
            }
        }
    }

    /// A neuron entered the bucket of an address, if the bucket had room.
    pub open spec fn upsert(
        self,
        netuid: u16,
        key: H160,
        uid: u16,
        block: u64,
        capacity: nat,
    ) -> EvmIndex {
        EvmIndex {
            reverse: self.reverse.insert(
                (netuid, key),
                upserted(self.bucket(netuid, key), uid, block, capacity),
            ),
            ..self
        }
    }

    /// A neuron was associated: it leaves the bucket of an address that it had before and enters
    /// that of the new one.
    pub open spec fn associate(
        self,
        netuid: u16,
        uid: u16,
        key: H160,
        block: u64,
        capacity: nat,
    ) -> EvmIndex {
        let moved = if self.forward.contains_key((netuid, uid)) && self.forward[(netuid, uid)].0
            != key {
            self.drop_uid(netuid, self.forward[(netuid, uid)].0, uid)
        } else {
            self
        };
        let entered = moved.upsert(netuid, key, uid, block, capacity);
        EvmIndex { forward: entered.forward.insert((netuid, uid), (key, block)), ..entered }
    }

    /// A neuron lost its association.
    pub open spec fn dissociate(self, netuid: u16, uid: u16) -> EvmIndex {
        if self.forward.contains_key((netuid, uid)) {
            EvmIndex { forward: self.forward.remove((netuid, uid)), ..self }.drop_uid(
                netuid,
                self.forward[(netuid, uid)].0,
                uid,
            )
        } else {
            self
        }
    }

    /// A subnet lost its associations.
    pub open spec fn clear(self, netuid: u16) -> EvmIndex {
        EvmIndex {
            forward: without_subnet(self.forward, netuid),
            reverse: without_subnet(self.reverse, netuid),
        }
    }

    /// The buckets of a subnet follow a compaction of its neurons.
    pub open spec fn remap(self, netuid: u16, old_to_new_uid: Map<usize, usize>) -> EvmIndex {
        EvmIndex { reverse: remapped_buckets(self.reverse, netuid, old_to_new_uid), ..self }
    }

    /// Whether a neuron's association is in the bucket of its address.
    pub open spec fn listed(self, netuid: u16, uid: u16) -> bool {
        self.bucket(netuid, self.forward[(netuid, uid)].0).contains(
            (uid, self.forward[(netuid, uid)].1),
        )
    }

    /// Whether an entry of a bucket is the association of its neuron.
    pub open spec fn backed(self, netuid: u16, key: H160, i: int) -> bool {
        let entry = self.reverse[(netuid, key)][i];
        self.forward.contains_key((netuid, entry.0)) && self.forward[(netuid, entry.0)] == (
            key,
            entry.1,
        )
    }

    /// Whether a stored bucket is neither empty nor over its capacity, with each neuron in it once.
    pub open spec fn bucket_sound(self, netuid: u16, key: H160, capacity: nat) -> bool {
        let bucket = self.reverse[(netuid, key)];
        0 < bucket.len() <= capacity && uids_distinct(bucket)
    }

    /// Whether the two maps say the same: every association is in the bucket of its address, every
    /// entry of a bucket is an association, and buckets are sound.
    pub open spec fn consistent(self, capacity: nat) -> bool {
        &&& forall|netuid: u16, uid: u16| #[trigger]
            self.forward.contains_key((netuid, uid)) ==> self.listed(netuid, uid)
        &&& forall|netuid: u16, key: H160, i: int|
            self.reverse.contains_key((netuid, key)) && 0 <= i < self.reverse[(netuid, key)].len()
                ==> #[trigger] self.backed(netuid, key, i)
        &&& forall|netuid: u16, key: H160|
            self.reverse.contains_key((netuid, key)) ==> #[trigger] self.bucket_sound(
                netuid,
                key,
                capacity,
            )
    }
}

} // verus!
