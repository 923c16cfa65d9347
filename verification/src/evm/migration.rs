//! Filling the buckets of EVM addresses from associations that were made before there were any.
use crate::evm::bucket;
use crate::evm::bucket::upserted;
use crate::evm::index::bucket_of;
use crate::evm::pallet::{DbWeight, Pallet};
use crate::primitives::H160;
use vstd::prelude::*;

verus! {

/// The buckets after associations, in the order of `rows`, were entered into them.
pub open spec fn entered(
    reverse: Map<(u16, H160), Seq<(u16, u64)>>,
    rows: Seq<((u16, u16), (H160, u64))>,
    capacity: nat,
) -> Map<(u16, H160), Seq<(u16, u64)>>
    decreases rows.len(),
{
    if rows.len() == 0 {
        reverse
    } else {
        let earlier = entered(reverse, rows.drop_last(), capacity);
        let netuid = rows.last().0.0;
        let uid = rows.last().0.1;
        let key = rows.last().1.0;
        let block = rows.last().1.1;
        earlier.insert(
            (netuid, key),
            upserted(bucket_of(earlier, netuid, key), uid, block, capacity),
        )
    }
}

/// A weight cut off at the top of the `u64` range.
pub open spec fn capped(weight: int) -> int {
    if weight > u64::MAX {
        u64::MAX as int
    } else {
        weight
    }
}

/// What `reads` reads and `writes` writes weigh.
pub open spec fn access_weight(db_weight: DbWeight, reads: int, writes: int) -> int {
    db_weight.read * reads + db_weight.write * writes
}

/// Enters every association into the bucket of its address, once. Returns what the storage
/// accesses weigh.
pub fn migrate_associated_evm_address_index(pallet: &mut Pallet) -> (weight: u64)
    ensures
        old(pallet).index_migrated ==> *final(pallet) == *old(pallet) && weight == old(
            pallet,
        ).config.db_weight.read,
        !old(pallet).index_migrated ==> {
            &&& final(pallet).associated_uids_by_evm_address@ == entered(
                old(pallet).associated_uids_by_evm_address@,
                old(pallet).associated_evm_address.rows(),
                old(pallet).capacity(),
            )
            &&& final(pallet).index_migrated
            &&& final(pallet).associated_evm_address == old(pallet).associated_evm_address
            &&& final(pallet).owner == old(pallet).owner
            &&& final(pallet).uids == old(pallet).uids
            &&& final(pallet).block_number == old(pallet).block_number
            &&& final(pallet).events == old(pallet).events
            &&& final(pallet).config == old(pallet).config
            &&& weight == capped(
                access_weight(
                    old(pallet).config.db_weight,
                    1 + 2 * (old(pallet).associated_evm_address.rows().len() as int),
                    1 + (old(pallet).associated_evm_address.rows().len() as int),
                ),
            )
        },
{
    let db_weight = pallet.config.db_weight;
    let mut weight: u64 = db_weight.read;
    if pallet.index_migrated {
        return weight;
    }
    let ghost rows = pallet.associated_evm_address.rows();
    let ghost reverse = pallet.associated_uids_by_evm_address@;
    let ghost capacity = pallet.capacity();
    let len: usize = pallet.associated_evm_address.len();
    let mut i: usize = 0;
    assert(rows.take(0) =~= Seq::empty());
    assert(access_weight(db_weight, 1, 0) == db_weight.read) by (nonlinear_arith);
    while i < len
        invariant
            i <= len,
            len == rows.len(),
            db_weight == old(pallet).config.db_weight,
            rows == old(pallet).associated_evm_address.rows(),
            reverse == old(pallet).associated_uids_by_evm_address@,
            capacity == old(pallet).capacity(),
            pallet.associated_uids_by_evm_address@ == entered(reverse, rows.take(i as int), capacity),
            !pallet.index_migrated,
            pallet.associated_evm_address == old(pallet).associated_evm_address,
            pallet.owner == old(pallet).owner,
            pallet.uids == old(pallet).uids,
            pallet.block_number == old(pallet).block_number,
            pallet.events == old(pallet).events,
            pallet.config == old(pallet).config,
            weight == capped(access_weight(db_weight, 1 + 2 * i, i as int)),
        decreases len - i,
    {
        let row = pallet.associated_evm_address.row(i);
        let netuid: u16 = row.0.0;
        let uid: u16 = row.0.1;
        let evm_key: H160 = row.1.0;
        let block_associated: u64 = row.1.1;
        proof {
            assert(rows.take(i + 1).drop_last() =~= rows.take(i as int));
            assert(rows.take(i + 1).last() == rows[i as int]);
            assert(access_weight(db_weight, 1 + 2 * (i + 1), i + 1) == access_weight(
                db_weight,
                1 + 2 * i,
                i as int,
            ) + 2 * db_weight.read + db_weight.write) by (nonlinear_arith);
        }
        weight = weight.saturating_add(db_weight.read);
        let mut uids = match pallet.associated_uids_by_evm_address.get(&(netuid, evm_key)) {
            Some(stored) => bucket::copy(stored),
            None => Vec::new(),
        };
        bucket::upsert(
            &mut uids,
            uid,
            block_associated,
            pallet.config.max_associated_uids_per_evm_address,
        );
        pallet.associated_uids_by_evm_address.insert((netuid, evm_key), uids);
        weight = weight.saturating_add(db_weight.read.saturating_add(db_weight.write));
        i = i + 1;
    }
    proof {
        assert(rows.take(i as int) =~= rows);
        assert(access_weight(db_weight, 1 + 2 * i, 1 + i) == access_weight(
            db_weight,
            1 + 2 * i,
            i as int,
        ) + db_weight.write) by (nonlinear_arith);
    }
    pallet.index_migrated = true;
    weight.saturating_add(db_weight.write)
}

} // verus!
