//! What the operations on associations do and answer, by the tables before and after.
use crate::evm::bucket::{stably_sorted, upserted, without_uid};
use crate::evm::bucket_laws::{
    lemma_loses, lemma_names, lemma_ordered, lemma_takes_in, loses, names, orders, others, takes_in,
};
use crate::evm::error::AssociationError;
use crate::evm::migration::migrate_associated_evm_address_index;
use crate::evm::pallet::{Config, Event, Origin, Pallet};
use crate::evm::signature_laws::{lemma_signer, signer_of};
use crate::primitives::{AccountId, H160};
use crate::selection::picks;
use crate::storage_table::{stored_rows, SubnetKey};
use crate::table_laws::{
    elsewhere, lemma_other_positions, lemma_removes, lemma_stores, removes, stores,
};
use std::collections::BTreeMap;
use vstd::prelude::*;

verus! {

/// The associations by neuron.
pub type Forward = Map<(u16, u16), (H160, u64)>;

/// The buckets by address.
pub type Reverse = Map<(u16, H160), Seq<(u16, u64)>>;

/// The entries of an address, none where no bucket is stored.
pub open spec fn entries(buckets: Reverse, slot: (u16, H160)) -> Seq<(u16, u64)> {
    if buckets.contains_key(slot) {
        buckets[slot]
    } else {
        Seq::empty()
    }
}

/// Whether a bucket was stored with new entries, and dropped where none are left.
pub open spec fn keeps_or_drops(
    before: Reverse,
    after: Reverse,
    slot: (u16, H160),
    uid: u16,
) -> bool {
    if before.contains_key(slot) && (exists|i: int|
        0 <= i < before[slot].len() && (#[trigger] before[slot][i]).0 != uid) {
        after.contains_key(slot) && loses(before[slot], after[slot], uid)
    } else {
        !after.contains_key(slot)
    }
}

/// Whether nothing but the associations and the events differs.
pub open spec fn rest_stays(before: Pallet, after: Pallet) -> bool {
    &&& after.owner == before.owner
    &&& after.uids == before.uids
    &&& after.index_migrated == before.index_migrated
    &&& after.block_number == before.block_number
    &&& after.config == before.config
}

/// Whether a neuron was associated with an address at a block: the neuron has the address and the
/// block; the bucket of the address took it in; the bucket of another address that it had before
/// lost it; and no other neuron and no other bucket changed.
pub open spec fn associates(
    before: Pallet,
    after: Pallet,
    netuid: u16,
    uid: u16,
    evm_key: H160,
    block: u64,
) -> bool {
    let neurons = before.associated_evm_address@;
    let buckets = before.associated_uids_by_evm_address@;
    let new_neurons = after.associated_evm_address@;
    let new_buckets = after.associated_uids_by_evm_address@;
    let most = before.config.max_associated_uids_per_evm_address as int;
    let moves = neurons.contains_key((netuid, uid)) && neurons[(netuid, uid)].0 != evm_key;
    &&& stores(
        before.associated_evm_address.rows(),
        after.associated_evm_address.rows(),
        (netuid, uid),
        (evm_key, block),
    )
    &&& new_neurons.contains_key((netuid, uid))
    &&& new_neurons[(netuid, uid)] == (evm_key, block)
    &&& forall|other: (u16, u16)|
        other != (netuid, uid) ==> (#[trigger] new_neurons.contains_key(other)
            <==> neurons.contains_key(other))
    &&& forall|other: (u16, u16)|
        other != (netuid, uid) && neurons.contains_key(other) ==> #[trigger] new_neurons[other]
            == neurons[other]
    &&& new_buckets.contains_key((netuid, evm_key))
    &&& takes_in(
        entries(buckets, (netuid, evm_key)),
        new_buckets[(netuid, evm_key)],
        uid,
        block,
        most,
    )
    &&& moves ==> keeps_or_drops(buckets, new_buckets, (netuid, neurons[(netuid, uid)].0), uid)
    &&& forall|slot: (u16, H160)|
        slot != (netuid, evm_key) && !(moves && slot == (netuid, neurons[(netuid, uid)].0)) ==> (
        #[trigger] new_buckets.contains_key(slot) <==> buckets.contains_key(slot))
    &&& forall|slot: (u16, H160)|
        slot != (netuid, evm_key) && !(moves && slot == (netuid, neurons[(netuid, uid)].0))
            && buckets.contains_key(slot) ==> #[trigger] new_buckets[slot] == buckets[slot]
}

/// An address has room for a neuron exactly where its bucket names the neuron already, or holds
/// fewer neurons than it may: it is refused for want of room nowhere else.
pub proof fn law_ensure_evm_address_index_capacity(
    pallet: Pallet,
    netuid: u16,
    uid: u16,
    evm_key: H160,
    result: Result<(), AssociationError>,
)
    requires
        call_ensures(
            Pallet::ensure_evm_address_index_capacity,
            (&pallet, netuid, uid, evm_key),
            result,
        ),
    ensures
        ({
            let bucket = entries(pallet.associated_uids_by_evm_address@, (netuid, evm_key));
            if names(bucket, uid) || bucket.len()
                < pallet.config.max_associated_uids_per_evm_address {
                result is Ok
            } else {
                result == Err::<(), AssociationError>(
                    AssociationError::EvmKeyAssociationLimitExceeded,
                )
            }
        }),
{
    lemma_names(entries(pallet.associated_uids_by_evm_address@, (netuid, evm_key)), uid);
}

/// Whether fewer blocks passed since a neuron was associated than must. A neuron that never was
/// counts from block 0, and a block to come as the current one.
pub open spec fn too_early(pallet: Pallet, netuid: u16, uid: u16) -> bool {
    let neurons = pallet.associated_evm_address@;
    let since: int = if neurons.contains_key((netuid, uid)) {
        neurons[(netuid, uid)].1 as int
    } else {
        0
    };
    pallet.config.evm_key_associate_rate_limit > 0 && pallet.block_number < since
        + pallet.config.evm_key_associate_rate_limit
}

/// A neuron is held back exactly where fewer blocks passed than must.
pub proof fn law_ensure_evm_key_associate_rate_limit(
    pallet: Pallet,
    netuid: u16,
    uid: u16,
    result: Result<(), AssociationError>,
)
    requires
        call_ensures(
            Pallet::ensure_evm_key_associate_rate_limit,
            (&pallet, netuid, uid),
            result,
        ),
    ensures
        too_early(pallet, netuid, uid) ==> result == Err::<(), AssociationError>(
            AssociationError::EvmKeyAssociateRateLimitExceeded,
        ),
        !too_early(pallet, netuid, uid) ==> result is Ok,
{
}

/// Dropping a neuron from a stored bucket leaves nothing exactly where it names no other.
proof fn lemma_left(bucket: Seq<(u16, u64)>, left: Seq<(u16, u64)>, uid: u16)
    requires
        loses(bucket, left, uid),
    ensures
        left.len() == 0 <==> !(exists|i: int|
            0 <= i < bucket.len() && (#[trigger] bucket[i]).0 != uid),
{
    let at = choose|at: Seq<int>| #[trigger]
        others(at, bucket, uid) && left.len() == at.len() && forall|k: int|
            0 <= k < at.len() ==> #[trigger] left[k] == bucket[at[k]];
    if exists|i: int| 0 <= i < bucket.len() && (#[trigger] bucket[i]).0 != uid {
        let i = choose|i: int| 0 <= i < bucket.len() && (#[trigger] bucket[i]).0 != uid;
        assert(at.contains(i));
    }
    if left.len() > 0 {
        assert(bucket[at[0]].0 != uid);
    }
}

/// The facts on the two buckets that an association or its end may touch.
proof fn lemma_touched(pallet: Pallet, netuid: u16, uid: u16, evm_key: H160, block: u64)
    ensures
        stores(
            pallet.associated_evm_address.rows(),
            stored_rows(pallet.associated_evm_address.rows(), (netuid, uid), (evm_key, block)),
            (netuid, uid),
            (evm_key, block),
        ),
        takes_in(
            entries(pallet.associated_uids_by_evm_address@, (netuid, evm_key)),
            upserted(
                entries(pallet.associated_uids_by_evm_address@, (netuid, evm_key)),
                uid,
                block,
                pallet.config.max_associated_uids_per_evm_address as nat,
            ),
            uid,
            block,
            pallet.config.max_associated_uids_per_evm_address as int,
        ),
        forall|bucket: Seq<(u16, u64)>|
            {
                let left = #[trigger] without_uid(bucket, uid);
                &&& loses(bucket, left, uid)
                &&& left.len() == 0 <==> !(exists|i: int|
                    0 <= i < bucket.len() && (#[trigger] bucket[i]).0 != uid)
            },
{
    lemma_stores(pallet.associated_evm_address.rows(), (netuid, uid), (evm_key, block));
    lemma_takes_in(
        entries(pallet.associated_uids_by_evm_address@, (netuid, evm_key)),
        uid,
        block,
        pallet.config.max_associated_uids_per_evm_address as nat,
    );
    assert forall|bucket: Seq<(u16, u64)>|
        {
            let left = #[trigger] without_uid(bucket, uid);
            &&& loses(bucket, left, uid)
            &&& left.len() == 0 <==> !(exists|i: int|
                0 <= i < bucket.len() && (#[trigger] bucket[i]).0 != uid)
        } by {
        lemma_loses(bucket, uid);
        lemma_left(bucket, without_uid(bucket, uid), uid);
    }
}

/// Associating a neuron changes what it should, and nothing else.
pub proof fn law_set_associated_evm_address(
    pallet: &mut Pallet,
    netuid: u16,
    uid: u16,
    evm_key: H160,
    block: u64,
)
    requires
        call_ensures(
            Pallet::set_associated_evm_address,
            (pallet, netuid, uid, evm_key, block),
            (),
        ),
    ensures
        associates(*old(pallet), *final(pallet), netuid, uid, evm_key, block),
        rest_stays(*old(pallet), *final(pallet)),
        final(pallet).events == old(pallet).events,
{
    lemma_touched(*old(pallet), netuid, uid, evm_key, block);
}

/// A neuron that loses its association has none any more, its address no longer names it, and
/// nothing else changes; one that has none changes nothing.
pub proof fn law_remove_associated_evm_address(pallet: &mut Pallet, netuid: u16, uid: u16)
    requires
        call_ensures(Pallet::remove_associated_evm_address, (pallet, netuid, uid), ()),
    ensures
        rest_stays(*old(pallet), *final(pallet)),
        removes(
            old(pallet).associated_evm_address.rows(),
            final(pallet).associated_evm_address.rows(),
            (netuid, uid),
        ),
        final(pallet).events == old(pallet).events,
        ({
            let neurons = old(pallet).associated_evm_address@;
            let buckets = old(pallet).associated_uids_by_evm_address@;
            let new_neurons = final(pallet).associated_evm_address@;
            let new_buckets = final(pallet).associated_uids_by_evm_address@;
            let had = neurons.contains_key((netuid, uid));
            let slot = (netuid, neurons[(netuid, uid)].0);
            &&& !new_neurons.contains_key((netuid, uid))
            &&& forall|other: (u16, u16)|
                other != (netuid, uid) ==> (#[trigger] new_neurons.contains_key(other)
                    <==> neurons.contains_key(other))
            &&& forall|other: (u16, u16)|
                other != (netuid, uid) && neurons.contains_key(other)
                    ==> #[trigger] new_neurons[other] == neurons[other]
            &&& had ==> keeps_or_drops(buckets, new_buckets, slot, uid)
            &&& forall|other: (u16, H160)|
                !(had && other == slot) ==> (#[trigger] new_buckets.contains_key(other)
                    <==> buckets.contains_key(other))
            &&& forall|other: (u16, H160)|
                !(had && other == slot) && buckets.contains_key(other)
                    ==> #[trigger] new_buckets[other] == buckets[other]
        }),
{
    lemma_removes(old(pallet).associated_evm_address.rows(), (netuid, uid));
    let evm_key = old(pallet).associated_evm_address@[(netuid, uid)].0;
    lemma_touched(*old(pallet), netuid, uid, evm_key, 0);
}

/// Whether `at` are the positions of the associations of other subnets, from the first to the last.
pub open spec fn rows_elsewhere(
    at: Seq<int>,
    rows: Seq<((u16, u16), (H160, u64))>,
    netuid: u16,
) -> bool {
    picks(at, rows, |row: ((u16, u16), (H160, u64))| row.0.0 != netuid)
}

/// Clearing a subnet takes all its neurons and buckets away, and nothing of another subnet.
pub proof fn law_clear_associated_evm_addresses(pallet: &mut Pallet, netuid: u16)
    requires
        call_ensures(Pallet::clear_associated_evm_addresses, (pallet, netuid), ()),
    ensures
        rest_stays(*old(pallet), *final(pallet)),
        final(pallet).events == old(pallet).events,
        ({
            let rows = old(pallet).associated_evm_address.rows();
            let new_rows = final(pallet).associated_evm_address.rows();
            let neurons = old(pallet).associated_evm_address@;
            let buckets = old(pallet).associated_uids_by_evm_address@;
            let new_neurons = final(pallet).associated_evm_address@;
            let new_buckets = final(pallet).associated_uids_by_evm_address@;
            &&& exists|at: Seq<int>| #[trigger]
                rows_elsewhere(at, rows, netuid) && new_rows.len() == at.len() && forall|k: int|
                    0 <= k < at.len() ==> #[trigger] new_rows[k] == rows[at[k]]
            &&& forall|neuron: (u16, u16)| #[trigger]
                new_neurons.contains_key(neuron) <==> neurons.contains_key(neuron) && neuron.0
                    != netuid
            &&& forall|neuron: (u16, u16)|
                new_neurons.contains_key(neuron) ==> #[trigger] new_neurons[neuron]
                    == neurons[neuron]
            &&& forall|slot: (u16, H160)| #[trigger]
                new_buckets.contains_key(slot) <==> buckets.contains_key(slot) && slot.0 != netuid
            &&& forall|slot: (u16, H160)|
                new_buckets.contains_key(slot) ==> #[trigger] new_buckets[slot] == buckets[slot]
        }),
{
    let rows = old(pallet).associated_evm_address.rows();
    let at = lemma_other_positions(rows, netuid);
    let keep = |row: ((u16, u16), (H160, u64))| row.0.0 != netuid;
    assert(picks(at, rows, keep)) by {
        let kept = |row: ((u16, u16), (H160, u64))| row.0.subnet_of() != netuid;
        assert(elsewhere(at, rows, netuid));
        assert(picks(at, rows, kept));
        assert forall|i: int| 0 <= i < rows.len() && keep(#[trigger] rows[i]) implies at.contains(
            i,
        ) by {
            assert(kept(rows[i]));
        }
        assert forall|k: int| 0 <= k < at.len() implies 0 <= #[trigger] at[k] < rows.len() && keep(
            rows[at[k]],
        ) by {
            assert(kept(rows[at[k]]));
        }
    }
    assert(rows_elsewhere(at, rows, netuid));
}

/// A lookup gives the entries of the address from the oldest block to the newest, those of one block
/// as they stand in the bucket, and the first of them up to the limit.
pub proof fn law_uid_lookup(
    pallet: Pallet,
    netuid: u16,
    evm_key: H160,
    limit: u16,
    uids: Vec<(u16, u64)>,
)
    requires
        call_ensures(Pallet::uid_lookup, (&pallet, netuid, evm_key, limit), uids),
    ensures
        ({
            let bucket = entries(pallet.associated_uids_by_evm_address@, (netuid, evm_key));
            &&& uids@.len() == if limit < bucket.len() {
                limit as int
            } else {
                bucket.len() as int
            }
            &&& exists|at: Seq<int>| #[trigger]
                orders(at, bucket) && forall|k: int|
                    0 <= k < uids@.len() ==> #[trigger] uids@[k] == bucket[at[k]]
        }),
{
    let bucket = entries(pallet.associated_uids_by_evm_address@, (netuid, evm_key));
    let sorted = choose|sorted: Seq<(u16, u64)>| #[trigger]
        stably_sorted(sorted, bucket) && uids@ == sorted.take(
            if limit <= sorted.len() {
                limit as int
            } else {
                sorted.len() as int
            },
        );
    let at = lemma_ordered(sorted, bucket);
    assert forall|k: int| 0 <= k < uids@.len() implies #[trigger] uids@[k] == bucket[at[k]] by {
        assert(uids@[k] == sorted[k]);
    }
}

/// Compacting the neurons of a subnet replaces each neuron in its buckets once, by the position that
/// the mapping has for it, and leaves one that the mapping does not have. Blocks, places, the
/// buckets of other subnets and the associations stay.
pub proof fn law_remap_associated_evm_address_index(
    pallet: &mut Pallet,
    netuid: u16,
    old_to_new_uid: BTreeMap<usize, usize>,
)
    requires
        call_ensures(
            Pallet::remap_associated_evm_address_index,
            (pallet, netuid, &old_to_new_uid),
            (),
        ),
    ensures
        rest_stays(*old(pallet), *final(pallet)),
        final(pallet).events == old(pallet).events,
        final(pallet).associated_evm_address == old(pallet).associated_evm_address,
        ({
            let buckets = old(pallet).associated_uids_by_evm_address@;
            let new_buckets = final(pallet).associated_uids_by_evm_address@;
            let moved = old_to_new_uid@;
            &&& forall|slot: (u16, H160)| #[trigger]
                new_buckets.contains_key(slot) <==> buckets.contains_key(slot)
            &&& forall|slot: (u16, H160)|
                buckets.contains_key(slot) && slot.0 != netuid ==> #[trigger] new_buckets[slot]
                    == buckets[slot]
            &&& forall|slot: (u16, H160)|
                buckets.contains_key(slot) && slot.0 == netuid ==> (
                #[trigger] new_buckets[slot]).len() == buckets[slot].len()
            &&& forall|slot: (u16, H160), i: int|
                buckets.contains_key(slot) && slot.0 == netuid && 0 <= i < buckets[slot].len() ==> {
                    let was = buckets[slot][i];
                    &&& (#[trigger] new_buckets[slot][i]).1 == was.1
                    &&& moved.contains_key(was.0 as usize) ==> new_buckets[slot][i].0
                        == moved[was.0 as usize] as u16
                    &&& !moved.contains_key(was.0 as usize) ==> new_buckets[slot][i].0 == was.0
                }
        }),
{
}

/// A new chain has no association, no owner, no neuron and no event, and the given configuration.
pub proof fn law_new_pallet(config: Config, pallet: Pallet)
    requires
        call_ensures(Pallet::new, (config,), pallet),
    ensures
        pallet.config == config,
        pallet.block_number == 0,
        !pallet.index_migrated,
        pallet.events@.len() == 0,
        forall|neuron: (u16, u16)| !#[trigger] pallet.associated_evm_address@.contains_key(neuron),
        forall|slot: (u16, H160)|
            !#[trigger] pallet.associated_uids_by_evm_address@.contains_key(slot),
        forall|hotkey: AccountId| !#[trigger] pallet.owner@.contains_key(hotkey),
        forall|place: (u16, AccountId)| !#[trigger] pallet.uids@.contains_key(place),
{
}

/// Whether a neuron was associated at the current block, and the event of it was added.
pub open spec fn grants_association(
    before: Pallet,
    after: Pallet,
    netuid: u16,
    hotkey: AccountId,
    uid: u16,
    evm_key: H160,
) -> bool {
    &&& associates(before, after, netuid, uid, evm_key, before.block_number)
    &&& rest_stays(before, after)
    &&& after.events@.len() == before.events@.len() + 1
    &&& forall|i: int|
        0 <= i < before.events@.len() ==> #[trigger] after.events@[i] == before.events@[i]
    &&& after.events@[before.events@.len() as int] == (Event::EvmKeyAssociated {
        netuid,
        hotkey,
        evm_key,
        block_associated: before.block_number,
    })
}

/// Whether an address has room for a neuron.
pub open spec fn room_for(pallet: Pallet, netuid: u16, uid: u16, evm_key: H160) -> bool {
    let bucket = entries(pallet.associated_uids_by_evm_address@, (netuid, evm_key));
    names(bucket, uid) || bucket.len() < pallet.config.max_associated_uids_per_evm_address
}

/// Once it is known who signed, an association is granted exactly where that is the address that is
/// to be associated and it has room for the neuron; whatever is refused changes nothing.
pub proof fn law_associate_signer(
    pallet: &mut Pallet,
    netuid: u16,
    hotkey: AccountId,
    uid: u16,
    evm_key: H160,
    signer: Result<H160, AssociationError>,
    result: Result<(), AssociationError>,
)
    requires
        call_ensures(
            Pallet::associate_signer,
            (pallet, netuid, hotkey, uid, evm_key, signer),
            result,
        ),
    ensures
        result is Err ==> *final(pallet) == *old(pallet),
        match signer {
            Err(error) => result == Err::<(), AssociationError>(error),
            Ok(address) => if address.0 != evm_key.0 {
                result == Err::<(), AssociationError>(AssociationError::InvalidRecoveredPublicKey)
            } else if !room_for(*old(pallet), netuid, uid, evm_key) {
                result == Err::<(), AssociationError>(
                    AssociationError::EvmKeyAssociationLimitExceeded,
                )
            } else {
                result is Ok && grants_association(
                    *old(pallet),
                    *final(pallet),
                    netuid,
                    hotkey,
                    uid,
                    evm_key,
                )
            },
        },
{
    lemma_names(entries(old(pallet).associated_uids_by_evm_address@, (netuid, evm_key)), uid);
    lemma_touched(*old(pallet), netuid, uid, evm_key, old(pallet).block_number);
    if let Ok(address) = signer {
        if address.0@ == evm_key.0@ {
            assert(address.0 =~= evm_key.0);
        }
    }
}

/// A request is granted exactly where a hotkey makes it that somebody owns, that has a neuron on the
/// subnet which is not held back, and for which the address signed that is to be associated, if that
/// address has room for the neuron. The first of these that fails is the answer, and then nothing
/// changes.
pub proof fn law_do_associate_evm_key(
    pallet: &mut Pallet,
    origin: Origin,
    netuid: u16,
    evm_key: H160,
    block_number: u64,
    signature: [u8; 65],
    result: Result<(), AssociationError>,
)
    requires
        call_ensures(
            Pallet::do_associate_evm_key,
            (pallet, origin, netuid, evm_key, block_number, signature),
            result,
        ),
    ensures
        result is Err ==> *final(pallet) == *old(pallet),
        match origin {
            Origin::Root | Origin::Unsigned => result == Err::<(), AssociationError>(
                AssociationError::BadOrigin,
            ),
            Origin::Signed(hotkey) => {
                let uid = old(pallet).uids@[(netuid, hotkey)];
                let signer = signer_of(signature@, hotkey, block_number);
                let owners = old(pallet).owner@;
                if !owners.contains_key(hotkey) || owners[hotkey] == old(
                    pallet,
                ).config.default_account {
                    result == Err::<(), AssociationError>(AssociationError::NonAssociatedColdKey)
                } else if !old(pallet).uids@.contains_key((netuid, hotkey)) {
                    result == Err::<(), AssociationError>(
                        AssociationError::HotKeyNotRegisteredInSubNet,
                    )
                } else if too_early(*old(pallet), netuid, uid) {
                    result == Err::<(), AssociationError>(
                        AssociationError::EvmKeyAssociateRateLimitExceeded,
                    )
                } else {
                    match signer {
                        Err(error) => result == Err::<(), AssociationError>(error),
                        Ok(address) => if address != evm_key.0@ {
                            result == Err::<(), AssociationError>(
                                AssociationError::InvalidRecoveredPublicKey,
                            )
                        } else if !room_for(*old(pallet), netuid, uid, evm_key) {
                            result == Err::<(), AssociationError>(
                                AssociationError::EvmKeyAssociationLimitExceeded,
                            )
                        } else {
                            result is Ok && grants_association(
                                *old(pallet),
                                *final(pallet),
                                netuid,
                                hotkey,
                                uid,
                                evm_key,
                            )
                        },
                    }
                }
            },
        },
{
    if let Origin::Signed(hotkey) = origin {
        let uid = old(pallet).uids@[(netuid, hotkey)];
        lemma_names(entries(old(pallet).associated_uids_by_evm_address@, (netuid, evm_key)), uid);
        lemma_touched(*old(pallet), netuid, uid, evm_key, old(pallet).block_number);
        lemma_signer(signature@, hotkey, block_number);
    }
}

/// Filling the index takes in the associations one after the other, in the order in which they
/// stand: with one more association at the end, the bucket of its address takes it in, and the
/// others are as without it. With none, nothing is taken in.
pub proof fn law_migration_step(
    fewer: &mut Pallet,
    more: &mut Pallet,
    netuid: u16,
    uid: u16,
    evm_key: H160,
    block: u64,
    weight: u64,
    greater: u64,
)
    requires
        call_ensures(migrate_associated_evm_address_index, (fewer,), weight),
        call_ensures(migrate_associated_evm_address_index, (more,), greater),
        !old(fewer).index_migrated,
        !old(more).index_migrated,
        old(more).config == old(fewer).config,
        old(more).associated_uids_by_evm_address@ == old(fewer).associated_uids_by_evm_address@,
        old(more).associated_evm_address.rows() == old(fewer).associated_evm_address.rows().push(
            ((netuid, uid), (evm_key, block)),
        ),
    ensures
        ({
            let buckets = final(fewer).associated_uids_by_evm_address@;
            let new_buckets = final(more).associated_uids_by_evm_address@;
            &&& old(fewer).associated_evm_address.rows().len() == 0 ==> buckets == old(
                fewer,
            ).associated_uids_by_evm_address@
            &&& new_buckets.contains_key((netuid, evm_key))
            &&& takes_in(
                entries(buckets, (netuid, evm_key)),
                new_buckets[(netuid, evm_key)],
                uid,
                block,
                old(more).config.max_associated_uids_per_evm_address as int,
            )
            &&& forall|slot: (u16, H160)|
                slot != (netuid, evm_key) ==> (#[trigger] new_buckets.contains_key(slot)
                    <==> buckets.contains_key(slot))
            &&& forall|slot: (u16, H160)|
                slot != (netuid, evm_key) && buckets.contains_key(slot)
                    ==> #[trigger] new_buckets[slot] == buckets[slot]
        }),
{
    let rows = old(more).associated_evm_address.rows();
    assert(rows.drop_last() =~= old(fewer).associated_evm_address.rows());
    lemma_takes_in(
        entries(final(fewer).associated_uids_by_evm_address@, (netuid, evm_key)),
        uid,
        block,
        old(more).config.max_associated_uids_per_evm_address as nat,
    );
}

/// Filling the index changes nothing but the buckets, is done once only, and weighs three accesses
/// for each association, two reads and a write, and one read and one write more; where it was done
/// before, it weighs one read.
pub proof fn law_migration_once(pallet: &mut Pallet, weight: u64)
    requires
        call_ensures(migrate_associated_evm_address_index, (pallet,), weight),
    ensures
        final(pallet).index_migrated,
        final(pallet).associated_evm_address == old(pallet).associated_evm_address,
        final(pallet).owner == old(pallet).owner,
        final(pallet).uids == old(pallet).uids,
        final(pallet).block_number == old(pallet).block_number,
        final(pallet).events == old(pallet).events,
        final(pallet).config == old(pallet).config,
        old(pallet).index_migrated ==> *final(pallet) == *old(pallet),
        old(pallet).index_migrated ==> weight == old(pallet).config.db_weight.read,
        !old(pallet).index_migrated ==> {
            let count = old(pallet).associated_evm_address.rows().len() as int;
            let read = old(pallet).config.db_weight.read as int;
            let write = old(pallet).config.db_weight.write as int;
            let all = read + count * (2 * read + write) + write;
            weight == if all > 0xffff_ffff_ffff_ffff {
                0xffff_ffff_ffff_ffff
            } else {
                all
            }
        },
{
    let count = old(pallet).associated_evm_address.rows().len() as int;
    let read = old(pallet).config.db_weight.read as int;
    let write = old(pallet).config.db_weight.write as int;
    assert(read * (1 + 2 * count) + write * (1 + count) == read + count * (2 * read + write)
        + write) by (nonlinear_arith);
}

} // verus!
