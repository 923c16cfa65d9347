//! Associating EVM addresses with the neurons of a subnet.
use crate::evm::bucket;
use crate::evm::error::AssociationError;
use crate::evm::index::{remapped_bucket, remapped_buckets, remapped_uid, EvmIndex};
use crate::evm::signature;
use crate::evm::signature::{association_digest, signer_address};
use crate::primitives::{AccountId, H160};
use crate::storage_table::{
    dropped_rows, keys_distinct, lemma_row, other_rows, row_of, rows_map, stored_rows, StorageTable,
};
use std::collections::BTreeMap;
use vstd::prelude::*;

verus! {

/// Who made a call.
#[derive(Clone, Copy, PartialEq, Eq, Debug)]
pub enum Origin {
    /// The chain itself.
    Root,
    /// An account, with its signature.
    Signed(AccountId),
    /// Nobody who can be named.
    Unsigned,
}

/// What happened.
#[derive(Clone, Copy, PartialEq, Eq, Debug)]
pub enum Event {
    /// An EVM key was associated with a hotkey.
    EvmKeyAssociated {
        netuid: u16,
        hotkey: AccountId,
        evm_key: H160,
        block_associated: u64,
    },
}

/// What one storage read and one storage write weigh.
#[derive(Clone, Copy, PartialEq, Eq, Debug)]
pub struct DbWeight {
    pub read: u64,
    pub write: u64,
}

/// What the chain fixes for the pallet.
#[derive(Clone, Copy, PartialEq, Eq, Debug)]
pub struct Config {
    /// How many neurons of a subnet one EVM address may stand for.
    pub max_associated_uids_per_evm_address: u32,
    /// How many blocks must pass before a neuron can be associated again.
    pub evm_key_associate_rate_limit: u64,
    /// The account that owns what nobody owns.
    pub default_account: AccountId,
    /// What storage accesses weigh.
    pub db_weight: DbWeight,
}

/// The part of the chain's state that associations read and change.
pub struct Pallet {
    /// The EVM address of a neuron, by subnet and position, and the block of the association.
    pub associated_evm_address: StorageTable<(u16, u16), (H160, u64)>,
    /// The neurons that an EVM address stands for on a subnet.
    pub associated_uids_by_evm_address: StorageTable<(u16, H160), Vec<(u16, u64)>>,
    /// The coldkey that owns a hotkey.
    pub owner: StorageTable<AccountId, AccountId>,
    /// The position of a hotkey's neuron on a subnet.
    pub uids: StorageTable<(u16, AccountId), u16>,
    /// Whether the buckets of EVM addresses were filled from the older associations.
    pub index_migrated: bool,
    /// The current block.
    pub block_number: u64,
    /// What happened so far, the latest last.
    pub events: Vec<Event>,
    pub config: Config,
}

impl Pallet {
    /// The associations.
    pub open spec fn index(&self) -> EvmIndex {
        EvmIndex {
            forward: self.associated_evm_address@,
            reverse: self.associated_uids_by_evm_address@,
        }
    }

    /// How many neurons of a subnet one EVM address may stand for.
    pub open spec fn capacity(&self) -> nat {
        self.config.max_associated_uids_per_evm_address as nat
    }

    /// Whether everything but the associations is as it was in `before`.
    pub open spec fn only_index_changed(&self, before: &Pallet) -> bool {
        &&& self.owner == before.owner
        &&& self.uids == before.uids
        &&& self.index_migrated == before.index_migrated
        &&& self.block_number == before.block_number
        &&& self.events == before.events
        &&& self.config == before.config
    }

    /// The coldkey that owns a hotkey, or the account that owns what nobody owns.
    pub open spec fn owning_coldkey(&self, hotkey: AccountId) -> AccountId {
        if self.owner@.contains_key(hotkey) {
            self.owner@[hotkey]
        } else {
            self.config.default_account
        }
    }

    /// How many blocks ago a neuron was associated; a neuron that never was counts from block 0.
    pub open spec fn blocks_since_association(&self, netuid: u16, uid: u16) -> int {
        let associated: int = if self.associated_evm_address@.contains_key((netuid, uid)) {
            self.associated_evm_address@[(netuid, uid)].1 as int
        } else {
            0
        };
        if associated > self.block_number {
            0
        } else {
            self.block_number - associated
        }
    }

    /// Whether a neuron was associated too recently to be associated again.
    pub open spec fn rate_limited(&self, netuid: u16, uid: u16) -> bool {
        self.blocks_since_association(netuid, uid) < self.config.evm_key_associate_rate_limit
    }

    /// A chain without associations.
    pub fn new(config: Config) -> (pallet: Pallet)
        ensures
            pallet.index() == (EvmIndex { forward: Map::empty(), reverse: Map::empty() }),
            pallet.owner@ == Map::<AccountId, AccountId>::empty(),
            pallet.uids@ == Map::<(u16, AccountId), u16>::empty(),
            pallet.index_migrated == false,
            pallet.block_number == 0,
            pallet.events@ == Seq::<Event>::empty(),
            pallet.config == config,
    {
        Pallet {
            associated_evm_address: StorageTable::new(),
            associated_uids_by_evm_address: StorageTable::new(),
            owner: StorageTable::new(),
            uids: StorageTable::new(),
            index_migrated: false,
            block_number: 0,
            events: Vec::new(),
            config,
        }
    }

    /// The bucket of an address, empty where none is stored.
    fn bucket(&self, netuid: u16, evm_key: H160) -> (bucket: Vec<(u16, u64)>)
        ensures
            bucket@ == self.index().bucket(netuid, evm_key),
    {
        match self.associated_uids_by_evm_address.get(&(netuid, evm_key)) {
            Some(stored) => bucket::copy(stored),
            None => Vec::new(),
        }
    }

    /// Checks that `evm_key` can be associated with `uid` without standing for more neurons of the
    /// subnet than it may. A neuron that it already stands for takes no new place.
    pub fn ensure_evm_address_index_capacity(
        &self,
        netuid: u16,
        uid: u16,
        evm_key: H160,
    ) -> (res: Result<(), AssociationError>)
        ensures
            res == if self.index().has_room(netuid, uid, evm_key, self.capacity()) {
                Ok::<(), AssociationError>(())
            } else {
                Err::<(), AssociationError>(AssociationError::EvmKeyAssociationLimitExceeded)
            },
    {
        let bucket = self.bucket(netuid, evm_key);
        let already_tracked = bucket::find_uid(&bucket, uid).is_some();
        if already_tracked || (bucket.len() as u64) < (
        self.config.max_associated_uids_per_evm_address as u64) {
            Ok(())
        } else {
            Err(AssociationError::EvmKeyAssociationLimitExceeded)
        }
    }

    /// Associates the neuron `uid` with `evm_key`, whatever it was associated with before.
    pub fn set_associated_evm_address(
        &mut self,
        netuid: u16,
        uid: u16,
        evm_key: H160,
        block_associated: u64,
    )
        ensures
            final(self).index() == old(self).index().associate(
                netuid,
                uid,
                evm_key,
                block_associated,
                old(self).capacity(),
            ),
            final(self).associated_evm_address.rows() == stored_rows(
                old(self).associated_evm_address.rows(),
                (netuid, uid),
                (evm_key, block_associated),
            ),
            final(self).only_index_changed(old(self)),
    {
        let previous: Option<H160> = match self.associated_evm_address.get(&(netuid, uid)) {
            Some(association) => Some(association.0),
            None => None,
        };
        if let Some(old_evm_key) = previous {
            if !old_evm_key.same(&evm_key) {
                self.remove_uid_from_evm_address_index(netuid, old_evm_key, uid);
            }
        }
        self.upsert_uid_in_evm_address_index(netuid, evm_key, uid, block_associated);
        self.associated_evm_address.insert((netuid, uid), (evm_key, block_associated));
    }

    /// Takes the association of the neuron `uid` away, if it has one.
    pub fn remove_associated_evm_address(&mut self, netuid: u16, uid: u16)
        ensures
            final(self).index() == old(self).index().dissociate(netuid, uid),
            final(self).associated_evm_address.rows() == dropped_rows(
                old(self).associated_evm_address.rows(),
                (netuid, uid),
            ),
            final(self).only_index_changed(old(self)),
    {
        if let Some(association) = self.associated_evm_address.take(&(netuid, uid)) {
            self.remove_uid_from_evm_address_index(netuid, association.0, uid);
        } else {
            assert(self.index() =~= old(self).index());
        }
    }

    /// Takes the associations of every neuron of a subnet away.
    pub fn clear_associated_evm_addresses(&mut self, netuid: u16)
        ensures
            final(self).index() == old(self).index().clear(netuid),
            final(self).associated_evm_address.rows() == other_rows(
                old(self).associated_evm_address.rows(),
                netuid,
            ),
            final(self).only_index_changed(old(self)),
    {
        self.associated_evm_address.clear_prefix(netuid);
        self.associated_uids_by_evm_address.clear_prefix(netuid);
    }

    fn upsert_uid_in_evm_address_index(
        &mut self,
        netuid: u16,
        evm_key: H160,
        uid: u16,
        block_associated: u64,
    )
        ensures
            final(self).index() == old(self).index().upsert(
                netuid,
                evm_key,
                uid,
                block_associated,
                old(self).capacity(),
            ),
            final(self).associated_evm_address == old(self).associated_evm_address,
            final(self).only_index_changed(old(self)),
    {
        let mut uids = self.bucket(netuid, evm_key);
        bucket::upsert(
            &mut uids,
            uid,
            block_associated,
            self.config.max_associated_uids_per_evm_address,
        );
        self.associated_uids_by_evm_address.insert((netuid, evm_key), uids);
    }

    fn remove_uid_from_evm_address_index(&mut self, netuid: u16, evm_key: H160, uid: u16)
        ensures
            final(self).index() == old(self).index().drop_uid(netuid, evm_key, uid),
            final(self).associated_evm_address == old(self).associated_evm_address,
            final(self).only_index_changed(old(self)),
    {
        let kept: Option<Vec<(u16, u64)>> = match self.associated_uids_by_evm_address.get(
            &(netuid, evm_key),
        ) {
            Some(stored) => Some(bucket::drop_uid(stored, uid)),
            None => None,
        };
        if let Some(uids) = kept {
            if uids.len() == 0 {
                self.associated_uids_by_evm_address.take(&(netuid, evm_key));
            } else {
                self.associated_uids_by_evm_address.insert((netuid, evm_key), uids);
            }
        }
    }

    /// The neurons that `evm_key` stands for on a subnet, from the longest associated on, and at
    /// most `limit` of them.
    pub fn uid_lookup(&self, netuid: u16, evm_key: H160, limit: u16) -> (uids: Vec<(u16, u64)>)
        ensures
            exists|sorted: Seq<(u16, u64)>| #[trigger]
                bucket::stably_sorted(sorted, self.index().bucket(netuid, evm_key)) && uids@
                    == sorted.take(
                    if limit <= sorted.len() {
                        limit as int
                    } else {
                        sorted.len() as int
                    },
                ),
            uids@.len() == if limit <= self.index().bucket(netuid, evm_key).len() {
                limit as nat
            } else {
                self.index().bucket(netuid, evm_key).len()
            },
    {
        let stored = self.bucket(netuid, evm_key);
        let mut uids = bucket::sort_by_block(&stored);
        let ghost sorted = uids@;
        if (limit as usize) < uids.len() {
            uids.truncate(limit as usize);
        }
        assert(uids@ =~= sorted.take(
            if limit <= sorted.len() {
                limit as int
            } else {
                sorted.len() as int
            },
        ));
        uids
    }

    /// Checks that enough blocks passed since the neuron `uid` was associated.
    pub fn ensure_evm_key_associate_rate_limit(&self, netuid: u16, uid: u16) -> (res: Result<
        (),
        AssociationError,
    >)
        ensures
            res == if self.rate_limited(netuid, uid) {
                Err::<(), AssociationError>(AssociationError::EvmKeyAssociateRateLimitExceeded)
            } else {
                Ok::<(), AssociationError>(())
            },
    {
        let block_associated: u64 = match self.associated_evm_address.get(&(netuid, uid)) {
            Some(association) => association.1,
            None => 0,
        };
        let block_diff: u64 = self.block_number.saturating_sub(block_associated);
        if block_diff < self.config.evm_key_associate_rate_limit {
            Err(AssociationError::EvmKeyAssociateRateLimitExceeded)
        } else {
            Ok(())
        }
    }

    /// Why an association of the neuron `uid` with `evm_key` is refused once it is known which
    /// address signed, if it is.
    pub open spec fn signer_refusal(
        &self,
        netuid: u16,
        uid: u16,
        evm_key: H160,
        signer: Result<Seq<u8>, AssociationError>,
    ) -> Option<AssociationError> {
        match signer {
            Err(e) => Some(e),
            Ok(address) => if evm_key.0@ != address {
                Some(AssociationError::InvalidRecoveredPublicKey)
            } else if !self.index().has_room(netuid, uid, evm_key, self.capacity()) {
                Some(AssociationError::EvmKeyAssociationLimitExceeded)
            } else {
                None
            },
        }
    }

    /// Why an association is refused, if it is: the first of the checks that fails.
    pub open spec fn refusal(
        &self,
        origin: Origin,
        netuid: u16,
        evm_key: H160,
        block_number: u64,
        signature: Seq<u8>,
    ) -> Option<AssociationError> {
        match origin {
            Origin::Signed(hotkey) => if self.owning_coldkey(hotkey)
                == self.config.default_account {
                Some(AssociationError::NonAssociatedColdKey)
            } else if !self.uids@.contains_key((netuid, hotkey)) {
                Some(AssociationError::HotKeyNotRegisteredInSubNet)
            } else if self.rate_limited(netuid, self.uids@[(netuid, hotkey)]) {
                Some(AssociationError::EvmKeyAssociateRateLimitExceeded)
            } else {
                self.signer_refusal(
                    netuid,
                    self.uids@[(netuid, hotkey)],
                    evm_key,
                    signer_address(signature, association_digest(hotkey, block_number)),
                )
            },
            _ => Some(AssociationError::BadOrigin),
        }
    }

    /// Whether this is `before` with the neuron `uid` of `hotkey` associated with `evm_key` at the
    /// current block, and the event of it.
    pub open spec fn associated_from(
        &self,
        before: &Pallet,
        netuid: u16,
        hotkey: AccountId,
        uid: u16,
        evm_key: H160,
    ) -> bool {
        &&& self.index() == before.index().associate(
            netuid,
            uid,
            evm_key,
            before.block_number,
            before.capacity(),
        )
        &&& self.associated_evm_address.rows() == stored_rows(
            before.associated_evm_address.rows(),
            (netuid, uid),
            (evm_key, before.block_number),
        )
        &&& self.events@ == before.events@.push(
            Event::EvmKeyAssociated {
                netuid,
                hotkey,
                evm_key,
                block_associated: before.block_number,
            },
        )
        &&& self.owner == before.owner
        &&& self.uids == before.uids
        &&& self.index_migrated == before.index_migrated
        &&& self.block_number == before.block_number
        &&& self.config == before.config
    }

    /// Associates the neuron `uid` of `hotkey` with `evm_key` if `evm_key` is the address that
    /// signed and has room for the neuron.
    pub fn associate_signer(
        &mut self,
        netuid: u16,
        hotkey: AccountId,
        uid: u16,
        evm_key: H160,
        signer: Result<H160, AssociationError>,
    ) -> (res: Result<(), AssociationError>)
        ensures
            ({
                let claimed = match signer {
                    Ok(address) => Ok(address.0@),
                    Err(e) => Err(e),
                };
                match old(self).signer_refusal(netuid, uid, evm_key, claimed) {
                    Some(e) => res == Err::<(), AssociationError>(e) && *final(self) == *old(self),
                    None => res == Ok::<(), AssociationError>(()) && final(self).associated_from(
                        old(self),
                        netuid,
                        hotkey,
                        uid,
                        evm_key,
                    ),
                }
            }),
    {
        let address = match signer {
            Ok(address) => address,
            Err(e) => {
                return Err(e);
            },
        };
        if !evm_key.same(&address) {
            assert(evm_key.0@ != address.0@) by {
                if evm_key.0@ == address.0@ {
                    assert(evm_key.0 =~= address.0);
                }
            }
            return Err(AssociationError::InvalidRecoveredPublicKey);
        }
        match self.ensure_evm_address_index_capacity(netuid, uid, evm_key) {
            Ok(_) => {},
            Err(e) => {
                return Err(e);
            },
        }
        let current_block_number: u64 = self.block_number;
        self.set_associated_evm_address(netuid, uid, evm_key, current_block_number);
        self.events.push(
            Event::EvmKeyAssociated {
                netuid,
                hotkey,
                evm_key,
                block_associated: current_block_number,
            },
        );
        Ok(())
    }

    /// Associates an EVM key with the neuron that a hotkey has on a subnet.
    ///
    /// The hotkey makes the call. The EVM key proves its consent by a signature over the hotkey and
    /// the digest of `block_number`; the address that the signature gives back must be `evm_key`.
    pub fn do_associate_evm_key(
        &mut self,
        origin: Origin,
        netuid: u16,
        evm_key: H160,
        block_number: u64,
        signature: [u8; 65],
    ) -> (res: Result<(), AssociationError>)
        ensures
            match old(self).refusal(origin, netuid, evm_key, block_number, signature@) {
                Some(e) => res == Err::<(), AssociationError>(e) && *final(self) == *old(self),
                None => res == Ok::<(), AssociationError>(()) && (origin matches Origin::Signed(
                    hotkey,
                ) && final(self).associated_from(
                    old(self),
                    netuid,
                    hotkey,
                    old(self).uids@[(netuid, hotkey)],
                    evm_key,
                )),
            },
    {
        let hotkey = match origin {
            Origin::Signed(hotkey) => hotkey,
            _ => {
                return Err(AssociationError::BadOrigin);
            },
        };
        let coldkey: AccountId = match self.owner.get(&hotkey) {
            Some(coldkey) => *coldkey,
            None => self.config.default_account,
        };
        if coldkey.same(&self.config.default_account) {
            return Err(AssociationError::NonAssociatedColdKey);
        }
        let uid: u16 = match self.uids.get(&(netuid, hotkey)) {
            Some(uid) => *uid,
            None => {
                return Err(AssociationError::HotKeyNotRegisteredInSubNet);
            },
        };
        match self.ensure_evm_key_associate_rate_limit(netuid, uid) {
            Ok(_) => {},
            Err(e) => {
                return Err(e);
            },
        }
        let digest = signature::association_digest_of(&hotkey, block_number);
        let signer = signature::recover_signer(signature, &digest);
        self.associate_signer(netuid, hotkey, uid, evm_key, signer)
    }

    /// Rewrites the positions in the buckets of a subnet after its neurons were compacted to the
    /// positions that `old_to_new_uid` gives. Addresses, blocks and the associations themselves
    /// stay as they are.
    pub fn remap_associated_evm_address_index(
        &mut self,
        netuid: u16,
        old_to_new_uid: &BTreeMap<usize, usize>,
    )
        ensures
            final(self).index() == old(self).index().remap(netuid, old_to_new_uid@),
            final(self).associated_evm_address == old(self).associated_evm_address,
            final(self).only_index_changed(old(self)),
    {
        let ghost before = self.associated_uids_by_evm_address.rows();
        let len: usize = self.associated_uids_by_evm_address.len();
        let mut i: usize = 0;
        while i < len
            invariant
                i <= len,
                len == before.len(),
                keys_distinct(before),
                before == old(self).associated_uids_by_evm_address.rows(),
                self.associated_uids_by_evm_address.rows() == remapped_rows(
                    before,
                    netuid,
                    old_to_new_uid@,
                    i as int,
                ),
                self.associated_evm_address == old(self).associated_evm_address,
                self.only_index_changed(old(self)),
            decreases len - i,
        {
            let row = self.associated_uids_by_evm_address.row(i);
            let key: (u16, H160) = (row.0.0, row.0.1);
            let mut bucket = bucket::copy(row.1);
            if key.0 == netuid {
                let changed = remap_bucket(&mut bucket, old_to_new_uid);
                if changed {
                    self.associated_uids_by_evm_address.set_row(i, key, bucket);
                }
            }
            i = i + 1;
            assert(self.associated_uids_by_evm_address.rows() =~= remapped_rows(
                before,
                netuid,
                old_to_new_uid@,
                i as int,
            ));
        }
        proof {
            lemma_remapped_rows(before, netuid, old_to_new_uid@);
        }
        assert(self.index() =~= old(self).index().remap(netuid, old_to_new_uid@));
    }
}

/// The rows of the buckets after the first `n` of them followed a compaction of the subnet.
spec fn remapped_rows(
    rows: Seq<((u16, H160), Seq<(u16, u64)>)>,
    netuid: u16,
    old_to_new_uid: Map<usize, usize>,
    n: int,
) -> Seq<((u16, H160), Seq<(u16, u64)>)> {
    Seq::new(
        rows.len(),
        |i: int|
            if i < n && rows[i].0.0 == netuid {
                (rows[i].0, remapped_bucket(old_to_new_uid, rows[i].1))
            } else {
                rows[i]
            },
    )
}

/// Rows that all followed a compaction stand for the map that did.
proof fn lemma_remapped_rows(
    rows: Seq<((u16, H160), Seq<(u16, u64)>)>,
    netuid: u16,
    old_to_new_uid: Map<usize, usize>,
)
    requires
        keys_distinct(rows),
    ensures
        rows_map(remapped_rows(rows, netuid, old_to_new_uid, rows.len() as int))
            == remapped_buckets(rows_map(rows), netuid, old_to_new_uid),
{
    let after = remapped_rows(rows, netuid, old_to_new_uid, rows.len() as int);
    let expected = remapped_buckets(rows_map(rows), netuid, old_to_new_uid);
    assert(forall|i: int| 0 <= i < rows.len() ==> #[trigger] after[i].0 == rows[i].0);
    assert(keys_distinct(after));
    assert forall|k: (u16, H160)| rows_map(after).contains_key(k) <==> expected.contains_key(k) by {
        if rows_map(after).contains_key(k) {
            let i = choose|i: int| row_of(after, k, i);
            assert(row_of(rows, k, i));
        }
        if expected.contains_key(k) {
            let i = choose|i: int| row_of(rows, k, i);
            assert(row_of(after, k, i));
        }
    }
    assert forall|k: (u16, H160)| rows_map(after).contains_key(k) implies #[trigger] rows_map(
        after,
    )[k] == expected[k] by {
        let i = choose|i: int| row_of(after, k, i);
        lemma_row(after, i);
        lemma_row(rows, i);
    }
    assert(rows_map(after) =~= expected);
}

/// Gives the neurons of a bucket the positions of a compaction; tells whether any moved.
fn remap_bucket(bucket: &mut Vec<(u16, u64)>, old_to_new_uid: &BTreeMap<usize, usize>) -> (changed:
    bool)
    ensures
        final(bucket)@ == remapped_bucket(old_to_new_uid@, old(bucket)@),
        !changed ==> final(bucket)@ == old(bucket)@,
{
    let ghost before = bucket@;
    let mut changed = false;
    let mut i: usize = 0;
    while i < bucket.len()
        invariant
            i <= bucket@.len(),
            bucket@.len() == before.len(),
            forall|j: int| i <= j < before.len() ==> bucket@[j] == before[j],
            forall|j: int|
                0 <= j < i ==> #[trigger] bucket@[j] == (
                    remapped_uid(old_to_new_uid@, before[j].0),
                    before[j].1,
                ),
            !changed ==> bucket@ == before,
        decreases bucket@.len() - i,
    {
        let entry = bucket[i];
        let position: usize = entry.0 as usize;
        if let Some(new_uid) = old_to_new_uid.get(&position) {
            let new_position: u16 = (*new_uid) as u16;
            if entry.0 != new_position {
                bucket.set(i, (new_position, entry.1));
                changed = true;
            }
        }
        i = i + 1;
    }
    assert(bucket@ =~= remapped_bucket(old_to_new_uid@, before));
    changed
}

} // verus!
