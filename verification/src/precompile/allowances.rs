//! The stake that an EVM address lets another one transfer.
use crate::precompile::failure::{
    answered, failed, revert, reverted, EvmResult, PrecompileFailure,
};
use crate::primitives::H160;
use crate::storage_table::StorageTable;
use crate::u256::{u256_max, U256};
use vstd::prelude::*;

verus! {

/// Where the chain stores the allowances.
pub struct AllowancesPrefix;

impl AllowancesPrefix {
    /// The name of the map.
    pub fn storage_prefix() -> (prefix: &'static str)
        ensures
            prefix == "Allowances",
    {
        "Allowances"
    }

    /// The name under which the map stands.
    pub fn pallet_prefix() -> (prefix: &'static str)
        ensures
            prefix == "EvmPrecompileStaking",
    {
        "EvmPrecompileStaking"
    }
}

/// The allowances: for each approver, and each spender with a subnet and the counter of the
/// subnet's registration, the amount of alpha. An amount that was approved under an earlier
/// registration of the subnet has another counter, and so counts no more.
pub type Grants = Map<(H160, (H160, u16, u64)), nat>;

/// The amount that is allowed: zero where nothing is stored.
pub open spec fn granted(grants: Grants, approver: H160, key: (H160, u16, u64)) -> nat {
    if grants.contains_key((approver, key)) {
        grants[(approver, key)]
    } else {
        0
    }
}

/// The allowances with one of them set. Zero is not stored.
pub open spec fn approved(
    grants: Grants,
    approver: H160,
    key: (H160, u16, u64),
    amount: nat,
) -> Grants {
    if amount == 0 {
        grants.remove((approver, key))
    } else {
        grants.insert((approver, key), amount)
    }
}

/// The allowances with one of them raised, at most to the largest 256-bit number.
pub open spec fn increased(
    grants: Grants,
    approver: H160,
    key: (H160, u16, u64),
    amount: nat,
) -> Grants {
    let sum = granted(grants, approver, key) + amount;
    grants.insert(
        (approver, key),
        if sum > u256_max() {
            u256_max()
        } else {
            sum
        },
    )
}

/// The allowances with one of them lowered, at most to zero.
pub open spec fn decreased(
    grants: Grants,
    approver: H160,
    key: (H160, u16, u64),
    amount: nat,
) -> Grants {
    let current = granted(grants, approver, key);
    approved(
        grants,
        approver,
        key,
        if current < amount {
            0
        } else {
            (current - amount) as nat
        },
    )
}

/// The failure of spending more than is allowed.
pub open spec fn over_allowance() -> PrecompileFailure {
    reverted("trying to spend more than allowed")
}

/// The stored allowances.
pub struct AllowancesStorage {
    table: StorageTable<(H160, (H160, u16, u64)), U256>,
}

impl View for AllowancesStorage {
    type V = Grants;

    closed spec fn view(&self) -> Grants {
        self.table@
    }
}

impl AllowancesStorage {
    /// No allowances.
    pub fn new() -> (storage: AllowancesStorage)
        ensures
            storage@ == Grants::empty(),
    {
        AllowancesStorage { table: StorageTable::new() }
    }

    /// The amount that is stored, where one is.
    pub fn stored(&self, approver: H160, key: (H160, u16, u64)) -> (amount: Option<U256>)
        ensures
            match amount {
                Some(amount) => self@.contains_key((approver, key)) && amount@ == self@[(
                    approver,
                    key,
                )],
                None => !self@.contains_key((approver, key)),
            },
    {
        match self.table.get(&(approver, key)) {
            Some(amount) => Some(*amount),
            None => None,
        }
    }

    /// The amount that is allowed.
    pub fn get(&self, approver: H160, key: (H160, u16, u64)) -> (amount: U256)
        ensures
            amount@ == granted(self@, approver, key),
    {
        match self.stored(approver, key) {
            Some(amount) => amount,
            None => U256::zero(),
        }
    }

    /// Stores an amount as it is.
    pub fn insert(&mut self, approver: H160, key: (H160, u16, u64), amount: U256)
        ensures
            final(self)@ == old(self)@.insert((approver, key), amount@),
    {
        self.table.insert((approver, key), amount);
    }

    /// Drops an amount.
    pub fn remove(&mut self, approver: H160, key: (H160, u16, u64))
        ensures
            final(self)@ == old(self)@.remove((approver, key)),
    {
        let _ = self.table.take(&(approver, key));
    }

    /// Sets an allowance.
    pub fn approve(&mut self, approver: H160, key: (H160, u16, u64), amount: U256)
        ensures
            final(self)@ == approved(old(self)@, approver, key, amount@),
    {
        if amount.is_zero() {
            self.remove(approver, key);
        } else {
            self.insert(approver, key, amount);
        }
    }

    /// Raises an allowance.
    pub fn increase(&mut self, approver: H160, key: (H160, u16, u64), amount: U256)
        ensures
            final(self)@ == increased(old(self)@, approver, key, amount@),
    {
        let current = self.get(approver, key);
        self.insert(approver, key, current.saturating_add(amount));
    }

    /// Lowers an allowance.
    pub fn decrease(&mut self, approver: H160, key: (H160, u16, u64), amount: U256)
        ensures
            final(self)@ == decreased(old(self)@, approver, key, amount@),
    {
        let current = self.get(approver, key);
        self.approve(approver, key, current.saturating_sub(amount));
    }

    /// Spends out of an allowance. Where less is allowed, nothing changes.
    pub fn consume(
        &mut self,
        approver: H160,
        key: (H160, u16, u64),
        amount: U256,
    ) -> (spent: EvmResult<()>)
        ensures
            if amount@ <= granted(old(self)@, approver, key) {
                answered(spent, ()) && final(self)@ == decreased(
                    old(self)@,
                    approver,
                    key,
                    amount@,
                )
            } else {
                failed(spent, over_allowance()) && final(self)@ == old(self)@
            },
    {
        let current = self.get(approver, key);
        match current.checked_sub(amount) {
            None => Err(revert("trying to spend more than allowed")),
            Some(left) => {
                self.approve(approver, key, left);
                Ok(())
            },
        }
    }
}

} // verus!
