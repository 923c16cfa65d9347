//! Addresses, words and account identifiers.
use vstd::prelude::*;

verus! {

/// A 20-byte EVM address.
#[derive(Clone, Copy, PartialEq, Eq, Debug)]
pub struct H160(pub [u8; 20]);

/// A 32-byte word, as Solidity's `bytes32` carries it.
#[derive(Clone, Copy, PartialEq, Eq, Debug)]
pub struct H256(pub [u8; 32]);

/// The identifier of a native account: a coldkey or a hotkey.
#[derive(Clone, Copy, PartialEq, Eq, Debug)]
pub struct AccountId(pub [u8; 32]);

impl View for H160 {
    type V = H160;

    open spec fn view(&self) -> H160 {
        *self
    }
}

impl View for AccountId {
    type V = AccountId;

    open spec fn view(&self) -> AccountId {
        *self
    }
}

/// The word of zeros.
pub open spec fn zero_word() -> H256 {
    H256(vstd::array::spec_array_fill_for_copy_type::<u8, 32>(0))
}

/// Whether two byte arrays hold the same bytes.
pub fn same_bytes<const N: usize>(a: &[u8; N], b: &[u8; N]) -> (same: bool)
    ensures
        same == (*a == *b),
{
    let mut i: usize = 0;
    while i < N
        invariant
            i <= N,
            forall|j: int| 0 <= j < i ==> a@[j] == b@[j],
        decreases N - i,
    {
        if a[i] != b[i] {
            assert(a@[i as int] != b@[i as int]);
            return false;
        }
        i = i + 1;
    }
    assert(*a =~= *b);
    true
}

impl H160 {
    /// Whether two addresses are the same.
    pub fn same(&self, other: &H160) -> (same: bool)
        ensures
            same == (*self == *other),
    {
        same_bytes(&self.0, &other.0)
    }
}

impl H256 {
    /// The word of zeros.
    pub fn zero() -> (word: H256)
        ensures
            word == zero_word(),
    {
        H256([0u8; 32])
    }

    /// Whether two words are the same.
    pub fn same(&self, other: &H256) -> (same: bool)
        ensures
            same == (*self == *other),
    {
        same_bytes(&self.0, &other.0)
    }

    /// The account whose identifier is this word.
    pub fn account(&self) -> (account: AccountId)
        ensures
            account == AccountId(self.0),
    {
        AccountId(self.0)
    }
}

impl AccountId {
    /// Whether two account identifiers are the same.
    pub fn same(&self, other: &AccountId) -> (same: bool)
        ensures
            same == (*self == *other),
    {
        same_bytes(&self.0, &other.0)
    }
}

/// An account identifier as a word.
pub fn account_to_h256(account: AccountId) -> (word: H256)
    ensures
        word == H256(account.0),
{
    H256(account.0)
}

} // verus!
