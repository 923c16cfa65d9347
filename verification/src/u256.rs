//! Unsigned 256-bit numbers, as the EVM passes them.
use sp_runtime::traits::UniqueSaturatedInto;
use vstd::prelude::*;

verus! {

/// An unsigned 256-bit number in four 64-bit limbs, the least significant first.
#[derive(Clone, Copy, PartialEq, Eq, Debug)]
pub struct U256 {
    pub limbs: [u64; 4],
}

/// The largest 256-bit number.
pub open spec fn u256_max() -> nat {
    0xffff_ffff_ffff_ffff_ffff_ffff_ffff_ffff_ffff_ffff_ffff_ffff_ffff_ffff_ffff_ffffnat
}

/// The number that four limbs stand for.
pub open spec fn limbs_value(limbs: Seq<u64>) -> nat {
    (limbs[0] + limbs[1] * 0x1_0000_0000_0000_0000int + limbs[2]
        * 0x1_0000_0000_0000_0000_0000_0000_0000_0000int + limbs[3]
        * 0x1_0000_0000_0000_0000_0000_0000_0000_0000_0000_0000_0000_0000int) as nat
}

/// A number cut off at the top of the `u64` range.
pub open spec fn saturated_u64(value: nat) -> u64 {
    if value > u64::MAX {
        u64::MAX
    } else {
        value as u64
    }
}

impl View for U256 {
    type V = nat;

    open spec fn view(&self) -> nat {
        limbs_value(self.limbs@)
    }
}

impl U256 {
    /// Zero.
    pub fn zero() -> (value: U256)
        ensures
            value@ == 0,
    {
        U256 { limbs: [0u64, 0u64, 0u64, 0u64] }
    }

    /// The number `value`.
    pub fn from_u64(value: u64) -> (wide: U256)
        ensures
            wide@ == value,
    {
        U256 { limbs: [value, 0u64, 0u64, 0u64] }
    }

    /// Whether the number is zero.
    pub fn is_zero(&self) -> (zero: bool)
        ensures
            zero == (self@ == 0),
    {
        self.limbs[0] == 0 && self.limbs[1] == 0 && self.limbs[2] == 0 && self.limbs[3] == 0
    }

    /// `sp_core::U256::saturating_add`: the sum, or the largest 256-bit number where the sum does
    /// not fit.
    #[verifier::external_body]
    pub(crate) fn saturating_add(self, other: U256) -> (sum: U256)
        ensures
            sum@ == if self@ + other@ > u256_max() {
                u256_max()
            } else {
                self@ + other@
            },
    {
        let sum = sp_core::U256(self.limbs).saturating_add(sp_core::U256(other.limbs));
        U256 { limbs: sum.0 }
    }

    /// `sp_core::U256::saturating_sub`: the difference, or zero where it would be negative.
    #[verifier::external_body]
    pub(crate) fn saturating_sub(self, other: U256) -> (difference: U256)
        ensures
            difference@ == if self@ < other@ {
                0
            } else {
                (self@ - other@) as nat
            },
    {
        let difference = sp_core::U256(self.limbs).saturating_sub(sp_core::U256(other.limbs));
        U256 { limbs: difference.0 }
    }

    /// `sp_core::U256::checked_sub`: the difference, or nothing where it would be negative.
    #[verifier::external_body]
    pub(crate) fn checked_sub(self, other: U256) -> (difference: Option<U256>)
        ensures
            difference is Some <==> self@ >= other@,
            difference matches Some(d) ==> d@ == self@ - other@,
    {
        let difference = sp_core::U256(self.limbs).checked_sub(sp_core::U256(other.limbs));
        difference.map(|d| U256 { limbs: d.0 })
    }

    /// `u16::try_from` on a `sp_core::U256`: the number itself where a `u16` holds it, and an error
    /// otherwise, of which only that it came is kept.
    #[verifier::external_body]
    pub(crate) fn try_u16(self) -> (narrow: Option<u16>)
        ensures
            narrow is Some <==> self@ <= u16::MAX,
            narrow matches Some(n) ==> n == self@,
    {
        u16::try_from(sp_core::U256(self.limbs)).ok()
    }

    /// `u64::try_from` on a `sp_core::U256`: the number itself where a `u64` holds it, and an error
    /// otherwise, of which only that it came is kept.
    #[verifier::external_body]
    pub(crate) fn try_u64(self) -> (narrow: Option<u64>)
        ensures
            narrow is Some <==> self@ <= u64::MAX,
            narrow matches Some(n) ==> n == self@,
    {
        u64::try_from(sp_core::U256(self.limbs)).ok()
    }

    /// `UniqueSaturatedInto::<u64>::unique_saturated_into` of `sp_runtime::traits` on a
    /// `sp_core::U256`: the number itself where a `u64` holds it, and the largest `u64` otherwise.
    #[verifier::external_body]
    pub(crate) fn unique_saturated_into_u64(self) -> (narrow: u64)
        ensures
            narrow == saturated_u64(self@),
    {
        sp_core::U256(self.limbs).unique_saturated_into()
    }
}

} // verus!
