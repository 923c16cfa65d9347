//! Why an association is refused.
use vstd::prelude::*;

verus! {

/// Why an association is refused.
#[derive(Clone, Copy, PartialEq, Eq, Debug)]
pub enum AssociationError {
    /// The call does not come from a signed account.
    BadOrigin,
    /// The hotkey belongs to no coldkey.
    NonAssociatedColdKey,
    /// The hotkey has no neuron on the subnet.
    HotKeyNotRegisteredInSubNet,
    /// The neuron was associated too recently.
    EvmKeyAssociateRateLimitExceeded,
    /// The signature gives back no public key.
    InvalidIdentity,
    /// The public key that the signature gives back cannot be read.
    UnableToRecoverPublicKey,
    /// Another key than the claimed one signed.
    InvalidRecoveredPublicKey,
    /// The EVM address already stands for as many neurons of the subnet as it may.
    EvmKeyAssociationLimitExceeded,
}

} // verus!
