use vstd::prelude::*;

verus! {

/// Why an operation on the bounty board was refused. A refused operation
/// changes nothing.
#[derive(Clone, Copy, Debug, PartialEq, Eq, Structural)]
pub enum BountyHunterErrors {
    /// The caller is not the maker of the bounty.
    InvalidBountyAuthority,
    /// The submission does not point at the bounty it is used against.
    BountyAndSubmissionMismatch,
    /// The bounty has already been resolved.
    BountyClosed,
    /// A token account holds another token than the bounty's mint.
    InvalidMint,
    /// A token account belongs to another party than the one it must belong to.
    InvalidTokenOwner,
    /// A text field is longer than its bound.
    FieldTooLong,
    /// A record already stands at the derived address.
    AlreadyExists,
    /// No record stands at the given address.
    NotFound,
    /// The funding account holds less than the reward.
    InsufficientFunds,
    /// The receiving token account would hold more than the largest amount.
    AmountOverflow,
    /// No bump seed gave an address off the curve.
    AddressDerivationExhausted,
}

} // verus!
