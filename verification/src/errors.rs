//! The errors of the two contracts.
use vstd::prelude::*;
use crate::funds::PaymentError;

verus! {

/// Ownership faults, as `cw_ownable` reports them.
#[derive(Clone, Debug, PartialEq, Eq)]
pub enum OwnershipError {
    NotOwner,
    NoOwner,
}

/// Why the account collection refused a message.
#[derive(Clone, Debug, PartialEq, Eq)]
pub enum AccountError {
    /// A generic failure, with its message.
    Std(String),
    Ownership(OwnershipError),
    Payment(PaymentError),
    /// The sender is not the verifier (admin) of the collection.
    NotAdmin,
    /// The token id is already minted.
    Claimed,
    AccountIsNotTokenized,
    IncorrectBillboardToken,
    AccountNotFound,
    AddressAlreadyMapped,
    AddressIsStillMappedToEOA,
    AccountIsInCooldownStage,
    InvalidAddress,
    RecordAccountAlreadyExists,
    RecordAccountEmpty,
    RecordAccountTooLong,
    RecordValueTooLong,
    RecordValueEmpty,
    UnauthorizedVerification,
    InvalidMetadata,
    UnauthorizedMinter,
    UnauthorizedCreatorOrAdmin,
    TooManyRecords { max: u32 },
    TooManyReverseMaps { max: u32, have: u32 },
    CannotRemoveEmptyMap,
    /// The only reason given by the contract is that the account is in cooldown.
    AccountCannotBeTransfered,
    CannotRemoveMoreThanWillExists,
    NotImplemented,
}

/// Why the marketplace refused a message.
#[derive(Clone, Debug, PartialEq, Eq)]
pub enum MarketError {
    /// A generic failure, with its message.
    Std(String),
    Payment(PaymentError),
    Ownership(OwnershipError),
    Unauthorized,
    MintingPaused,
    InvalidAccount,
    AccountTooShort,
    AccountTooLong,
    IncorrectDelegation { got: u128, expected: u128 },
    IncorrectPayment { got: u128, expected: u128 },
    /// The new start time (second) lies before the block time (first), in nanoseconds.
    InvalidTradingStartTime(u64, u64),
    MintingNotStarted,
    AlreadySetup,
    CannotFinalizeBid,
    NotApproved,
    UnauthorizedMinter,
    UnauthorizedOwner,
    UnauthorizedOperator,
    InvalidPrice,
    InvalidDuration,
    AskUnchanged,
    AskNotFound,
    ExistingBids,
    PriceTooSmall(u128),
    InvalidTradingFeeBps(u64),
    HookAlreadyRegistered,
    HookNotRegistered,
}

/// Why a query failed, as `cosmwasm_std::StdError` reports it.
#[derive(Clone, Debug, PartialEq, Eq)]
pub enum StdError {
    /// A failure described by its message.
    GenericErr { msg: String },
    /// Nothing of the kind `kind` is stored under the key asked for.
    NotFound { kind: String },
}

impl StdError {
    /// The error as text: "Generic error: " and the message, or the kind
    /// followed by " not found".
    pub fn to_string(&self) -> (r: String)
        ensures
            self matches StdError::GenericErr { msg } ==> r@ == "Generic error: "@ + msg@,
            self matches StdError::NotFound { kind } ==> r@ == kind@ + " not found"@,
    {
        match self {
            StdError::GenericErr { msg } => String::from_str("Generic error: ").concat(msg.as_str()),
            StdError::NotFound { kind } => kind.clone().concat(" not found"),
        }
    }
}

} // verus!
