use vstd::prelude::*;

verus! {

/// What the asset ledger reports when it refuses a request.
#[derive(Clone, Copy, Debug, PartialEq, Eq, Structural)]
pub enum LedgerFault {
    /// No asset account is recorded at the address.
    UnknownAccount,
    /// The account holds fewer units than were asked for.
    InsufficientBalance,
    /// The two accounts are not denominated in the same asset.
    InvalidMint,
    /// The signer is not the account's authority.
    OwnerMismatch,
    /// A balance would leave the range of an unsigned 64-bit number.
    Overflow,
    /// An account is already recorded at the address.
    AccountInUse,
}

/// The ways an operation of the protocol fails. Every failure aborts the whole
/// operation: no partial change is kept.
#[derive(Clone, Copy, Debug, PartialEq, Eq, Structural)]
pub enum ProtocolError {
    /// The request payload or its list of accounts is malformed.
    InvalidEncoding,
    /// A required signer is missing or is not the identity on record.
    Unauthorized,
    /// A candidate identity is not the one its seeds derive.
    InvalidAuthority,
    /// A plain buffer was written a second time.
    NonzeroPayload,
    /// A stored record cannot be decoded, or refers to another record than the one presented.
    InvalidAccountData,
    /// The payer cannot fund a record of the requested size.
    AllocationFailed,
    /// An amount left the range of an unsigned 64-bit number.
    Overflow,
    /// The asset ledger refused a request.
    AssetLedgerError(LedgerFault),
    /// The record to create exists already.
    AlreadyInitialized,
    /// No discriminator yields an identity outside the space of signable keys.
    DerivationExhausted,
}

} // verus!
