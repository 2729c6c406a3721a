//! The errors with which an escrow operation is rejected.

use vstd::prelude::*;

verus! {

/// Why an operation was rejected. Whatever the error, the ledger is left as
/// it was before the operation.
#[derive(Clone, Copy, Debug, PartialEq, Eq, Structural)]
pub enum EscrowError {
    /// The mint of the requested asset is governed by none of the token
    /// programs that the operation was given.
    InvalidTokenProgram,
    /// An amount of zero was offered or requested.
    ZeroAmount,
    /// The offered and the requested asset are the same.
    IdenticalMints,
    /// The maker named by the operation is not the maker of the escrow.
    MakerMismatch,
    /// A mint named by the operation is not the one the escrow records.
    MintMismatch,
    /// An account is not at the address derived for it.
    AddressMismatch,
    /// A receiving account does not belong to the party it is meant for.
    OwnerMismatch,
    /// The source account holds less than the amount to move.
    InsufficientBalance,
    /// The mint is not registered with the token program as the transfer
    /// states it, or an account holds another asset.
    InvalidMint,
    /// The account is not of the kind that the operation needs: a token
    /// account of the token program, or a wallet.
    InvalidAccount,
    /// The authority is not the owner of the source account.
    InvalidAuthority,
    /// The account to close still holds tokens.
    NonZeroBalance,
    /// There would be more lamports, or more of an asset, than a balance
    /// can count.
    Overflow,
    /// No escrow lives at the address: it never existed or was consumed.
    EscrowNotFound,
    /// An account already lives at the address of the account to create.
    AddressInUse,
}

/// The three families of errors.
#[derive(Clone, Copy, Debug, PartialEq, Eq, Structural)]
pub enum ErrorKind {
    /// The request itself is malformed; found before any funds move.
    Validation,
    /// A token program refused a transfer or a close.
    Adapter,
    /// The ledger is not in the state the operation needs.
    State,
}

impl EscrowError {
    pub open spec fn spec_kind(self) -> ErrorKind {
        match self {
            EscrowError::InvalidTokenProgram
            | EscrowError::ZeroAmount
            | EscrowError::IdenticalMints
            | EscrowError::MakerMismatch
            | EscrowError::MintMismatch
            | EscrowError::AddressMismatch
            | EscrowError::OwnerMismatch => ErrorKind::Validation,
            EscrowError::InsufficientBalance
            | EscrowError::InvalidMint
            | EscrowError::InvalidAccount
            | EscrowError::InvalidAuthority
            | EscrowError::NonZeroBalance
            | EscrowError::Overflow => ErrorKind::Adapter,
            EscrowError::EscrowNotFound | EscrowError::AddressInUse => ErrorKind::State,
        }
    }

    /// The family this error belongs to.
    #[verifier::when_used_as_spec(spec_kind)]
    pub fn kind(self) -> (k: ErrorKind)
        ensures
            k == self.spec_kind(),
    {
        match self {
            EscrowError::InvalidTokenProgram => ErrorKind::Validation,
            EscrowError::ZeroAmount => ErrorKind::Validation,
            EscrowError::IdenticalMints => ErrorKind::Validation,
            EscrowError::MakerMismatch => ErrorKind::Validation,
            EscrowError::MintMismatch => ErrorKind::Validation,
            EscrowError::AddressMismatch => ErrorKind::Validation,
            EscrowError::OwnerMismatch => ErrorKind::Validation,
            EscrowError::InsufficientBalance => ErrorKind::Adapter,
            EscrowError::InvalidMint => ErrorKind::Adapter,
            EscrowError::InvalidAccount => ErrorKind::Adapter,
            EscrowError::InvalidAuthority => ErrorKind::Adapter,
            EscrowError::NonZeroBalance => ErrorKind::Adapter,
            EscrowError::Overflow => ErrorKind::Adapter,
            EscrowError::EscrowNotFound => ErrorKind::State,
            EscrowError::AddressInUse => ErrorKind::State,
        }
    }

    pub open spec fn spec_msg(self) -> Seq<char> {
        match self {
            EscrowError::InvalidTokenProgram => "Invalid token program"@,
            EscrowError::ZeroAmount => "Amount must be greater than zero"@,
            EscrowError::IdenticalMints => "Mints must be distinct"@,
            EscrowError::MakerMismatch => "Maker does not match the escrow"@,
            EscrowError::MintMismatch => "Mint does not match the escrow"@,
            EscrowError::AddressMismatch => "Account is not at its derived address"@,
            EscrowError::OwnerMismatch => "Receiving account has another owner"@,
            EscrowError::InsufficientBalance => "Insufficient balance"@,
            EscrowError::InvalidMint => "Invalid mint"@,
            EscrowError::InvalidAccount => "Invalid account"@,
            EscrowError::InvalidAuthority => "Invalid authority"@,
            EscrowError::NonZeroBalance => "Account still holds tokens"@,
            EscrowError::Overflow => "Overflow"@,
            EscrowError::EscrowNotFound => "Escrow not found"@,
            EscrowError::AddressInUse => "Address already in use"@,
        }
    }

    /// The message shown to the caller.
    pub fn msg(self) -> (m: &'static str)
        ensures
            m@ == self.spec_msg(),
    {
        match self {
            EscrowError::InvalidTokenProgram => "Invalid token program",
            EscrowError::ZeroAmount => "Amount must be greater than zero",
            EscrowError::IdenticalMints => "Mints must be distinct",
            EscrowError::MakerMismatch => "Maker does not match the escrow",
            EscrowError::MintMismatch => "Mint does not match the escrow",
            EscrowError::AddressMismatch => "Account is not at its derived address",
            EscrowError::OwnerMismatch => "Receiving account has another owner",
            EscrowError::InsufficientBalance => "Insufficient balance",
            EscrowError::InvalidMint => "Invalid mint",
            EscrowError::InvalidAccount => "Invalid account",
            EscrowError::InvalidAuthority => "Invalid authority",
            EscrowError::NonZeroBalance => "Account still holds tokens",
            EscrowError::Overflow => "Overflow",
            EscrowError::EscrowNotFound => "Escrow not found",
            EscrowError::AddressInUse => "Address already in use",
        }
    }
}

} // verus!
