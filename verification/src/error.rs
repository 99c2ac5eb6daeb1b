//! The typed failures of the ledger.

use vstd::prelude::*;

verus! {

/// Why an operation was refused. Every failure leaves the ledger untouched.
#[derive(Clone, Copy, Debug, PartialEq, Eq, Structural)]
pub enum LedgerError {
    /// The account of a deposit or withdrawal does not exist.
    AccountNotFound,
    /// The account a transfer draws from does not exist.
    SourceNotFound,
    /// The account a transfer pays into does not exist.
    DestinationNotFound,
    /// The account holds less than the amount to take out.
    InsufficientBalance,
    /// The amount is zero or negative.
    InvalidAmount,
    /// An account changed since it was read; the caller may read again and resubmit.
    VersionConflict,
    /// The storage backend could not be reached.
    StorageUnavailable,
    /// The credited balance would not fit the machine representation of money.
    BalanceOverflow,
}

impl LedgerError {
    /// The message shown to a caller for this failure.
    pub open spec fn text(self) -> Seq<char> {
        match self {
            LedgerError::AccountNotFound => "Account not found"@,
            LedgerError::SourceNotFound => "Source account not found"@,
            LedgerError::DestinationNotFound => "Destination account not found"@,
            LedgerError::InsufficientBalance => "Insufficient balance"@,
            LedgerError::InvalidAmount => "Invalid amount"@,
            LedgerError::VersionConflict => "Version conflict"@,
            LedgerError::StorageUnavailable => "Storage unavailable"@,
            LedgerError::BalanceOverflow => "Balance overflow"@,
        }
    }

    /// Renders the failure as text.
    pub fn message(&self) -> (s: String)
        ensures
            s@ == self.text(),
    {
        match self {
            LedgerError::AccountNotFound => "Account not found".to_owned(),
            LedgerError::SourceNotFound => "Source account not found".to_owned(),
            LedgerError::DestinationNotFound => "Destination account not found".to_owned(),
            LedgerError::InsufficientBalance => "Insufficient balance".to_owned(),
            LedgerError::InvalidAmount => "Invalid amount".to_owned(),
            LedgerError::VersionConflict => "Version conflict".to_owned(),
            LedgerError::StorageUnavailable => "Storage unavailable".to_owned(),
            LedgerError::BalanceOverflow => "Balance overflow".to_owned(),
        }
    }

    /// Whether the caller may expect a resubmission to succeed: only a version
    /// conflict is transient by design.
    pub fn is_retryable(&self) -> (b: bool)
        ensures
            b == (*self == LedgerError::VersionConflict),
    {
        match self {
            LedgerError::VersionConflict => true,
            _ => false,
        }
    }
}

} // verus!
