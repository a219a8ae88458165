//! Why the ledger turns an operation down.
use vstd::prelude::*;

verus! {

/// The reasons for which an operation on the ledger is rejected. A rejected
/// operation leaves the ledger as it was.
#[derive(Debug, Clone, Copy, PartialEq, Eq, Structural)]
pub enum LedgerError {
    /// A resident with this identifier is already registered.
    DuplicateResident,
    /// No resident with this identifier is registered.
    ResidentNotFound,
    /// The caller may not do this: only an administrator registers
    /// residents, and a resident acts only on their own account.
    Forbidden,
    /// The key material is not a signing key: it is not base64, or it does
    /// not decode to 32 bytes.
    InvalidKey,
    /// The system's random source gave no bytes for a new key.
    KeySourceUnavailable,
    /// The sum of a resident's payments does not fit in 64 bits.
    BalanceOverflow,
    /// The chain has no tail to link to, or the tail's index has no successor.
    ChainExhausted,
}

impl LedgerError {
    /// A short description of the error, for messages.
    pub fn describe(&self) -> (text: String)
        ensures
            text@ == self.description(),
    {
        match self {
            LedgerError::DuplicateResident => "resident already exists".to_owned(),
            LedgerError::ResidentNotFound => "resident not found".to_owned(),
            LedgerError::Forbidden => "operation not permitted for this caller".to_owned(),
            LedgerError::InvalidKey => "invalid signing key".to_owned(),
            LedgerError::KeySourceUnavailable => "no random bytes for a new key".to_owned(),
            LedgerError::BalanceOverflow => "balance exceeds 64 bits".to_owned(),
            LedgerError::ChainExhausted => "chain cannot take another block".to_owned(),
        }
    }

    /// The text that [`LedgerError::describe`] returns.
    pub open spec fn description(&self) -> Seq<char> {
        match self {
            LedgerError::DuplicateResident => "resident already exists"@,
            LedgerError::ResidentNotFound => "resident not found"@,
            LedgerError::Forbidden => "operation not permitted for this caller"@,
            LedgerError::InvalidKey => "invalid signing key"@,
            LedgerError::KeySourceUnavailable => "no random bytes for a new key"@,
            LedgerError::BalanceOverflow => "balance exceeds 64 bits"@,
            LedgerError::ChainExhausted => "chain cannot take another block"@,
        }
    }
}

} // verus!
