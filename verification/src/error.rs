use crate::transaction::TransactionType;
use vstd::prelude::*;

verus! {

/// Why a record was rejected. Each variant carries what a caller needs to report it:
/// the transaction id and, where one was involved, the amount in 1/10,000ths.
#[derive(Debug, Clone, Copy, PartialEq, Eq, Structural)]
pub enum MutationError {
    /// The account is locked and accepts nothing further.
    LockedAccount { client: u16 },
    /// An input line of a kind that carries an amount had none.
    AmountRequired { id: u32, kind: TransactionType },
    /// An input line of a kind that carries no amount had one.
    AmountNotAllowed { id: u32, kind: TransactionType },
    /// A record without an amount was to be stored as a transaction.
    MissingAmount { id: u32 },
    /// Adding the amount would exceed what a balance can hold.
    ArithmeticOverflow { id: u32, amount: u32 },
    /// A withdrawal asked for more than is available.
    InsufficientFunds { id: u32, amount: u32 },
    /// A dispute named a stored transaction that is not a deposit.
    OnlyDepositsDisputable { id: u32 },
    /// Taking the amount from a balance would go below zero.
    ArithmeticError { id: u32, amount: u32 },
    /// A deposit or withdrawal reused the id of a stored transaction.
    DuplicateTransaction { id: u32 },
}

} // verus!
