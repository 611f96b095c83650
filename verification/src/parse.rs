use crate::error::MutationError;
use crate::transaction::{Mutation, TransactionType};
use vstd::prelude::*;

verus! {

/// One line of the input table, with its amount already in 1/10,000ths.
#[derive(Debug, Clone, Copy, PartialEq, Eq, Structural)]
pub struct CsvRow {
    /// Which of the five kinds of record this is.
    pub kind: TransactionType,
    /// The client the record is addressed to.
    pub client: u16,
    /// The transaction the record is about. Several lines may name one
    /// transaction as it moves through a dispute.
    pub tx: u32,
    /// The amount, on the kinds that carry one.
    pub amount: Option<u32>,
}

impl CsvRow {
    /// An amount is present exactly on a deposit or a withdrawal.
    pub open spec fn well_formed(self) -> bool {
        self.amount is Some <==> self.kind.carries_amount()
    }

    /// The record this line stands for, or why it stands for none.
    pub open spec fn spec_as_mutation(self) -> Result<Mutation, MutationError> {
        if self.well_formed() {
            Ok(Mutation { id: self.tx, kind: self.kind, client: self.client, amount: self.amount })
        } else if self.kind.carries_amount() {
            Err(MutationError::AmountRequired { id: self.tx, kind: self.kind })
        } else {
            Err(MutationError::AmountNotAllowed { id: self.tx, kind: self.kind })
        }
    }

    /// Turns the line into a record for the engine. A deposit or withdrawal
    /// without an amount is refused, and so is a dispute, resolve or chargeback
    /// with one; every record that comes out is well formed.
    pub fn as_mutation(self) -> (result: Result<Mutation, MutationError>)
        ensures
            result == self.spec_as_mutation(),
            result is Ok <==> self.well_formed(),
            result is Ok ==> result->Ok_0.well_formed(),
    {
        let refused = match (self.kind, self.amount) {
            (TransactionType::Deposit, None) => true,
            (TransactionType::Withdrawal, None) => true,
            (TransactionType::Dispute, Some(_)) => true,
            (TransactionType::Resolve, Some(_)) => true,
            (TransactionType::Chargeback, Some(_)) => true,
            _ => false,
        };
        if !refused {
            Ok(Mutation { id: self.tx, kind: self.kind, client: self.client, amount: self.amount })
        } else if self.amount.is_none() {
            Err(MutationError::AmountRequired { id: self.tx, kind: self.kind })
        } else {
            Err(MutationError::AmountNotAllowed { id: self.tx, kind: self.kind })
        }
    }
}

} // verus!
