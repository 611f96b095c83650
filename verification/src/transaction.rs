use crate::error::MutationError;
use std::collections::hash_map::Entry;
use std::collections::HashMap;
use vstd::prelude::*;

verus! {

broadcast use vstd::std_specs::hash::group_hash_axioms;

/// The five kinds of record the engine accepts.
#[derive(Debug, Clone, Copy, PartialEq, Eq, Structural)]
pub enum TransactionType {
    Deposit,
    Withdrawal,
    Dispute,
    Resolve,
    Chargeback,
}

/// Where a stored transaction stands in the dispute lifecycle. The only moves are
/// `Posted` to `Disputed`, `Disputed` to `Resolved` and `Resolved` to `Refunded`.
#[derive(Debug, Clone, Copy, PartialEq, Eq, Structural)]
pub enum TransactionStatus {
    Posted,
    Disputed,
    Resolved,
    Refunded,
}

/// A transaction that has been performed. Amounts count 1/10,000ths of a unit.
#[derive(Debug, Clone, Copy, PartialEq, Eq, Structural)]
pub struct Transaction {
    pub id: u32,
    pub kind: TransactionType,
    pub client: u16,
    pub amount: u32,
    pub status: TransactionStatus,
}

/// One input record, addressed to one account.
#[derive(Debug, Clone, Copy, PartialEq, Eq, Structural)]
pub struct Mutation {
    pub id: u32,
    pub kind: TransactionType,
    pub client: u16,
    pub amount: Option<u32>,
}

impl TransactionType {
    /// Deposits and withdrawals carry an amount; the dispute family does not.
    pub open spec fn carries_amount(self) -> bool {
        self is Deposit || self is Withdrawal
    }
}

impl Mutation {
    /// A record is well formed when an amount is present exactly for the kinds that carry one.
    pub open spec fn well_formed(self) -> bool {
        self.amount is Some <==> self.kind.carries_amount()
    }

    /// The stored transaction this record gives rise to, if it has an amount.
    pub open spec fn as_transaction(self) -> Result<Transaction, MutationError> {
        match self.amount {
            Some(amount) => Ok(
                Transaction {
                    id: self.id,
                    kind: self.kind,
                    client: self.client,
                    amount,
                    status: TransactionStatus::Posted,
                },
            ),
            None => Err(MutationError::MissingAmount { id: self.id }),
        }
    }

    /// Turns the record into a fresh transaction with status `Posted`. A record without
    /// an amount is refused with `MissingAmount`.
    pub fn try_into(self) -> (result: Result<Transaction, MutationError>)
        ensures
            result == self.as_transaction(),
    {
        match self.amount {
            Some(amount) => Ok(
                Transaction {
                    id: self.id,
                    kind: self.kind,
                    client: self.client,
                    amount,
                    status: TransactionStatus::Posted,
                },
            ),
            None => Err(MutationError::MissingAmount { id: self.id }),
        }
    }
}

/// Every deposit and withdrawal seen so far, by transaction id. Disputes, resolves and
/// chargebacks carry no amount of their own, so the history has to be kept.
pub struct Transactions {
    trxs: HashMap<u32, Transaction>,
}

impl View for Transactions {
    type V = Map<u32, Transaction>;

    closed spec fn view(&self) -> Map<u32, Transaction> {
        self.trxs@
    }
}

impl Default for Transactions {
    fn default() -> (ledger: Transactions)
        ensures
            ledger@ == Map::<u32, Transaction>::empty(),
    {
        Transactions { trxs: HashMap::new() }
    }
}

impl Transactions {
    /// The ledger after `trx` was offered to it: unchanged where the id is taken.
    pub open spec fn spec_insert(ledger: Map<u32, Transaction>, trx: Transaction) -> Map<
        u32,
        Transaction,
    > {
        if ledger.contains_key(trx.id) {
            ledger
        } else {
            ledger.insert(trx.id, trx)
        }
    }

    /// Number of stored transactions.
    pub fn len(&self) -> (n: usize)
        ensures
            n == self@.len(),
    {
        self.trxs.len()
    }

    /// Whether a transaction with this id is stored.
    pub fn contains(&self, id: u32) -> (found: bool)
        ensures
            found == self@.contains_key(id),
    {
        self.trxs.contains_key(&id)
    }

    /// The stored transaction with this id, if there is one.
    pub fn find(&self, id: u32) -> (found: Option<Transaction>)
        ensures
            found == self@.get(id),
    {
        match self.trxs.get(&id) {
            Some(trx) => Some(*trx),
            None => None,
        }
    }

    /// Stores a new transaction under its id. An id that is already stored is refused
    /// with `DuplicateTransaction`, and the ledger stays as it was.
    pub fn insert(&mut self, trx: Transaction) -> (result: Result<(), MutationError>)
        ensures
            final(self)@ == Self::spec_insert(old(self)@, trx),
            old(self)@.contains_key(trx.id) ==> result == Err::<(), MutationError>(
                MutationError::DuplicateTransaction { id: trx.id },
            ),
            !old(self)@.contains_key(trx.id) ==> result is Ok,
    {
        if self.trxs.contains_key(&trx.id) {
            return Err(MutationError::DuplicateTransaction { id: trx.id });
        }
        self.trxs.insert(trx.id, trx);
        Ok(())
    }

    /// Hands out the stored transaction with this id for update, if there is one.
    /// What the caller leaves in it is what the ledger then holds under `id`; no
    /// other entry is touched, and an unknown id changes nothing.
    pub fn find_mutable(&mut self, id: u32) -> (found: Option<&mut Transaction>)
        ensures
            match found {
                Some(entry) => {
                    &&& old(self)@.contains_key(id)
                    &&& *entry == old(self)@[id]
                    &&& final(self)@ == old(self)@.insert(id, *final(entry))
                },
                None => !old(self)@.contains_key(id) && final(self)@ == old(self)@,
            },
    {
        match self.trxs.entry(id) {
            Entry::Occupied(entry) => Some(entry.into_mut()),
            Entry::Vacant(_) => None,
        }
    }

    /// The ledger with the status of entry `id` replaced, if that entry exists.
    pub open spec fn with_status(
        ledger: Map<u32, Transaction>,
        id: u32,
        status: TransactionStatus,
    ) -> Map<u32, Transaction> {
        if ledger.contains_key(id) {
            ledger.insert(id, (Transaction { status, ..ledger[id] }))
        } else {
            ledger
        }
    }
}

} // verus!
