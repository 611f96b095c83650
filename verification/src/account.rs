use crate::error::MutationError;
use crate::laws::lemma_listing_holds_every_account;
use crate::transaction::{Mutation, Transaction, TransactionStatus, TransactionType, Transactions};
use std::collections::HashMap;
use vstd::prelude::*;

verus! {

broadcast use vstd::std_specs::hash::group_hash_axioms;

/// A client's balances, in 1/10,000ths of a unit: four decimals, and no floating
/// point anywhere in the stored state.
#[derive(Debug, Clone, Copy, PartialEq, Eq, Structural)]
pub struct Account {
    pub client: u16,
    /// What the client may withdraw or trade with.
    pub available: u32,
    /// What is frozen while a dispute is open.
    pub held: u32,
    /// The sum of the two above, in every account that the engine has worked on.
    pub total: u32,
    /// Set by a chargeback, and never cleared: a locked account accepts nothing.
    pub locked: bool,
}

/// What applying one record comes to: the answer, and the account and the ledger
/// as they stand afterwards.
pub struct Outcome {
    pub result: Result<(), MutationError>,
    pub account: Account,
    pub ledger: Map<u32, Transaction>,
}

impl Outcome {
    /// This outcome consists of exactly this answer, this account and this ledger.
    pub open spec fn gives(
        self,
        result: Result<(), MutationError>,
        account: Account,
        ledger: Map<u32, Transaction>,
    ) -> bool {
        &&& self.result == result
        &&& self.account == account
        &&& self.ledger =~= ledger
    }
}

impl Account {
    /// The balance equation that every account keeps.
    pub open spec fn balanced(self) -> bool {
        self.total == self.available + self.held
    }

    /// The account a client has before anything was applied to it.
    pub open spec fn fresh(client: u16) -> Account {
        Account { client, available: 0, held: 0, total: 0, locked: false }
    }

    /// A record that is turned down: the error, and nothing changed.
    pub open spec fn rejected(self, ledger: Map<u32, Transaction>, error: MutationError) -> Outcome {
        Outcome { result: Err(error), account: self, ledger }
    }

    /// A record that is tolerated without effect: success, and nothing changed.
    pub open spec fn ignored(self, ledger: Map<u32, Transaction>) -> Outcome {
        Outcome { result: Ok(()), account: self, ledger }
    }

    /// A deposit adds its amount to `available` and `total` and stores a new ledger
    /// entry. It is turned down without an amount, when either sum would not fit,
    /// and when the id is already stored.
    pub open spec fn spec_deposit(self, trx: Mutation, ledger: Map<u32, Transaction>) -> Outcome {
        match trx.as_transaction() {
            Err(error) => self.rejected(ledger, error),
            Ok(entry) => {
                let amount = entry.amount;
                if self.available + amount > u32::MAX || self.total + amount > u32::MAX {
                    self.rejected(ledger, MutationError::ArithmeticOverflow { id: trx.id, amount })
                } else if ledger.contains_key(trx.id) {
                    self.rejected(ledger, MutationError::DuplicateTransaction { id: trx.id })
                } else {
                    Outcome {
                        result: Ok(()),
                        account: Account {
                            available: (self.available + amount) as u32,
                            total: (self.total + amount) as u32,
                            ..self
                        },
                        ledger: ledger.insert(trx.id, entry),
                    }
                }
            },
        }
    }

    /// A withdrawal takes its amount from `available` and `total`, both or neither,
    /// and stores a new ledger entry. It is turned down without an amount, when
    /// either balance is smaller than the amount, and when the id is already stored.
    pub open spec fn spec_withdrawal(self, trx: Mutation, ledger: Map<u32, Transaction>) -> Outcome {
        match trx.as_transaction() {
            Err(error) => self.rejected(ledger, error),
            Ok(entry) => {
                let amount = entry.amount;
                if self.available < amount || self.total < amount {
                    self.rejected(ledger, MutationError::InsufficientFunds { id: trx.id, amount })
                } else if ledger.contains_key(trx.id) {
                    self.rejected(ledger, MutationError::DuplicateTransaction { id: trx.id })
                } else {
                    Outcome {
                        result: Ok(()),
                        account: Account {
                            available: (self.available - amount) as u32,
                            total: (self.total - amount) as u32,
                            ..self
                        },
                        ledger: ledger.insert(trx.id, entry),
                    }
                }
            },
        }
    }

    /// A dispute freezes the amount of a stored deposit whose status is `Posted`:
    /// it moves from `available` to `held`, and the entry becomes `Disputed`.
    /// An unknown id, or a deposit in any other status, is tolerated without
    /// effect. A stored entry that is no deposit is an error.
    pub open spec fn spec_dispute(self, id: u32, ledger: Map<u32, Transaction>) -> Outcome {
        if !ledger.contains_key(id) {
            self.ignored(ledger)
        } else if ledger[id].kind != TransactionType::Deposit {
            self.rejected(ledger, MutationError::OnlyDepositsDisputable { id })
        } else if ledger[id].status != TransactionStatus::Posted {
            self.ignored(ledger)
        } else {
            let amount = ledger[id].amount;
            if self.available < amount {
                self.rejected(ledger, MutationError::ArithmeticError { id, amount })
            } else if self.held + amount > u32::MAX {
                self.rejected(ledger, MutationError::ArithmeticOverflow { id, amount })
            } else {
                Outcome {
                    result: Ok(()),
                    account: Account {
                        available: (self.available - amount) as u32,
                        held: (self.held + amount) as u32,
                        ..self
                    },
                    ledger: Transactions::with_status(ledger, id, TransactionStatus::Disputed),
                }
            }
        }
    }

    /// A resolve releases the amount of a stored entry whose status is `Disputed`:
    /// it moves from `held` back to `available`, and the entry becomes `Resolved`.
    /// An unknown id, or an entry in any other status, is tolerated without effect.
    pub open spec fn spec_resolve(self, id: u32, ledger: Map<u32, Transaction>) -> Outcome {
        if !ledger.contains_key(id) || ledger[id].status != TransactionStatus::Disputed {
            self.ignored(ledger)
        } else {
            let amount = ledger[id].amount;
            if self.held < amount {
                self.rejected(ledger, MutationError::ArithmeticError { id, amount })
            } else if self.available + amount > u32::MAX {
                self.rejected(ledger, MutationError::ArithmeticOverflow { id, amount })
            } else {
                Outcome {
                    result: Ok(()),
                    account: Account {
                        available: (self.available + amount) as u32,
                        held: (self.held - amount) as u32,
                        ..self
                    },
                    ledger: Transactions::with_status(ledger, id, TransactionStatus::Resolved),
                }
            }
        }
    }

    /// A chargeback takes the amount of a stored entry whose status is `Resolved`
    /// out of `available` and `total`, marks the entry `Refunded` and locks the
    /// account. An unknown id, or an entry in any other status, is tolerated
    /// without effect.
    pub open spec fn spec_chargeback(self, id: u32, ledger: Map<u32, Transaction>) -> Outcome {
        if !ledger.contains_key(id) || ledger[id].status != TransactionStatus::Resolved {
            self.ignored(ledger)
        } else {
            let amount = ledger[id].amount;
            if self.available < amount || self.total < amount {
                self.rejected(ledger, MutationError::ArithmeticError { id, amount })
            } else {
                Outcome {
                    result: Ok(()),
                    account: Account {
                        available: (self.available - amount) as u32,
                        total: (self.total - amount) as u32,
                        locked: true,
                        ..self
                    },
                    ledger: Transactions::with_status(ledger, id, TransactionStatus::Refunded),
                }
            }
        }
    }

    /// The whole state machine: a locked account turns everything down; otherwise
    /// the record's kind picks the rule.
    pub open spec fn spec_mutate(self, trx: Mutation, ledger: Map<u32, Transaction>) -> Outcome {
        if self.locked {
            self.rejected(ledger, MutationError::LockedAccount { client: self.client })
        } else {
            match trx.kind {
                TransactionType::Deposit => self.spec_deposit(trx, ledger),
                TransactionType::Withdrawal => self.spec_withdrawal(trx, ledger),
                TransactionType::Dispute => self.spec_dispute(trx.id, ledger),
                TransactionType::Resolve => self.spec_resolve(trx.id, ledger),
                TransactionType::Chargeback => self.spec_chargeback(trx.id, ledger),
            }
        }
    }

    /// A new account: no funds, not locked.
    pub fn new(client: u16) -> (account: Account)
        ensures
            account == Self::fresh(client),
            account.balanced(),
    {
        Account { client, available: 0, held: 0, total: 0, locked: false }
    }

    /// Applies one record to this account, against the shared ledger.
    ///
    /// The answer and both new states are those of `spec_mutate`. Whatever the
    /// record: an error leaves account and ledger as they were, a locked account
    /// answers `LockedAccount`, the balance equation survives, and neither the
    /// client id nor a set lock changes.
    pub fn mutate(&mut self, trx: Mutation, trxs: &mut Transactions) -> (result: Result<
        (),
        MutationError,
    >)
        ensures
            old(self).spec_mutate(trx, old(trxs)@).gives(result, *final(self), final(trxs)@),
            result is Err ==> *final(self) == *old(self) && final(trxs)@ =~= old(trxs)@,
            old(self).locked ==> result == Err::<(), MutationError>(
                MutationError::LockedAccount { client: old(self).client },
            ),
            old(self).balanced() ==> final(self).balanced(),
            old(self).locked ==> final(self).locked,
            final(self).client == old(self).client,
    {
        if self.locked {
            return Err(MutationError::LockedAccount { client: self.client });
        }
        match trx.kind {
            TransactionType::Deposit => self.process_deposit(trx, trxs),
            TransactionType::Withdrawal => self.process_withdrawal(trx, trxs),
            TransactionType::Dispute => self.process_dispute(trx.id, trxs),
            TransactionType::Resolve => self.process_resolve(trx.id, trxs),
            TransactionType::Chargeback => self.process_chargeback(trx.id, trxs),
        }
    }

    /// Credits a deposit and stores it in the ledger, as `spec_deposit` says.
    pub fn process_deposit(&mut self, trx: Mutation, trxs: &mut Transactions) -> (result: Result<
        (),
        MutationError,
    >)
        ensures
            old(self).spec_deposit(trx, old(trxs)@).gives(result, *final(self), final(trxs)@),
            result is Err ==> *final(self) == *old(self) && final(trxs)@ =~= old(trxs)@,
            old(self).balanced() ==> final(self).balanced(),
    {
        let entry = match trx.try_into() {
            Ok(entry) => entry,
            Err(error) => return Err(error),
        };
        let overflow = MutationError::ArithmeticOverflow { id: trx.id, amount: entry.amount };
        let available = match self.available.checked_add(entry.amount) {
            Some(sum) => sum,
            None => return Err(overflow),
        };
        let total = match self.total.checked_add(entry.amount) {
            Some(sum) => sum,
            None => return Err(overflow),
        };
        match trxs.insert(entry) {
            Ok(()) => {
                self.available = available;
                self.total = total;
                Ok(())
            },
            Err(error) => Err(error),
        }
    }

    /// Debits a withdrawal and stores it in the ledger, as `spec_withdrawal` says.
    pub fn process_withdrawal(&mut self, trx: Mutation, trxs: &mut Transactions) -> (result:
        Result<(), MutationError>)
        ensures
            old(self).spec_withdrawal(trx, old(trxs)@).gives(result, *final(self), final(trxs)@),
            result is Err ==> *final(self) == *old(self) && final(trxs)@ =~= old(trxs)@,
            old(self).balanced() ==> final(self).balanced(),
    {
        let entry = match trx.try_into() {
            Ok(entry) => entry,
            Err(error) => return Err(error),
        };
        let short = MutationError::InsufficientFunds { id: trx.id, amount: entry.amount };
        let available = match self.available.checked_sub(entry.amount) {
            Some(rest) => rest,
            None => return Err(short),
        };
        let total = match self.total.checked_sub(entry.amount) {
            Some(rest) => rest,
            None => return Err(short),
        };
        match trxs.insert(entry) {
            Ok(()) => {
                self.available = available;
                self.total = total;
                Ok(())
            },
            Err(error) => Err(error),
        }
    }

    /// Opens a dispute on a stored deposit, as `spec_dispute` says.
    pub fn process_dispute(&mut self, id: u32, trxs: &mut Transactions) -> (result: Result<
        (),
        MutationError,
    >)
        ensures
            old(self).spec_dispute(id, old(trxs)@).gives(result, *final(self), final(trxs)@),
            result is Err ==> *final(self) == *old(self) && final(trxs)@ =~= old(trxs)@,
            old(self).balanced() ==> final(self).balanced(),
    {
        let entry = match trxs.find_mutable(id) {
            Some(entry) => entry,
            None => return Ok(()),
        };
        if entry.kind != TransactionType::Deposit {
            return Err(MutationError::OnlyDepositsDisputable { id });
        }
        if entry.status != TransactionStatus::Posted {
            return Ok(());
        }
        let available = match self.available.checked_sub(entry.amount) {
            Some(rest) => rest,
            None => return Err(MutationError::ArithmeticError { id, amount: entry.amount }),
        };
        let held = match self.held.checked_add(entry.amount) {
            Some(sum) => sum,
            None => return Err(MutationError::ArithmeticOverflow { id, amount: entry.amount }),
        };
        self.available = available;
        self.held = held;
        entry.status = TransactionStatus::Disputed;
        Ok(())
    }

    /// Closes a dispute in the client's favour, as `spec_resolve` says.
    pub fn process_resolve(&mut self, id: u32, trxs: &mut Transactions) -> (result: Result<
        (),
        MutationError,
    >)
        ensures
            old(self).spec_resolve(id, old(trxs)@).gives(result, *final(self), final(trxs)@),
            result is Err ==> *final(self) == *old(self) && final(trxs)@ =~= old(trxs)@,
            old(self).balanced() ==> final(self).balanced(),
    {
        let entry = match trxs.find_mutable(id) {
            Some(entry) => entry,
            None => return Ok(()),
        };
        if entry.status != TransactionStatus::Disputed {
            return Ok(());
        }
        let held = match self.held.checked_sub(entry.amount) {
            Some(rest) => rest,
            None => return Err(MutationError::ArithmeticError { id, amount: entry.amount }),
        };
        let available = match self.available.checked_add(entry.amount) {
            Some(sum) => sum,
            None => return Err(MutationError::ArithmeticOverflow { id, amount: entry.amount }),
        };
        self.available = available;
        self.held = held;
        entry.status = TransactionStatus::Resolved;
        Ok(())
    }

    /// Reverses a resolved transaction and locks the account, as `spec_chargeback` says.
    pub fn process_chargeback(&mut self, id: u32, trxs: &mut Transactions) -> (result: Result<
        (),
        MutationError,
    >)
        ensures
            old(self).spec_chargeback(id, old(trxs)@).gives(result, *final(self), final(trxs)@),
            result is Err ==> *final(self) == *old(self) && final(trxs)@ =~= old(trxs)@,
            old(self).balanced() ==> final(self).balanced(),
    {
        let entry = match trxs.find_mutable(id) {
            Some(entry) => entry,
            None => return Ok(()),
        };
        if entry.status != TransactionStatus::Resolved {
            return Ok(());
        }
        let underflow = MutationError::ArithmeticError { id, amount: entry.amount };
        let available = match self.available.checked_sub(entry.amount) {
            Some(rest) => rest,
            None => return Err(underflow),
        };
        let total = match self.total.checked_sub(entry.amount) {
            Some(rest) => rest,
            None => return Err(underflow),
        };
        self.available = available;
        self.total = total;
        self.locked = true;
        entry.status = TransactionStatus::Refunded;
        Ok(())
    }
}

/// All accounts seen so far, by client id. An account comes into being the first
/// time its client is named.
pub struct Accounts {
    accounts: HashMap<u16, Account>,
}

impl View for Accounts {
    type V = Map<u16, Account>;

    closed spec fn view(&self) -> Map<u16, Account> {
        self.accounts@
    }
}

impl Default for Accounts {
    fn default() -> (registry: Accounts)
        ensures
            registry@ == Map::<u16, Account>::empty(),
    {
        Accounts { accounts: HashMap::new() }
    }
}

impl Accounts {
    /// The account of `client` in `registry`: the stored one, or a fresh one.
    pub open spec fn lookup(registry: Map<u16, Account>, client: u16) -> Account {
        if registry.contains_key(client) {
            registry[client]
        } else {
            Account::fresh(client)
        }
    }

    /// Hands out the account of `client` for mutation, creating it with zero
    /// balances if the client is new. Whatever the caller leaves in the account is
    /// what the registry then holds for that client; no other client is touched.
    pub fn account_for_id(&mut self, client: u16) -> (account: &mut Account)
        ensures
            *account == Self::lookup(old(self)@, client),
            final(self)@ == old(self)@.insert(client, *final(account)),
    {
        self.accounts.entry(client).or_insert(Account::new(client))
    }

    /// Number of accounts.
    pub fn len(&self) -> (n: usize)
        ensures
            n == self@.len(),
    {
        self.accounts.len()
    }

    /// The account of `client` as it stands, if the client was ever named.
    pub fn get(&self, client: u16) -> (found: Option<Account>)
        ensures
            found == self@.get(client),
    {
        match self.accounts.get(&client) {
            Some(account) => Some(*account),
            None => None,
        }
    }

    /// The accounts stored under the keys below `bound`, by ascending key.
    pub open spec fn listing(registry: Map<u16, Account>, bound: int) -> Seq<Account>
        decreases bound,
    {
        if bound <= 0 {
            Seq::empty()
        } else {
            let below = Self::listing(registry, bound - 1);
            if registry.contains_key((bound - 1) as u16) {
                below.push(registry[(bound - 1) as u16])
            } else {
                below
            }
        }
    }

    /// Every account, once each, by ascending key.
    pub fn to_vec(&self) -> (all: Vec<Account>)
        ensures
            all@ == Self::listing(self@, u16::MAX + 1),
            forall|client: u16| #[trigger]
                self@.contains_key(client) ==> all@.contains(self@[client]),
    {
        let mut all: Vec<Account> = Vec::new();
        let mut next: u32 = 0;
        while next <= 0xffff
            invariant
                next <= 0x1_0000,
                all@ == Self::listing(self@, next as int),
            decreases 0x1_0000 - next,
        {
            match self.accounts.get(&(next as u16)) {
                Some(account) => all.push(*account),
                None => {},
            }
            next = next + 1;
        }
        proof {
            assert forall|client: u16| #[trigger] self@.contains_key(client) implies all@.contains(
                self@[client],
            ) by {
                lemma_listing_holds_every_account(self@, u16::MAX + 1, client);
            }
        }
        all
    }
}

} // verus!
