use crate::account::{Account, Accounts};
use crate::error::MutationError;
use crate::transaction::{Mutation, Transaction, Transactions};
use vstd::prelude::*;

verus! {

/// The engine's whole state as plain maps: the accounts by client id and the
/// ledger by transaction id.
pub struct State {
    pub accounts: Map<u16, Account>,
    pub ledger: Map<u32, Transaction>,
}

/// What the engine answers to one record, or to a run of them, and the state it is then in.
pub struct Step {
    pub result: Result<(), MutationError>,
    pub state: State,
}

impl State {
    /// Nothing seen yet.
    pub open spec fn initial() -> State {
        State { accounts: Map::empty(), ledger: Map::empty() }
    }

    /// Every account sits under its own client id and keeps the balance equation.
    pub open spec fn consistent(self) -> bool {
        forall|client: u16| #[trigger]
            self.accounts.contains_key(client) ==> self.accounts[client].balanced()
                && self.accounts[client].client == client
    }

    /// One record: the account of its client, created if new, takes it against the ledger.
    pub open spec fn apply(self, trx: Mutation) -> Step {
        let outcome = Accounts::lookup(self.accounts, trx.client).spec_mutate(trx, self.ledger);
        Step {
            result: outcome.result,
            state: State {
                accounts: self.accounts.insert(trx.client, outcome.account),
                ledger: outcome.ledger,
            },
        }
    }

    /// The records in order, up to and including the first that is turned down.
    pub open spec fn run(self, trxs: Seq<Mutation>) -> Step
        decreases trxs.len(),
    {
        if trxs.len() == 0 {
            Step { result: Ok(()), state: self }
        } else {
            let before = self.run(trxs.drop_last());
            if before.result is Err {
                before
            } else {
                before.state.apply(trxs.last())
            }
        }
    }

    /// Once a record was turned down, the records after it play no part.
    pub proof fn lemma_run_stops_at_error(self, trxs: Seq<Mutation>, upto: int)
        requires
            0 <= upto <= trxs.len(),
            self.run(trxs.take(upto)).result is Err,
        ensures
            self.run(trxs) == self.run(trxs.take(upto)),
        decreases trxs.len(),
    {
        if upto < trxs.len() {
            assert(trxs.drop_last().take(upto) =~= trxs.take(upto));
            self.lemma_run_stops_at_error(trxs.drop_last(), upto);
        } else {
            assert(trxs.take(upto) =~= trxs);
        }
    }
}

/// The accounts and the ledger they share, fed one record at a time, in order.
pub struct Engine {
    pub accounts: Accounts,
    pub transactions: Transactions,
}

impl View for Engine {
    type V = State;

    open spec fn view(&self) -> State {
        State { accounts: self.accounts@, ledger: self.transactions@ }
    }
}

impl Engine {
    /// An engine that has seen nothing.
    pub fn new() -> (engine: Engine)
        ensures
            engine@ == State::initial(),
            engine@.consistent(),
    {
        Engine { accounts: Accounts::default(), transactions: Transactions::default() }
    }

    /// Applies one record to the account of its client, which is created if the
    /// client is new, even where the record is then turned down.
    pub fn apply(&mut self, trx: Mutation) -> (result: Result<(), MutationError>)
        ensures
            old(self)@.apply(trx) == (Step { result, state: final(self)@ }),
            old(self)@.consistent() ==> final(self)@.consistent(),
    {
        let account = self.accounts.account_for_id(trx.client);
        account.mutate(trx, &mut self.transactions)
    }

    /// Applies the records in order and stops at the first that is turned down,
    /// whose error it returns; the records before it have taken effect.
    pub fn run(&mut self, trxs: &Vec<Mutation>) -> (result: Result<(), MutationError>)
        ensures
            old(self)@.run(trxs@) == (Step { result, state: final(self)@ }),
            old(self)@.consistent() ==> final(self)@.consistent(),
    {
        let ghost start = self@;
        let mut done: usize = 0;
        while done < trxs.len()
            invariant
                done <= trxs.len(),
                start == old(self)@,
                start.run(trxs@.take(done as int)) == (Step { result: Ok(()), state: self@ }),
                start.consistent() ==> self@.consistent(),
            decreases trxs.len() - done,
        {
            let answer = self.apply(trxs[done]);
            proof {
                assert(trxs@.take(done + 1).drop_last() =~= trxs@.take(done as int));
            }
            done = done + 1;
            if let Err(error) = answer {
                proof {
                    start.lemma_run_stops_at_error(trxs@, done as int);
                }
                return Err(error);
            }
        }
        proof {
            assert(trxs@.take(done as int) =~= trxs@);
        }
        Ok(())
    }
}

/// How a run ended, as the process reports it.
#[derive(Debug, Clone, Copy, PartialEq, Eq, Structural)]
pub enum Exit {
    Success,
    Failure,
}

impl Exit {
    /// The exit status: 0 for success, 1 for failure.
    pub fn code(self) -> (status: u8)
        ensures
            status == (if self is Success {
                0u8
            } else {
                1u8
            }),
    {
        match self {
            Exit::Success => 0,
            Exit::Failure => 1,
        }
    }
}

} // verus!
