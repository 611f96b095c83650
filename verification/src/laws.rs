use crate::account::{Account, Accounts};
use crate::engine::State;
use crate::error::MutationError;
use crate::transaction::{Mutation, Transaction, TransactionStatus, TransactionType};
use vstd::prelude::*;

verus! {

/// How far along the dispute lifecycle a status is.
pub open spec fn stage(status: TransactionStatus) -> int {
    match status {
        TransactionStatus::Posted => 0,
        TransactionStatus::Disputed => 1,
        TransactionStatus::Resolved => 2,
        TransactionStatus::Refunded => 3,
    }
}

/// `after` is `before` with its status left alone or moved one stage on.
pub open spec fn advanced(before: Transaction, after: Transaction) -> bool {
    &&& after.id == before.id
    &&& after.kind == before.kind
    &&& after.client == before.client
    &&& after.amount == before.amount
    &&& stage(before.status) <= stage(after.status) <= stage(before.status) + 1
}

/// Whatever record is applied, an account whose total was the sum of available
/// and held funds before still has that property afterwards.
pub proof fn lemma_balance_is_kept(account: Account, trx: Mutation, ledger: Map<u32, Transaction>)
    requires
        account.balanced(),
    ensures
        account.spec_mutate(trx, ledger).account.balanced(),
{
}

/// A record that is turned down changes neither the account nor the ledger.
pub proof fn lemma_error_changes_nothing(
    account: Account,
    trx: Mutation,
    ledger: Map<u32, Transaction>,
)
    requires
        account.spec_mutate(trx, ledger).result is Err,
    ensures
        account.spec_mutate(trx, ledger).account == account,
        account.spec_mutate(trx, ledger).ledger == ledger,
{
}

/// A locked account turns every record down with `LockedAccount`; its balances,
/// its lock and the ledger stay as they are.
pub proof fn lemma_locked_account_is_final(
    account: Account,
    trx: Mutation,
    ledger: Map<u32, Transaction>,
)
    requires
        account.locked,
    ensures
        account.spec_mutate(trx, ledger) == account.rejected(
            ledger,
            MutationError::LockedAccount { client: account.client },
        ),
        account.spec_mutate(trx, ledger).account == account,
        account.spec_mutate(trx, ledger).ledger == ledger,
{
}

/// An account becomes locked by a successful chargeback and in no other way.
pub proof fn lemma_only_chargeback_locks(
    account: Account,
    trx: Mutation,
    ledger: Map<u32, Transaction>,
)
    requires
        !account.locked,
        account.spec_mutate(trx, ledger).account.locked,
    ensures
        trx.kind == TransactionType::Chargeback,
        account.spec_mutate(trx, ledger).result is Ok,
        ledger.contains_key(trx.id) && ledger[trx.id].status == TransactionStatus::Resolved,
{
}

/// Applying the same dispute, resolve or chargeback a second time, right after the
/// first, leaves the account and the ledger as the first left them. Where the
/// first was taken and did not lock the account, the second is taken too.
pub proof fn lemma_repeat_changes_nothing(
    account: Account,
    trx: Mutation,
    ledger: Map<u32, Transaction>,
)
    requires
        trx.kind == TransactionType::Dispute || trx.kind == TransactionType::Resolve || trx.kind
            == TransactionType::Chargeback,
    ensures
        ({
            let first = account.spec_mutate(trx, ledger);
            let second = first.account.spec_mutate(trx, first.ledger);
            &&& second.account == first.account
            &&& second.ledger == first.ledger
            &&& first.result is Ok && !first.account.locked ==> second.result is Ok
        }),
{
}

/// No record removes a ledger entry or touches its id, kind, client or amount, and
/// a status only ever moves one stage forward: posted, disputed, resolved, refunded.
pub proof fn lemma_ledger_only_advances(
    account: Account,
    trx: Mutation,
    ledger: Map<u32, Transaction>,
    id: u32,
)
    requires
        ledger.contains_key(id),
    ensures
        account.spec_mutate(trx, ledger).ledger.contains_key(id),
        advanced(ledger[id], account.spec_mutate(trx, ledger).ledger[id]),
{
}

/// A record touches at most the ledger entry that it names.
pub proof fn lemma_other_entries_untouched(
    account: Account,
    trx: Mutation,
    ledger: Map<u32, Transaction>,
    id: u32,
)
    requires
        id != trx.id,
    ensures
        account.spec_mutate(trx, ledger).ledger.contains_key(id) == ledger.contains_key(id),
        ledger.contains_key(id) ==> account.spec_mutate(trx, ledger).ledger[id] == ledger[id],
{
}

/// Every entry sits under its own id and is a deposit or a withdrawal.
pub open spec fn well_kept(ledger: Map<u32, Transaction>) -> bool {
    forall|id: u32| #[trigger]
        ledger.contains_key(id) ==> ledger[id].id == id && ledger[id].kind.carries_amount()
}

/// The state machine stores deposits and withdrawals only, each under its own id.
pub proof fn lemma_ledger_stays_well_kept(
    account: Account,
    trx: Mutation,
    ledger: Map<u32, Transaction>,
)
    requires
        well_kept(ledger),
    ensures
        well_kept(account.spec_mutate(trx, ledger).ledger),
{
}

/// A stored withdrawal never leaves the status it was stored with: it cannot be
/// disputed, so it can be neither resolved nor charged back.
pub proof fn lemma_withdrawals_stay_posted(
    account: Account,
    trx: Mutation,
    ledger: Map<u32, Transaction>,
    id: u32,
)
    requires
        ledger.contains_key(id),
        ledger[id].kind == TransactionType::Withdrawal,
        ledger[id].status == TransactionStatus::Posted,
    ensures
        account.spec_mutate(trx, ledger).ledger[id] == ledger[id],
{
}

/// One record leaves every account under its own client id and balanced, if all
/// were so before, and touches no account but that of the client it names.
pub proof fn lemma_apply_keeps_consistency(state: State, trx: Mutation)
    requires
        state.consistent(),
    ensures
        state.apply(trx).state.consistent(),
        forall|client: u16|
            client != trx.client ==> state.apply(trx).state.accounts.contains_key(client)
                == state.accounts.contains_key(client),
        forall|client: u16|
            client != trx.client && #[trigger] state.accounts.contains_key(client)
                ==> state.apply(trx).state.accounts[client] == state.accounts[client],
{
}

/// At every point of a run that starts from a consistent state, each account's
/// total is the sum of its available and held funds.
pub proof fn lemma_run_keeps_consistency(state: State, trxs: Seq<Mutation>)
    requires
        state.consistent(),
    ensures
        state.run(trxs).state.consistent(),
        forall|upto: int| 0 <= upto <= trxs.len() ==> (#[trigger] state.run(trxs.take(upto))).state.consistent(),
    decreases trxs.len(),
{
    if trxs.len() > 0 {
        let shorter = trxs.drop_last();
        lemma_run_keeps_consistency(state, shorter);
        lemma_apply_keeps_consistency(state.run(shorter).state, trxs.last());
        assert forall|upto: int| 0 <= upto <= trxs.len() implies (#[trigger] state.run(
            trxs.take(upto),
        )).state.consistent() by {
            if upto < trxs.len() {
                assert(trxs.take(upto) =~= shorter.take(upto));
            } else {
                assert(trxs.take(upto) =~= trxs);
            }
        }
    } else {
        assert forall|upto: int| 0 <= upto <= trxs.len() implies (#[trigger] state.run(
            trxs.take(upto),
        )).state.consistent() by {
            assert(trxs.take(upto) =~= trxs);
        }
    }
}

/// The empty engine is consistent, so the balance equation holds throughout any
/// run from the start.
pub proof fn lemma_initial_state_is_consistent()
    ensures
        State::initial().consistent(),
{
}

/// Once an account is locked, no run of records, whomever they name, changes its
/// available, held or total funds, or lifts the lock.
pub proof fn lemma_run_leaves_locked_account(state: State, trxs: Seq<Mutation>, client: u16)
    requires
        state.accounts.contains_key(client),
        state.accounts[client].locked,
    ensures
        state.run(trxs).state.accounts.contains_key(client),
        state.run(trxs).state.accounts[client] == state.accounts[client],
    decreases trxs.len(),
{
    if trxs.len() > 0 {
        lemma_run_leaves_locked_account(state, trxs.drop_last(), client);
    }
}

/// The order of records matters. After a deposit, a withdrawal of the same
/// amount is taken and empties the account; once the deposit is under dispute,
/// the same withdrawal is turned down, because the funds are held.
pub proof fn lemma_disputed_funds_cannot_be_withdrawn(
    client: u16,
    amount: u32,
    deposit_id: u32,
    withdrawal_id: u32,
    ledger: Map<u32, Transaction>,
)
    requires
        amount > 0,
        deposit_id != withdrawal_id,
        !ledger.contains_key(deposit_id),
        !ledger.contains_key(withdrawal_id),
    ensures
        ({
            let deposit = Mutation {
                id: deposit_id,
                kind: TransactionType::Deposit,
                client,
                amount: Some(amount),
            };
            let dispute = Mutation {
                id: deposit_id,
                kind: TransactionType::Dispute,
                client,
                amount: None,
            };
            let withdrawal = Mutation {
                id: withdrawal_id,
                kind: TransactionType::Withdrawal,
                client,
                amount: Some(amount),
            };
            let funded = Account::fresh(client).spec_mutate(deposit, ledger);
            let early = funded.account.spec_mutate(withdrawal, funded.ledger);
            let disputed = funded.account.spec_mutate(dispute, funded.ledger);
            let late = disputed.account.spec_mutate(withdrawal, disputed.ledger);
            &&& funded.result is Ok
            &&& early.result is Ok
            &&& early.account.available == 0 && early.account.total == 0
            &&& disputed.result is Ok
            &&& disputed.account.available == 0 && disputed.account.held == amount
            &&& late.result == Err::<(), MutationError>(
                MutationError::InsufficientFunds { id: withdrawal_id, amount },
            )
            &&& late.account == disputed.account
        }),
{
}

/// The listing of a registry holds the account of every client it knows.
pub proof fn lemma_listing_holds_every_account(
    registry: Map<u16, Account>,
    bound: int,
    client: u16,
)
    requires
        registry.contains_key(client),
        client < bound <= u16::MAX + 1,
    ensures
        Accounts::listing(registry, bound).contains(registry[client]),
    decreases bound,
{
    let below = Accounts::listing(registry, bound - 1);
    let all = Accounts::listing(registry, bound);
    if client == bound - 1 {
        assert(all[below.len() as int] == registry[client]);
    } else {
        lemma_listing_holds_every_account(registry, bound - 1, client);
        let at = choose|at: int| 0 <= at < below.len() && below[at] == registry[client];
        assert(all[at] == registry[client]);
    }
}

/// Where every account sits under its own client id, the listing holds stored
/// accounts only, each under a client id below the bound, in strictly ascending
/// order of client id: so none twice.
pub proof fn lemma_listing_is_ascending(registry: Map<u16, Account>, bound: int)
    requires
        bound <= u16::MAX + 1,
        forall|client: u16| #[trigger]
            registry.contains_key(client) ==> registry[client].client == client,
    ensures
        forall|at: int|
            0 <= at < Accounts::listing(registry, bound).len() ==> {
                let account = #[trigger] Accounts::listing(registry, bound)[at];
                &&& account.client < bound
                &&& registry.contains_key(account.client)
                &&& registry[account.client] == account
            },
        forall|first: int, second: int|
            0 <= first < second < Accounts::listing(registry, bound).len() ==> (
            #[trigger] Accounts::listing(registry, bound)[first]).client < (
            #[trigger] Accounts::listing(registry, bound)[second]).client,
    decreases bound,
{
    if bound > 0 {
        lemma_listing_is_ascending(registry, bound - 1);
        let below = Accounts::listing(registry, bound - 1);
        let all = Accounts::listing(registry, bound);
        assert forall|at: int| 0 <= at < all.len() implies {
            let account = #[trigger] all[at];
            &&& account.client < bound
            &&& registry.contains_key(account.client)
            &&& registry[account.client] == account
        } by {
            if at < below.len() {
                assert(all[at] == below[at]);
            }
        }
        assert forall|first: int, second: int| 0 <= first < second < all.len() implies (
        #[trigger] all[first]).client < (#[trigger] all[second]).client by {
            assert(all[first] == below[first]);
            if second < below.len() {
                assert(all[second] == below[second]);
            }
        }
    }
}

} // verus!
