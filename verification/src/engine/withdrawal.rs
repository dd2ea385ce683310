//! Withdrawing funds, and the dispute lifecycle of a stored withdrawal
//! record: disputing and resolving touch no balance (the withdrawn funds
//! already left the account entirely), while a chargeback refunds the amount
//! and locks the account.

use vstd::prelude::*;

use crate::client::{
    can_deposit, can_withdraw, client_wf, deposit_fail, deposit_next, lock_next, withdraw_fail,
    withdraw_next, Client, ClientV,
};
use crate::engine::{
    client_at, client_has, engine_wf, lemma_client_at, lemma_update_preserves_clients_wf,
    lemma_view, record_tx, Engine, EngineV,
};
use crate::errors::EngineError;
use crate::transaction::{Transaction, TransactionDisputeStatus};

verus! {

/// Arithmetic room a withdrawal needs in the account it debits.
pub open spec fn fits(e: EngineV, t: Transaction) -> bool {
    client_has(e.clients, t.client) ==> {
        let c = e.clients[client_at(e.clients, t.client)];
        !c.locked && t.amount@ >= 0 ==> i64::MIN <= c.available - t.amount@
    }
}

/// What executing a withdrawal does: unlike a deposit it never creates an
/// account; the record is stored only when the debit succeeded.
pub open spec fn post(pre: EngineV, cur: EngineV, t: Transaction, r: Result<
    (),
    EngineError,
>) -> bool {
    if client_has(pre.clients, t.client) {
        let i = client_at(pre.clients, t.client);
        let c = pre.clients[i];
        if can_withdraw(c, t.amount@) {
            &&& cur.clients == pre.clients.update(i, withdraw_next(c, t.amount@))
            &&& cur.transactions == record_tx(pre.transactions, t)
            &&& r == Ok::<(), EngineError>(())
        } else {
            &&& cur == pre
            &&& r == Err::<(), EngineError>(withdraw_fail(c, t.amount))
        }
    } else {
        &&& cur == pre
        &&& r == Err::<(), EngineError>(EngineError::ClientNotFound(t.client))
    }
}

pub fn execute(e: &mut Engine, transaction: &Transaction) -> (r: Result<(), EngineError>)
    requires
        engine_wf(old(e)@),
        fits(old(e)@, *transaction),
    ensures
        engine_wf(final(e)@),
        post(old(e)@, final(e)@, *transaction, r),
{
    proof {
        lemma_view(e);
    }
    match e.find_client_idx(transaction.client) {
        Some(i) => {
            proof {
                lemma_client_at(e@.clients, transaction.client, i as int);
            }
            let mut c = e.clients[i];
            match c.withdraw_funds(transaction.amount) {
                Ok(_) => {
                    e.clients[i] = c;
                    proof {
                        lemma_view(e);
                        assert(e@.clients =~= old(e)@.clients.update(
                            i as int,
                            withdraw_next(old(e)@.clients[i as int], transaction.amount@),
                        ));
                        assert(e@.transactions =~= old(e)@.transactions);
                        lemma_update_preserves_clients_wf(
                            old(e)@.clients,
                            i as int,
                            withdraw_next(old(e)@.clients[i as int], transaction.amount@),
                        );
                    }
                    e.record_transaction(transaction);
                    Ok(())
                },
                Err(err) => Err(err),
            }
        },
        None => Err(EngineError::ClientNotFound(transaction.client)),
    }
}

/// Opening a dispute against a stored withdrawal: a provisional claim that
/// moves no funds; the record alone becomes `DISPUTED`.
pub fn dispute(_client: &mut Client, transaction: &mut Transaction) -> (r: Result<
    (),
    EngineError,
>)
    ensures
        *final(_client) == *old(_client),
        if old(transaction).dispute_status != TransactionDisputeStatus::NONE {
            &&& *final(transaction) == *old(transaction)
            &&& r == Err::<(), EngineError>(
                EngineError::TransactionInvalidStatus(old(transaction).tx),
            )
        } else {
            &&& *final(transaction) == (Transaction {
                dispute_status: TransactionDisputeStatus::DISPUTED,
                ..*old(transaction)
            })
            &&& r == Ok::<(), EngineError>(())
        },
{
    if let Err(e) = transaction.assure_status(TransactionDisputeStatus::NONE) {
        return Err(e);
    }
    transaction.dispute_status = TransactionDisputeStatus::DISPUTED;
    Ok(())
}

/// Resolving a disputed withdrawal: the claim is withdrawn; no funds move
/// and the record goes back to `NONE`.
pub fn resolve(_client: &mut Client, transaction: &mut Transaction) -> (r: Result<
    (),
    EngineError,
>)
    ensures
        *final(_client) == *old(_client),
        if old(transaction).dispute_status != TransactionDisputeStatus::DISPUTED {
            &&& *final(transaction) == *old(transaction)
            &&& r == Err::<(), EngineError>(
                EngineError::TransactionInvalidStatus(old(transaction).tx),
            )
        } else {
            &&& *final(transaction) == (Transaction {
                dispute_status: TransactionDisputeStatus::NONE,
                ..*old(transaction)
            })
            &&& r == Ok::<(), EngineError>(())
        },
{
    if let Err(e) = transaction.assure_status(TransactionDisputeStatus::DISPUTED) {
        return Err(e);
    }
    transaction.dispute_status = TransactionDisputeStatus::NONE;
    Ok(())
}

/// Charging back a disputed withdrawal: the withdrawn amount is refunded to
/// `available`, the account is locked, and the record ends `REVERSED`.
pub fn revert(client: &mut Client, transaction: &mut Transaction) -> (r: Result<(), EngineError>)
    requires
        client_wf(old(client)@),
        old(transaction).dispute_status == TransactionDisputeStatus::DISPUTED && can_deposit(
            old(client)@,
            old(transaction).amount@,
        ) ==> old(client)@.available + old(transaction).amount@ <= i64::MAX,
    ensures
        client_wf(final(client)@),
        if old(transaction).dispute_status != TransactionDisputeStatus::DISPUTED {
            &&& final(client)@ == old(client)@
            &&& *final(transaction) == *old(transaction)
            &&& r == Err::<(), EngineError>(
                EngineError::TransactionInvalidStatus(old(transaction).tx),
            )
        } else if can_deposit(old(client)@, old(transaction).amount@) {
            &&& final(client)@ == lock_next(deposit_next(old(client)@, old(transaction).amount@))
            &&& *final(transaction) == (Transaction {
                dispute_status: TransactionDisputeStatus::REVERSED,
                ..*old(transaction)
            })
            &&& r == Ok::<(), EngineError>(())
        } else {
            &&& final(client)@ == old(client)@
            &&& *final(transaction) == *old(transaction)
            &&& r == Err::<(), EngineError>(deposit_fail(old(client)@, old(transaction).amount))
        },
{
    if let Err(e) = transaction.assure_status(TransactionDisputeStatus::DISPUTED) {
        return Err(e);
    }
    match client.deposit_funds(transaction.amount) {
        Ok(_) => {
            match client.lock() {
                Ok(_) => {
                    transaction.dispute_status = TransactionDisputeStatus::REVERSED;
                    Ok(())
                },
                Err(e) => Err(e),
            }
        },
        Err(e) => Err(e),
    }
}

} // verus!
