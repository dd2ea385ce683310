//! Depositing funds, and the dispute lifecycle of a stored deposit record:
//! a dispute freezes the deposited amount, a resolve releases it back, and a
//! chargeback voids it and locks the account.

use vstd::prelude::*;

use crate::client::{
    can_chargeback, can_deposit, can_hold, can_release, chargeback_fail, chargeback_next,
    client_wf, deposit_fail, deposit_next, hold_fail, hold_next, release_fail, release_next,
    Client, ClientV,
};
use crate::engine::{
    client_at, client_has, engine_wf, lemma_client_at, lemma_push_preserves_clients_wf,
    lemma_update_preserves_clients_wf, lemma_view, record_tx, Engine, EngineV,
};
use crate::errors::EngineError;
use crate::transaction::{Transaction, TransactionDisputeStatus};

verus! {

/// Arithmetic room a deposit needs in the account it credits.
pub open spec fn fits(e: EngineV, t: Transaction) -> bool {
    client_has(e.clients, t.client) ==> {
        let c = e.clients[client_at(e.clients, t.client)];
        can_deposit(c, t.amount@) ==> c.available + t.amount@ <= i64::MAX
    }
}

/// What executing a deposit does: the client's account is credited, created
/// first when the deposit is its very first; the record is stored only when
/// the credit succeeded.
pub open spec fn post(pre: EngineV, cur: EngineV, t: Transaction, r: Result<
    (),
    EngineError,
>) -> bool {
    if client_has(pre.clients, t.client) {
        let i = client_at(pre.clients, t.client);
        let c = pre.clients[i];
        if can_deposit(c, t.amount@) {
            &&& cur.clients == pre.clients.update(i, deposit_next(c, t.amount@))
            &&& cur.transactions == record_tx(pre.transactions, t)
            &&& r == Ok::<(), EngineError>(())
        } else {
            &&& cur == pre
            &&& r == Err::<(), EngineError>(deposit_fail(c, t.amount))
        }
    } else if t.amount@ >= 0 {
        &&& cur.clients == pre.clients.push(
            ClientV { id: t.client, available: t.amount@, held: 0, locked: false },
        )
        &&& cur.transactions == record_tx(pre.transactions, t)
        &&& r == Ok::<(), EngineError>(())
    } else {
        &&& cur == pre
        &&& r == Err::<(), EngineError>(EngineError::NegativeAmount(t.amount))
    }
}

pub fn execute(e: &mut Engine, transaction: &Transaction) -> (r: Result<(), EngineError>)
    requires
        engine_wf(old(e)@),
        fits(old(e)@, *transaction),
    ensures
        engine_wf(final(e)@),
        post(old(e)@, final(e)@, *transaction, r),
{
    proof {
        lemma_view(e);
    }
    match e.find_client_idx(transaction.client) {
        Some(i) => {
            proof {
                lemma_client_at(e@.clients, transaction.client, i as int);
            }
            let mut c = e.clients[i];
            match c.deposit_funds(transaction.amount) {
                Ok(_) => {
                    e.clients[i] = c;
                    proof {
                        lemma_view(e);
                        assert(e@.clients =~= old(e)@.clients.update(
                            i as int,
                            deposit_next(old(e)@.clients[i as int], transaction.amount@),
                        ));
                        assert(e@.transactions =~= old(e)@.transactions);
                        lemma_update_preserves_clients_wf(
                            old(e)@.clients,
                            i as int,
                            deposit_next(old(e)@.clients[i as int], transaction.amount@),
                        );
                    }
                    e.record_transaction(transaction);
                    Ok(())
                },
                Err(err) => Err(err),
            }
        },
        None => {
            if transaction.amount.is_negative() {
                Err(EngineError::NegativeAmount(transaction.amount))
            } else {
                let mut c = Client::new(transaction.client);
                proof {
                    transaction.amount.lemma_view_in_range();
                }
                let _ = c.deposit_funds(transaction.amount);
                e.clients.push(c);
                proof {
                    lemma_view(e);
                    assert(e@.clients =~= old(e)@.clients.push(
                        ClientV {
                            id: transaction.client,
                            available: transaction.amount@,
                            held: 0,
                            locked: false,
                        },
                    ));
                    assert(e@.transactions =~= old(e)@.transactions);
                    lemma_push_preserves_clients_wf(
                        old(e)@.clients,
                        ClientV {
                            id: transaction.client,
                            available: transaction.amount@,
                            held: 0,
                            locked: false,
                        },
                    );
                }
                e.record_transaction(transaction);
                Ok(())
            }
        },
    }
}

/// Opening a dispute against a stored deposit: its amount moves from
/// `available` to `held` and the record becomes `DISPUTED`. Fails when the
/// record is not in `NONE`, or when the account rejects the hold.
pub fn dispute(client: &mut Client, transaction: &mut Transaction) -> (r: Result<(), EngineError>)
    requires
        client_wf(old(client)@),
        old(transaction).dispute_status == TransactionDisputeStatus::NONE && can_hold(
            old(client)@,
            old(transaction).amount@,
        ) ==> {
            &&& i64::MIN <= old(client)@.available - old(transaction).amount@
            &&& old(client)@.held + old(transaction).amount@ <= i64::MAX
        },
    ensures
        client_wf(final(client)@),
        if old(transaction).dispute_status != TransactionDisputeStatus::NONE {
            &&& final(client)@ == old(client)@
            &&& *final(transaction) == *old(transaction)
            &&& r == Err::<(), EngineError>(
                EngineError::TransactionInvalidStatus(old(transaction).tx),
            )
        } else if can_hold(old(client)@, old(transaction).amount@) {
            &&& final(client)@ == hold_next(old(client)@, old(transaction).amount@)
            &&& *final(transaction) == (Transaction {
                dispute_status: TransactionDisputeStatus::DISPUTED,
                ..*old(transaction)
            })
            &&& r == Ok::<(), EngineError>(())
        } else {
            &&& final(client)@ == old(client)@
            &&& *final(transaction) == *old(transaction)
            &&& r == Err::<(), EngineError>(hold_fail(old(client)@, old(transaction).amount))
        },
{
    if let Err(e) = transaction.assure_status(TransactionDisputeStatus::NONE) {
        return Err(e);
    }
    match client.hold_funds(transaction.amount) {
        Ok(_) => {
            transaction.dispute_status = TransactionDisputeStatus::DISPUTED;
            Ok(())
        },
        Err(e) => Err(e),
    }
}

/// Resolving a disputed deposit: its amount returns from `held` to
/// `available` and the record goes back to `NONE`.
pub fn resolve(client: &mut Client, transaction: &mut Transaction) -> (r: Result<(), EngineError>)
    requires
        client_wf(old(client)@),
        old(transaction).dispute_status == TransactionDisputeStatus::DISPUTED && can_release(
            old(client)@,
            old(transaction).amount@,
        ) ==> old(client)@.available + old(transaction).amount@ <= i64::MAX,
    ensures
        client_wf(final(client)@),
        if old(transaction).dispute_status != TransactionDisputeStatus::DISPUTED {
            &&& final(client)@ == old(client)@
            &&& *final(transaction) == *old(transaction)
            &&& r == Err::<(), EngineError>(
                EngineError::TransactionInvalidStatus(old(transaction).tx),
            )
        } else if can_release(old(client)@, old(transaction).amount@) {
            &&& final(client)@ == release_next(old(client)@, old(transaction).amount@)
            &&& *final(transaction) == (Transaction {
                dispute_status: TransactionDisputeStatus::NONE,
                ..*old(transaction)
            })
            &&& r == Ok::<(), EngineError>(())
        } else {
            &&& final(client)@ == old(client)@
            &&& *final(transaction) == *old(transaction)
            &&& r == Err::<(), EngineError>(release_fail(old(client)@, old(transaction).amount))
        },
{
    if let Err(e) = transaction.assure_status(TransactionDisputeStatus::DISPUTED) {
        return Err(e);
    }
    match client.release_funds(transaction.amount) {
        Ok(_) => {
            transaction.dispute_status = TransactionDisputeStatus::NONE;
            Ok(())
        },
        Err(e) => Err(e),
    }
}

/// Charging back a disputed deposit: the held amount is voided and the
/// account locked in one step. The follow-up lock attempt then finds the
/// account already locked and reports `AccountLocked`, so the record stays
/// `DISPUTED` although the funds are gone — kept deliberately, as the
/// engine has always behaved.
pub fn revert(client: &mut Client, transaction: &mut Transaction) -> (r: Result<(), EngineError>)
    requires
        client_wf(old(client)@),
    ensures
        client_wf(final(client)@),
        if old(transaction).dispute_status != TransactionDisputeStatus::DISPUTED {
            &&& final(client)@ == old(client)@
            &&& *final(transaction) == *old(transaction)
            &&& r == Err::<(), EngineError>(
                EngineError::TransactionInvalidStatus(old(transaction).tx),
            )
        } else if can_chargeback(old(client)@, old(transaction).amount@) {
            &&& final(client)@ == chargeback_next(old(client)@, old(transaction).amount@)
            &&& *final(transaction) == *old(transaction)
            &&& r == Err::<(), EngineError>(EngineError::AccountLocked(old(client)@.id))
        } else {
            &&& final(client)@ == old(client)@
            &&& *final(transaction) == *old(transaction)
            &&& r == Err::<(), EngineError>(chargeback_fail(old(client)@, old(transaction).amount))
        },
{
    if let Err(e) = transaction.assure_status(TransactionDisputeStatus::DISPUTED) {
        return Err(e);
    }
    match client.chargeback_funds(transaction.amount) {
        Ok(_) => {
            match client.lock() {
                Ok(_) => {
                    transaction.dispute_status = TransactionDisputeStatus::REVERSED;
                    Ok(())
                },
                Err(e) => Err(e),
            }
        },
        Err(e) => Err(e),
    }
}

} // verus!
