//! Charging back a dispute: look up the referenced record and the account of
//! the client that owns it, then reverse the transaction the way the
//! record's own kind demands. Either way the account ends locked; only a
//! reversed withdrawal moves the record to its terminal status, a reversed
//! deposit stays `DISPUTED` because the follow-up lock step finds the
//! account already locked and its failure is reported (kept deliberately,
//! as the engine has always behaved).

use vstd::prelude::*;

use crate::client::{
    can_chargeback, can_deposit, chargeback_fail, chargeback_next, deposit_fail, deposit_next,
    lock_next,
};
use crate::engine::{
    client_at, client_has, deposit, engine_wf, lemma_client_at, lemma_tx_at,
    lemma_update_preserves_clients_wf, lemma_update_preserves_txs_wf, lemma_view, tx_at, tx_has,
    withdrawal, Engine, EngineV,
};
use crate::errors::EngineError;
use crate::transaction::{Transaction, TransactionDisputeStatus, TransactionType};

verus! {

/// Arithmetic room a chargeback needs: only a reversed withdrawal credits
/// funds back.
pub open spec fn fits(e: EngineV, t: Transaction) -> bool {
    tx_has(e.transactions, t.tx) ==> {
        let target = e.transactions[tx_at(e.transactions, t.tx)];
        client_has(e.clients, target.client) ==> {
            let c = e.clients[client_at(e.clients, target.client)];
            target.kind == TransactionType::WITHDRAWAL && target.dispute_status
                == TransactionDisputeStatus::DISPUTED && can_deposit(c, target.amount@)
                ==> c.available + target.amount@ <= i64::MAX
        }
    }
}

/// What executing a chargeback does: the referenced record must exist,
/// belong to a known client, and stand in `DISPUTED`. A charged-back
/// deposit voids its held amount and locks the account, then reports the
/// redundant second lock's `AccountLocked`, leaving the record `DISPUTED`.
/// A charged-back withdrawal refunds its amount, locks the account, and
/// ends the record `REVERSED`.
pub open spec fn post(pre: EngineV, cur: EngineV, t: Transaction, r: Result<
    (),
    EngineError,
>) -> bool {
    if !tx_has(pre.transactions, t.tx) {
        &&& cur == pre
        &&& r == Err::<(), EngineError>(EngineError::TransactionNotFound(t.tx))
    } else {
        let ti = tx_at(pre.transactions, t.tx);
        let target = pre.transactions[ti];
        if !client_has(pre.clients, target.client) {
            &&& cur == pre
            &&& r == Err::<(), EngineError>(EngineError::ClientNotFound(target.client))
        } else {
            let ci = client_at(pre.clients, target.client);
            let c = pre.clients[ci];
            match target.kind {
                TransactionType::DEPOSIT => if target.dispute_status
                    != TransactionDisputeStatus::DISPUTED {
                    &&& cur == pre
                    &&& r == Err::<(), EngineError>(
                        EngineError::TransactionInvalidStatus(target.tx),
                    )
                } else if can_chargeback(c, target.amount@) {
                    &&& cur.clients == pre.clients.update(ci, chargeback_next(c, target.amount@))
                    &&& cur.transactions == pre.transactions
                    &&& r == Err::<(), EngineError>(EngineError::AccountLocked(c.id))
                } else {
                    &&& cur == pre
                    &&& r == Err::<(), EngineError>(chargeback_fail(c, target.amount))
                },
                TransactionType::WITHDRAWAL => if target.dispute_status
                    != TransactionDisputeStatus::DISPUTED {
                    &&& cur == pre
                    &&& r == Err::<(), EngineError>(
                        EngineError::TransactionInvalidStatus(target.tx),
                    )
                } else if can_deposit(c, target.amount@) {
                    &&& cur.clients == pre.clients.update(
                        ci,
                        lock_next(deposit_next(c, target.amount@)),
                    )
                    &&& cur.transactions == pre.transactions.update(
                        ti,
                        Transaction { dispute_status: TransactionDisputeStatus::REVERSED, ..target },
                    )
                    &&& r == Ok::<(), EngineError>(())
                } else {
                    &&& cur == pre
                    &&& r == Err::<(), EngineError>(deposit_fail(c, target.amount))
                },
                _ => {
                    &&& cur == pre
                    &&& r == Err::<(), EngineError>(EngineError::InvalidTransactionType)
                },
            }
        }
    }
}

pub fn execute(e: &mut Engine, transaction: &Transaction) -> (r: Result<(), EngineError>)
    requires
        engine_wf(old(e)@),
        fits(old(e)@, *transaction),
    ensures
        engine_wf(final(e)@),
        post(old(e)@, final(e)@, *transaction, r),
{
    proof {
        lemma_view(e);
    }
    let ti = match e.find_tx_idx(transaction.tx) {
        Some(i) => i,
        None => {
            return Err(EngineError::TransactionNotFound(transaction.tx));
        },
    };
    proof {
        lemma_tx_at(e@.transactions, transaction.tx, ti as int);
    }
    let mut target = e.transactions[ti];
    let ci = match e.find_client_idx(target.client) {
        Some(i) => i,
        None => {
            return Err(EngineError::ClientNotFound(target.client));
        },
    };
    proof {
        lemma_client_at(e@.clients, target.client, ci as int);
    }
    let mut client = e.clients[ci];
    let res = match target.kind {
        TransactionType::DEPOSIT => deposit::revert(&mut client, &mut target),
        TransactionType::WITHDRAWAL => withdrawal::revert(&mut client, &mut target),
        _ => Err(EngineError::InvalidTransactionType),
    };
    // A charged-back deposit mutates the account although its result is an
    // error, so the account and the record are written back whatever came
    // out; on the untouched paths this stores the values already there.
    e.clients[ci] = client;
    e.transactions[ti] = target;
    proof {
        lemma_view(e);
        assert(e@.clients =~= old(e)@.clients.update(ci as int, client@));
        assert(e@.transactions =~= old(e)@.transactions.update(ti as int, target));
        assert(old(e)@.clients.update(ci as int, old(e)@.clients[ci as int]) =~= old(e)@.clients);
        assert(old(e)@.transactions.update(ti as int, old(e)@.transactions[ti as int]) =~= old(
            e,
        )@.transactions);
        lemma_update_preserves_clients_wf(old(e)@.clients, ci as int, client@);
        lemma_update_preserves_txs_wf(old(e)@.transactions, ti as int, target);
    }
    match res {
        Ok(_) => Ok(()),
        Err(err) => Err(err),
    }
}

} // verus!
