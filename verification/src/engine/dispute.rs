//! Opening a dispute: look up the referenced record and the account of the
//! client that owns it, then apply the dispute step that the record's own
//! kind demands.

use vstd::prelude::*;

use crate::client::{can_hold, hold_fail, hold_next};
use crate::engine::{
    client_at, client_has, deposit, engine_wf, lemma_client_at, lemma_tx_at,
    lemma_update_preserves_clients_wf, lemma_update_preserves_txs_wf, lemma_view, tx_at, tx_has,
    withdrawal, Engine, EngineV,
};
use crate::errors::EngineError;
use crate::transaction::{Transaction, TransactionDisputeStatus, TransactionType};

verus! {

/// Arithmetic room a dispute needs: only a disputed deposit moves funds.
pub open spec fn fits(e: EngineV, t: Transaction) -> bool {
    tx_has(e.transactions, t.tx) ==> {
        let target = e.transactions[tx_at(e.transactions, t.tx)];
        client_has(e.clients, target.client) ==> {
            let c = e.clients[client_at(e.clients, target.client)];
            target.kind == TransactionType::DEPOSIT && target.dispute_status
                == TransactionDisputeStatus::NONE && can_hold(c, target.amount@) ==> {
                &&& i64::MIN <= c.available - target.amount@
                &&& c.held + target.amount@ <= i64::MAX
            }
        }
    }
}

/// What executing a dispute does: the referenced record must exist, belong
/// to a known client, and stand in `NONE`. A disputed deposit holds its
/// amount; a disputed withdrawal moves no funds; both mark the record
/// `DISPUTED`.
pub open spec fn post(pre: EngineV, cur: EngineV, t: Transaction, r: Result<
    (),
    EngineError,
>) -> bool {
    if !tx_has(pre.transactions, t.tx) {
        &&& cur == pre
        &&& r == Err::<(), EngineError>(EngineError::TransactionNotFound(t.tx))
    } else {
        let ti = tx_at(pre.transactions, t.tx);
        let target = pre.transactions[ti];
        if !client_has(pre.clients, target.client) {
            &&& cur == pre
            &&& r == Err::<(), EngineError>(EngineError::ClientNotFound(target.client))
        } else {
            let ci = client_at(pre.clients, target.client);
            let c = pre.clients[ci];
            match target.kind {
                TransactionType::DEPOSIT => if target.dispute_status
                    != TransactionDisputeStatus::NONE {
                    &&& cur == pre
                    &&& r == Err::<(), EngineError>(
                        EngineError::TransactionInvalidStatus(target.tx),
                    )
                } else if can_hold(c, target.amount@) {
                    &&& cur.clients == pre.clients.update(ci, hold_next(c, target.amount@))
                    &&& cur.transactions == pre.transactions.update(
                        ti,
                        Transaction { dispute_status: TransactionDisputeStatus::DISPUTED, ..target },
                    )
                    &&& r == Ok::<(), EngineError>(())
                } else {
                    &&& cur == pre
                    &&& r == Err::<(), EngineError>(hold_fail(c, target.amount))
                },
                TransactionType::WITHDRAWAL => if target.dispute_status
                    != TransactionDisputeStatus::NONE {
                    &&& cur == pre
                    &&& r == Err::<(), EngineError>(
                        EngineError::TransactionInvalidStatus(target.tx),
                    )
                } else {
                    &&& cur.clients == pre.clients
                    &&& cur.transactions == pre.transactions.update(
                        ti,
                        Transaction { dispute_status: TransactionDisputeStatus::DISPUTED, ..target },
                    )
                    &&& r == Ok::<(), EngineError>(())
                },
                _ => {
                    &&& cur == pre
                    &&& r == Err::<(), EngineError>(EngineError::InvalidTransactionType)
                },
            }
        }
    }
}

pub fn execute(e: &mut Engine, transaction: &Transaction) -> (r: Result<(), EngineError>)
    requires
        engine_wf(old(e)@),
        fits(old(e)@, *transaction),
    ensures
        engine_wf(final(e)@),
        post(old(e)@, final(e)@, *transaction, r),
{
    proof {
        lemma_view(e);
    }
    let ti = match e.find_tx_idx(transaction.tx) {
        Some(i) => i,
        None => {
            return Err(EngineError::TransactionNotFound(transaction.tx));
        },
    };
    proof {
        lemma_tx_at(e@.transactions, transaction.tx, ti as int);
    }
    let mut target = e.transactions[ti];
    let ci = match e.find_client_idx(target.client) {
        Some(i) => i,
        None => {
            return Err(EngineError::ClientNotFound(target.client));
        },
    };
    proof {
        lemma_client_at(e@.clients, target.client, ci as int);
    }
    let mut client = e.clients[ci];
    let res = match target.kind {
        TransactionType::DEPOSIT => deposit::dispute(&mut client, &mut target),
        TransactionType::WITHDRAWAL => withdrawal::dispute(&mut client, &mut target),
        _ => Err(EngineError::InvalidTransactionType),
    };
    match res {
        Ok(_) => {
            e.clients[ci] = client;
            e.transactions[ti] = target;
            proof {
                lemma_view(e);
                assert(e@.clients =~= old(e)@.clients.update(ci as int, client@));
                assert(e@.transactions =~= old(e)@.transactions.update(ti as int, target));
                assert(old(e)@.clients.update(ci as int, old(e)@.clients[ci as int]) =~= old(
                    e,
                )@.clients);
                lemma_update_preserves_clients_wf(old(e)@.clients, ci as int, client@);
                lemma_update_preserves_txs_wf(old(e)@.transactions, ti as int, target);
            }
            Ok(())
        },
        Err(err) => Err(err),
    }
}

} // verus!
