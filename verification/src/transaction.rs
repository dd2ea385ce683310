//! Transaction records: a deposit or withdrawal kept by the engine under its
//! transaction id, carrying a dispute-lifecycle status. Only the status ever
//! changes after the record is stored.

use vstd::prelude::*;

use crate::client::ClientId;
use crate::decimal::Decimal;
use crate::errors::EngineError;

verus! {

pub type TransactionId = u32;

#[allow(non_camel_case_types)]
#[derive(Debug, Clone, Copy, PartialEq, Eq, Structural)]
pub enum TransactionType {
    DEPOSIT,
    WITHDRAWAL,
    DISPUTE,
    RESOLVE,
    CHARGEBACK,
}

/// Dispute lifecycle of a stored record: `NONE` before and between disputes,
/// `DISPUTED` while one is open, and the terminal `REVERSED` after a
/// chargeback.
#[allow(non_camel_case_types)]
#[derive(Debug, Clone, Copy, PartialEq, Eq, Structural)]
pub enum TransactionDisputeStatus {
    NONE,
    DISPUTED,
    REVERSED,
}

impl TransactionDisputeStatus {
    pub fn default() -> (r: TransactionDisputeStatus)
        ensures
            r == TransactionDisputeStatus::NONE,
    {
        TransactionDisputeStatus::NONE
    }
}

#[derive(Debug, Clone, Copy)]
pub struct Transaction {
    pub kind: TransactionType,
    pub client: ClientId,
    pub tx: TransactionId,
    pub amount: Decimal<4>,
    pub dispute_status: TransactionDisputeStatus,
}

impl Transaction {
    pub fn new(kind: TransactionType, client: ClientId, tx: TransactionId, amount: Decimal<4>) -> (
        r: Transaction)
        ensures
            r == (Transaction {
                kind,
                client,
                tx,
                amount,
                dispute_status: TransactionDisputeStatus::NONE,
            }),
    {
        Self { kind, client, tx, amount, dispute_status: TransactionDisputeStatus::default() }
    }

    /// Succeeds exactly when the record is in the given dispute status.
    pub fn assure_status(&self, status: TransactionDisputeStatus) -> (r: Result<(), EngineError>)
        ensures
            self.dispute_status == status ==> r == Ok::<(), EngineError>(()),
            self.dispute_status != status ==> r == Err::<(), EngineError>(
                EngineError::TransactionInvalidStatus(self.tx),
            ),
    {
        if self.dispute_status == status {
            Ok(())
        } else {
            Err(EngineError::TransactionInvalidStatus(self.tx))
        }
    }
}

} // verus!
