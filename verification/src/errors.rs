//! The typed failures an operation can report. Each carries what the caller
//! needs to describe the failure; `to_string` renders the same messages the
//! engine has always reported.

use vstd::prelude::*;
use vstd::string::StringExecFns;

use crate::client::ClientId;
use crate::decimal::{dec_digits, decimal_chars, pow10, push_dec_digits, Decimal};
use crate::transaction::TransactionId;

verus! {

#[derive(Debug, Clone, Copy)]
pub enum EngineError {
    ClientNotFound(ClientId),
    TransactionNotFound(TransactionId),
    TransactionInvalidStatus(TransactionId),
    InsufficientFunds(ClientId, Decimal<4>, Decimal<4>),
    AccountLocked(ClientId),
    NegativeAmount(Decimal<4>),
    InvalidTransactionType,
    IOError(&'static str),
    DeserializationError(&'static str),
}

/// The message text of each failure.
pub open spec fn error_chars(e: EngineError) -> Seq<char> {
    match e {
        EngineError::ClientNotFound(c) => "Client with id "@ + dec_digits(c as nat)
            + " not found."@,
        EngineError::TransactionNotFound(tx) => "Transaction with id "@ + dec_digits(tx as nat)
            + " not found."@,
        EngineError::TransactionInvalidStatus(id) => "Invalid transaction "@ + dec_digits(id as nat)
            + " status."@,
        EngineError::InsufficientFunds(c, balance, amount) => "Client "@ + dec_digits(c as nat)
            + " balance (= "@ + decimal_chars(balance@, 4) + ") < requested amount (= "@
            + decimal_chars(amount@, 4) + ")"@,
        EngineError::AccountLocked(c) => "Client with id "@ + dec_digits(c as nat)
            + " has the account locked."@,
        EngineError::NegativeAmount(a) => "Amount "@ + decimal_chars(a@, 4)
            + " must be greater or equal to zero."@,
        EngineError::InvalidTransactionType => "Invalid transaction type"@,
        EngineError::IOError(m) => "IO Error: "@ + m@,
        EngineError::DeserializationError(m) => "Deserialization error: "@ + m@ + "."@,
    }
}

impl EngineError {
    /// The failure as readable text.
    pub fn to_string(&self) -> (r: String)
        ensures
            r@ == error_chars(*self),
    {
        proof {
            reveal_with_fuel(pow10, 5);
        }
        let mut s = String::new();
        match *self {
            EngineError::ClientNotFound(c) => {
                s.append("Client with id ");
                push_dec_digits(&mut s, c as u64);
                s.append(" not found.");
            },
            EngineError::TransactionNotFound(tx) => {
                s.append("Transaction with id ");
                push_dec_digits(&mut s, tx as u64);
                s.append(" not found.");
            },
            EngineError::TransactionInvalidStatus(id) => {
                s.append("Invalid transaction ");
                push_dec_digits(&mut s, id as u64);
                s.append(" status.");
            },
            EngineError::InsufficientFunds(c, balance, amount) => {
                s.append("Client ");
                push_dec_digits(&mut s, c as u64);
                s.append(" balance (= ");
                let b = balance.to_string();
                s.append(b.as_str());
                s.append(") < requested amount (= ");
                let a = amount.to_string();
                s.append(a.as_str());
                s.append(")");
            },
            EngineError::AccountLocked(c) => {
                s.append("Client with id ");
                push_dec_digits(&mut s, c as u64);
                s.append(" has the account locked.");
            },
            EngineError::NegativeAmount(a) => {
                s.append("Amount ");
                let t = a.to_string();
                s.append(t.as_str());
                s.append(" must be greater or equal to zero.");
            },
            EngineError::InvalidTransactionType => {
                s.append("Invalid transaction type");
            },
            EngineError::IOError(m) => {
                s.append("IO Error: ");
                s.append(m);
            },
            EngineError::DeserializationError(m) => {
                s.append("Deserialization error: ");
                s.append(m);
                s.append(".");
            },
        }
        proof {
            assert(s@ =~= error_chars(*self));
        }
        s
    }
}

} // verus!
