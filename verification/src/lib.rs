//! An in-memory ledger that replays client-account transactions — deposits,
//! withdrawals, disputes, resolves and chargebacks — and keeps every account
//! consistent while doing so: balances never go negative where a check is
//! owed, locked accounts accept nothing further, and a dispute only ever
//! moves a record along its lifecycle. Amounts are exact fixed-point
//! decimals; every operation's effect and every failure it can report are
//! stated in its contract.

pub mod client;
pub mod decimal;
pub mod engine;
pub mod errors;
pub mod transaction;
