//! The ledger engine: owns every account and every stored deposit or
//! withdrawal record, and dispatches each incoming transaction to the
//! operation its kind and the referenced record's state demand. Accounts and
//! records live in vectors keyed by their ids; ids are unique and insertion
//! order is kept, so iteration is deterministic.

use vstd::prelude::*;

use crate::client::{client_wf, Client, ClientId, ClientV};
use crate::errors::EngineError;
use crate::transaction::{Transaction, TransactionDisputeStatus, TransactionId, TransactionType};

pub mod chargeback;
pub mod deposit;
pub mod dispute;
pub mod resolve;
pub mod withdrawal;

verus! {

/// Mathematical state of the engine: account states in insertion order, and
/// the stored transaction records in insertion order.
pub ghost struct EngineV {
    pub clients: Seq<ClientV>,
    pub transactions: Seq<Transaction>,
}

pub open spec fn client_has(s: Seq<ClientV>, id: ClientId) -> bool {
    exists|i: int| 0 <= i < s.len() && s[i].id == id
}

/// The index of the account with the given id; meaningful when `client_has`.
pub open spec fn client_at(s: Seq<ClientV>, id: ClientId) -> int {
    choose|i: int| 0 <= i < s.len() && s[i].id == id
}

pub open spec fn tx_has(s: Seq<Transaction>, tx: TransactionId) -> bool {
    exists|i: int| 0 <= i < s.len() && s[i].tx == tx
}

/// The index of the record with the given id; meaningful when `tx_has`.
pub open spec fn tx_at(s: Seq<Transaction>, tx: TransactionId) -> int {
    choose|i: int| 0 <= i < s.len() && s[i].tx == tx
}

pub open spec fn clients_wf(s: Seq<ClientV>) -> bool {
    &&& forall|i: int, j: int|
        #![trigger s[i].id, s[j].id]
        0 <= i < s.len() && 0 <= j < s.len() && i != j ==> s[i].id != s[j].id
    &&& forall|i: int| 0 <= i < s.len() ==> client_wf(#[trigger] s[i])
}

pub open spec fn txs_wf(s: Seq<Transaction>) -> bool {
    forall|i: int, j: int|
        #![trigger s[i].tx, s[j].tx]
        0 <= i < s.len() && 0 <= j < s.len() && i != j ==> s[i].tx != s[j].tx
}

pub open spec fn engine_wf(e: EngineV) -> bool {
    clients_wf(e.clients) && txs_wf(e.transactions)
}

/// Storing a record: an existing record under the same id is replaced, a new
/// id is appended.
pub open spec fn record_tx(s: Seq<Transaction>, t: Transaction) -> Seq<Transaction> {
    if tx_has(s, t.tx) {
        s.update(tx_at(s, t.tx), t)
    } else {
        s.push(t)
    }
}

/// With distinct ids, any index holding `id` is the looked-up index.
pub proof fn lemma_client_at(s: Seq<ClientV>, id: ClientId, i: int)
    requires
        clients_wf(s),
        0 <= i < s.len(),
        s[i].id == id,
    ensures
        client_has(s, id),
        client_at(s, id) == i,
{
    assert(client_has(s, id));
}

/// With distinct ids, any index holding `tx` is the looked-up index.
pub proof fn lemma_tx_at(s: Seq<Transaction>, tx: TransactionId, i: int)
    requires
        txs_wf(s),
        0 <= i < s.len(),
        s[i].tx == tx,
    ensures
        tx_has(s, tx),
        tx_at(s, tx) == i,
{
    assert(tx_has(s, tx));
}

/// Replacing an account state in place, id kept, preserves well-formedness.
pub proof fn lemma_update_preserves_clients_wf(s: Seq<ClientV>, i: int, c: ClientV)
    requires
        clients_wf(s),
        0 <= i < s.len(),
        c.id == s[i].id,
        client_wf(c),
    ensures
        clients_wf(s.update(i, c)),
{
    assert forall|a: int, b: int|
        0 <= a < s.update(i, c).len() && 0 <= b < s.update(i, c).len() && a != b implies s.update(
        i,
        c,
    )[a].id != s.update(i, c)[b].id by {
        assert(s[a].id != s[b].id);
    }
    assert forall|a: int| 0 <= a < s.update(i, c).len() implies client_wf(s.update(i, c)[a]) by {
        assert(client_wf(s[a]));
    }
}

/// Appending an account under a fresh id preserves well-formedness.
pub proof fn lemma_push_preserves_clients_wf(s: Seq<ClientV>, c: ClientV)
    requires
        clients_wf(s),
        !client_has(s, c.id),
        client_wf(c),
    ensures
        clients_wf(s.push(c)),
{
    assert forall|a: int, b: int|
        0 <= a < s.push(c).len() && 0 <= b < s.push(c).len() && a != b implies s.push(c)[a].id
        != s.push(c)[b].id by {
        if a < s.len() && b < s.len() {
            assert(s[a].id != s[b].id);
        } else if a < s.len() {
            assert(s[a].id != c.id) by {
                assert(!(exists|k: int| 0 <= k < s.len() && s[k].id == c.id));
            }
        } else {
            assert(s[b].id != c.id) by {
                assert(!(exists|k: int| 0 <= k < s.len() && s[k].id == c.id));
            }
        }
    }
    assert forall|a: int| 0 <= a < s.push(c).len() implies client_wf(s.push(c)[a]) by {
        if a < s.len() {
            assert(client_wf(s[a]));
        }
    }
}

/// Replacing a record in place, id kept, preserves well-formedness.
pub proof fn lemma_update_preserves_txs_wf(s: Seq<Transaction>, i: int, t: Transaction)
    requires
        txs_wf(s),
        0 <= i < s.len(),
        t.tx == s[i].tx,
    ensures
        txs_wf(s.update(i, t)),
{
    assert forall|a: int, b: int|
        0 <= a < s.update(i, t).len() && 0 <= b < s.update(i, t).len() && a != b implies s.update(
        i,
        t,
    )[a].tx != s.update(i, t)[b].tx by {
        assert(s[a].tx != s[b].tx);
    }
}

pub struct Engine {
    pub(crate) clients: Vec<Client>,
    pub(crate) transactions: Vec<Transaction>,
}

impl View for Engine {
    type V = EngineV;

    closed spec fn view(&self) -> EngineV {
        EngineV {
            clients: self.clients@.map_values(|c: Client| c@),
            transactions: self.transactions@,
        }
    }
}

/// How the abstract state reads off the vectors.
pub(crate) proof fn lemma_view(e: &Engine)
    ensures
        e@.clients.len() == e.clients@.len(),
        forall|i: int| 0 <= i < e.clients@.len() ==> e@.clients[i] == #[trigger] e.clients@[i]@,
        e@.transactions == e.transactions@,
{
}

impl Engine {
    pub fn new() -> (r: Self)
        ensures
            r@.clients == Seq::<ClientV>::empty(),
            r@.transactions == Seq::<Transaction>::empty(),
            engine_wf(r@),
    {
        let r = Self { clients: Vec::new(), transactions: Vec::new() };
        proof {
            assert(r@.clients =~= Seq::<ClientV>::empty());
            assert(r@.transactions =~= Seq::<Transaction>::empty());
        }
        r
    }

    pub(crate) fn find_client_idx(&self, id: ClientId) -> (r: Option<usize>)
        ensures
            match r {
                Some(i) => i < self@.clients.len() && self@.clients[i as int].id == id,
                None => !client_has(self@.clients, id),
            },
    {
        proof {
            lemma_view(self);
        }
        let mut i: usize = 0;
        while i < self.clients.len()
            invariant
                i <= self.clients@.len(),
                self@.clients.len() == self.clients@.len(),
                forall|j: int| 0 <= j < i ==> #[trigger] self@.clients[j].id != id,
                forall|j: int|
                    0 <= j < self.clients@.len() ==> self@.clients[j]
                        == #[trigger] self.clients@[j]@,
            decreases self.clients@.len() - i,
        {
            if self.clients[i].id() == id {
                return Some(i);
            }
            i = i + 1;
        }
        None
    }

    pub(crate) fn find_tx_idx(&self, tx: TransactionId) -> (r: Option<usize>)
        ensures
            match r {
                Some(i) => i < self@.transactions.len() && self@.transactions[i as int].tx == tx,
                None => !tx_has(self@.transactions, tx),
            },
    {
        proof {
            lemma_view(self);
        }
        let mut i: usize = 0;
        while i < self.transactions.len()
            invariant
                i <= self.transactions@.len(),
                self@.transactions == self.transactions@,
                forall|j: int| 0 <= j < i ==> #[trigger] self.transactions@[j].tx != tx,
            decreases self.transactions@.len() - i,
        {
            if self.transactions[i].tx == tx {
                return Some(i);
            }
            i = i + 1;
        }
        None
    }

    /// Stores the record, replacing any record already held under its id.
    pub(crate) fn record_transaction(&mut self, t: &Transaction)
        requires
            txs_wf(old(self)@.transactions),
        ensures
            final(self)@.clients == old(self)@.clients,
            final(self)@.transactions == record_tx(old(self)@.transactions, *t),
            txs_wf(final(self)@.transactions),
    {
        proof {
            lemma_view(self);
        }
        match self.find_tx_idx(t.tx) {
            Some(i) => {
                proof {
                    lemma_tx_at(self@.transactions, t.tx, i as int);
                }
                self.transactions[i] = *t;
            },
            None => {
                self.transactions.push(*t);
            },
        }
        proof {
            lemma_view(self);
            assert(self@.clients =~= old(self)@.clients);
            assert forall|a: int, b: int|
                0 <= a < self@.transactions.len() && 0 <= b < self@.transactions.len() && a
                    != b implies #[trigger] self@.transactions[a].tx
                != #[trigger] self@.transactions[b].tx by {}
        }
    }

    pub fn get_client(&self, id: ClientId) -> (r: Option<&Client>)
        requires
            engine_wf(self@),
        ensures
            match r {
                Some(c) => client_has(self@.clients, id) && c@ == self@.clients[client_at(
                    self@.clients,
                    id,
                )],
                None => !client_has(self@.clients, id),
            },
    {
        proof {
            lemma_view(self);
        }
        match self.find_client_idx(id) {
            Some(i) => {
                proof {
                    lemma_client_at(self@.clients, id, i as int);
                }
                Some(&self.clients[i])
            },
            None => None,
        }
    }

    /// The stored record under `tx` together with the account of the client
    /// that owns it, as values. `TransactionNotFound` when no record holds
    /// this id, `ClientNotFound` when the record's client has no account.
    pub fn get_mut_transaction_client_pair(&self, tx: TransactionId) -> (r: Result<
        (Transaction, Client),
        EngineError,
    >)
        requires
            engine_wf(self@),
        ensures
            tx_has(self@.transactions, tx) ==> {
                let target = self@.transactions[tx_at(self@.transactions, tx)];
                if client_has(self@.clients, target.client) {
                    r matches Ok(p) && p.0 == target && p.1@ == self@.clients[client_at(
                        self@.clients,
                        target.client,
                    )]
                } else {
                    r == Err::<(Transaction, Client), EngineError>(
                        EngineError::ClientNotFound(target.client),
                    )
                }
            },
            !tx_has(self@.transactions, tx) ==> r == Err::<(Transaction, Client), EngineError>(
                EngineError::TransactionNotFound(tx),
            ),
    {
        proof {
            lemma_view(self);
        }
        let ti = match self.find_tx_idx(tx) {
            Some(i) => i,
            None => {
                return Err(EngineError::TransactionNotFound(tx));
            },
        };
        proof {
            lemma_tx_at(self@.transactions, tx, ti as int);
        }
        let target = self.transactions[ti];
        let ci = match self.find_client_idx(target.client) {
            Some(i) => i,
            None => {
                return Err(EngineError::ClientNotFound(target.client));
            },
        };
        proof {
            lemma_client_at(self@.clients, target.client, ci as int);
        }
        Ok((target, self.clients[ci]))
    }

    /// Every account, in the order the accounts were created.
    pub fn iter_clients(&self) -> (r: Vec<Client>)
        ensures
            r@.len() == self@.clients.len(),
            forall|i: int| 0 <= i < r@.len() ==> #[trigger] r@[i]@ == self@.clients[i],
    {
        proof {
            lemma_view(self);
        }
        let mut r: Vec<Client> = Vec::new();
        let mut i: usize = 0;
        while i < self.clients.len()
            invariant
                i <= self.clients@.len(),
                r@.len() == i,
                self@.clients.len() == self.clients@.len(),
                forall|j: int| 0 <= j < i ==> #[trigger] r@[j]@ == self@.clients[j],
                forall|j: int|
                    0 <= j < self.clients@.len() ==> self@.clients[j]
                        == #[trigger] self.clients@[j]@,
            decreases self.clients@.len() - i,
        {
            r.push(self.clients[i]);
            i = i + 1;
        }
        r
    }
}

/// Arithmetic room the transaction needs in the account it touches; every
/// other input is within the engine's contract.
pub open spec fn execute_fits(e: EngineV, t: Transaction) -> bool {
    match t.kind {
        TransactionType::DEPOSIT => deposit::fits(e, t),
        TransactionType::WITHDRAWAL => withdrawal::fits(e, t),
        TransactionType::DISPUTE => dispute::fits(e, t),
        TransactionType::RESOLVE => resolve::fits(e, t),
        TransactionType::CHARGEBACK => chargeback::fits(e, t),
    }
}

/// What dispatching one transaction does, by its kind.
pub open spec fn execute_post(pre: EngineV, cur: EngineV, t: Transaction, r: Result<
    (),
    EngineError,
>) -> bool {
    match t.kind {
        TransactionType::DEPOSIT => deposit::post(pre, cur, t, r),
        TransactionType::WITHDRAWAL => withdrawal::post(pre, cur, t, r),
        TransactionType::DISPUTE => dispute::post(pre, cur, t, r),
        TransactionType::RESOLVE => resolve::post(pre, cur, t, r),
        TransactionType::CHARGEBACK => chargeback::post(pre, cur, t, r),
    }
}

impl Engine {
    /// Applies one transaction: balance change, record storage and status
    /// transition all happen, or none of them, and the reported failure says
    /// which check refused (the one exception, the charged-back deposit, is
    /// spelled out in its module).
    pub fn execute(&mut self, transaction: &Transaction) -> (r: Result<(), EngineError>)
        requires
            engine_wf(old(self)@),
            execute_fits(old(self)@, *transaction),
        ensures
            engine_wf(final(self)@),
            execute_post(old(self)@, final(self)@, *transaction, r),
    {
        match transaction.kind {
            TransactionType::DEPOSIT => deposit::execute(self, transaction),
            TransactionType::WITHDRAWAL => withdrawal::execute(self, transaction),
            TransactionType::DISPUTE => dispute::execute(self, transaction),
            TransactionType::RESOLVE => resolve::execute(self, transaction),
            TransactionType::CHARGEBACK => chargeback::execute(self, transaction),
        }
    }

    /// Whether the transaction has the arithmetic room `execute` asks for.
    /// True for every input whose magnitudes stay far below the 64-bit
    /// limit, as real-world amounts do.
    pub fn can_execute(&self, transaction: &Transaction) -> (r: bool)
        requires
            engine_wf(self@),
        ensures
            r == execute_fits(self@, *transaction),
    {
        proof {
            lemma_view(self);
        }
        match transaction.kind {
            TransactionType::DEPOSIT => {
                match self.find_client_idx(transaction.client) {
                    Some(i) => {
                        proof {
                            lemma_client_at(self@.clients, transaction.client, i as int);
                        }
                        let c = &self.clients[i];
                        c.is_locked() || transaction.amount.is_negative()
                            || c.get_funds().available.scaled().checked_add(
                            transaction.amount.scaled(),
                        ).is_some()
                    },
                    None => true,
                }
            },
            TransactionType::WITHDRAWAL => {
                match self.find_client_idx(transaction.client) {
                    Some(i) => {
                        proof {
                            lemma_client_at(self@.clients, transaction.client, i as int);
                        }
                        let c = &self.clients[i];
                        c.is_locked() || transaction.amount.is_negative()
                            || c.get_funds().available.scaled().checked_sub(
                            transaction.amount.scaled(),
                        ).is_some()
                    },
                    None => true,
                }
            },
            TransactionType::DISPUTE => {
                let ti = match self.find_tx_idx(transaction.tx) {
                    Some(i) => i,
                    None => {
                        return true;
                    },
                };
                proof {
                    lemma_tx_at(self@.transactions, transaction.tx, ti as int);
                }
                let target = self.transactions[ti];
                let ci = match self.find_client_idx(target.client) {
                    Some(i) => i,
                    None => {
                        return true;
                    },
                };
                proof {
                    lemma_client_at(self@.clients, target.client, ci as int);
                }
                let c = &self.clients[ci];
                match target.kind {
                    TransactionType::DEPOSIT => {
                        if target.dispute_status != TransactionDisputeStatus::NONE {
                            true
                        } else if c.is_locked() || target.amount.is_negative() {
                            true
                        } else {
                            let f = c.get_funds();
                            f.available.scaled().checked_sub(target.amount.scaled()).is_some()
                                && f.held.scaled().checked_add(target.amount.scaled()).is_some()
                        }
                    },
                    _ => true,
                }
            },
            TransactionType::RESOLVE => {
                let ti = match self.find_tx_idx(transaction.tx) {
                    Some(i) => i,
                    None => {
                        return true;
                    },
                };
                proof {
                    lemma_tx_at(self@.transactions, transaction.tx, ti as int);
                }
                let target = self.transactions[ti];
                let ci = match self.find_client_idx(target.client) {
                    Some(i) => i,
                    None => {
                        return true;
                    },
                };
                proof {
                    lemma_client_at(self@.clients, target.client, ci as int);
                }
                let c = &self.clients[ci];
                match target.kind {
                    TransactionType::DEPOSIT => {
                        if target.dispute_status != TransactionDisputeStatus::DISPUTED {
                            true
                        } else if c.is_locked() || target.amount.is_negative() {
                            true
                        } else {
                            let f = c.get_funds();
                            if f.held.scaled() < target.amount.scaled() {
                                true
                            } else {
                                f.available.scaled().checked_add(target.amount.scaled()).is_some()
                            }
                        }
                    },
                    _ => true,
                }
            },
            TransactionType::CHARGEBACK => {
                let ti = match self.find_tx_idx(transaction.tx) {
                    Some(i) => i,
                    None => {
                        return true;
                    },
                };
                proof {
                    lemma_tx_at(self@.transactions, transaction.tx, ti as int);
                }
                let target = self.transactions[ti];
                let ci = match self.find_client_idx(target.client) {
                    Some(i) => i,
                    None => {
                        return true;
                    },
                };
                proof {
                    lemma_client_at(self@.clients, target.client, ci as int);
                }
                let c = &self.clients[ci];
                match target.kind {
                    TransactionType::WITHDRAWAL => {
                        if target.dispute_status != TransactionDisputeStatus::DISPUTED {
                            true
                        } else if c.is_locked() || target.amount.is_negative() {
                            true
                        } else {
                            c.get_funds().available.scaled().checked_add(
                                target.amount.scaled(),
                            ).is_some()
                        }
                    },
                    _ => true,
                }
            },
        }
    }
}

} // verus!
