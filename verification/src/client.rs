//! Per-client account state: spendable funds, funds held pending a dispute,
//! and a permanent lock. Every balance-mutating operation validates first and
//! either applies completely or leaves the account untouched; the spec-level
//! transition functions below say exactly which, and the laws at the end of
//! the module state the round-trip facts that hold of them.

use vstd::prelude::*;

use crate::decimal::Decimal;
use crate::errors::EngineError;

verus! {

pub type ClientId = u16;

/// Mathematical state of an account: balances as scaled counts.
pub ghost struct ClientV {
    pub id: ClientId,
    pub available: int,
    pub held: int,
    pub locked: bool,
}

/// Every account the engine ever holds satisfies this: balances fit in an
/// `i64`, and held funds are never negative. (Available funds can go
/// negative: holding a disputed deposit takes its amount back out of
/// `available` without a sufficiency check, by design.)
pub open spec fn client_wf(c: ClientV) -> bool {
    &&& i64::MIN <= c.available <= i64::MAX
    &&& 0 <= c.held <= i64::MAX
}

pub open spec fn can_deposit(c: ClientV, a: int) -> bool {
    !c.locked && a >= 0
}

pub open spec fn deposit_next(c: ClientV, a: int) -> ClientV {
    ClientV { available: c.available + a, ..c }
}

pub open spec fn deposit_fail(c: ClientV, amount: Decimal<4>) -> EngineError {
    if c.locked {
        EngineError::AccountLocked(c.id)
    } else {
        EngineError::NegativeAmount(amount)
    }
}

pub open spec fn can_withdraw(c: ClientV, a: int) -> bool {
    !c.locked && a >= 0 && c.available - a >= 0
}

pub open spec fn withdraw_next(c: ClientV, a: int) -> ClientV {
    ClientV { available: c.available - a, ..c }
}

pub open spec fn withdraw_fail(c: ClientV, amount: Decimal<4>) -> EngineError {
    if c.locked {
        EngineError::AccountLocked(c.id)
    } else if amount@ < 0 {
        EngineError::NegativeAmount(amount)
    } else {
        EngineError::InsufficientFunds(c.id, Decimal::spec_new(c.available), amount)
    }
}

pub open spec fn can_hold(c: ClientV, a: int) -> bool {
    !c.locked && a >= 0
}

pub open spec fn hold_next(c: ClientV, a: int) -> ClientV {
    ClientV { available: c.available - a, held: c.held + a, ..c }
}

pub open spec fn hold_fail(c: ClientV, amount: Decimal<4>) -> EngineError {
    if c.locked {
        EngineError::AccountLocked(c.id)
    } else {
        EngineError::NegativeAmount(amount)
    }
}

pub open spec fn can_release(c: ClientV, a: int) -> bool {
    !c.locked && a >= 0 && c.held - a >= 0
}

pub open spec fn release_next(c: ClientV, a: int) -> ClientV {
    ClientV { available: c.available + a, held: c.held - a, ..c }
}

pub open spec fn release_fail(c: ClientV, amount: Decimal<4>) -> EngineError {
    if c.locked {
        EngineError::AccountLocked(c.id)
    } else if amount@ < 0 {
        EngineError::NegativeAmount(amount)
    } else {
        EngineError::InsufficientFunds(c.id, Decimal::spec_new(c.held), amount)
    }
}

pub open spec fn can_chargeback(c: ClientV, a: int) -> bool {
    !c.locked && a >= 0 && c.held - a >= 0
}

/// A chargeback voids the held funds and locks the account in one step;
/// nothing returns to `available`.
pub open spec fn chargeback_next(c: ClientV, a: int) -> ClientV {
    ClientV { held: c.held - a, locked: true, ..c }
}

pub open spec fn chargeback_fail(c: ClientV, amount: Decimal<4>) -> EngineError {
    release_fail(c, amount)
}

pub open spec fn can_lock(c: ClientV) -> bool {
    !c.locked
}

pub open spec fn lock_next(c: ClientV) -> ClientV {
    ClientV { locked: true, ..c }
}

#[derive(Debug, Clone, Copy)]
pub struct Client {
    id: ClientId,
    available: Decimal<4>,
    held: Decimal<4>,
    locked: bool,
}

impl View for Client {
    type V = ClientV;

    closed spec fn view(&self) -> ClientV {
        ClientV {
            id: self.id,
            available: self.available@,
            held: self.held@,
            locked: self.locked,
        }
    }
}

#[derive(Debug, Clone, Copy)]
pub struct Funds {
    pub available: Decimal<4>,
    pub held: Decimal<4>,
}

impl Client {
    pub fn new(id: ClientId) -> (r: Self)
        ensures
            r@ == (ClientV { id, available: 0, held: 0, locked: false }),
            client_wf(r@),
    {
        Self { id, available: Decimal::zero(), held: Decimal::zero(), locked: false }
    }

    pub fn get_funds(&self) -> (r: Funds)
        ensures
            r.available@ == self@.available,
            r.held@ == self@.held,
    {
        Funds { available: self.available, held: self.held }
    }

    pub fn id(&self) -> (r: ClientId)
        ensures
            r == self@.id,
    {
        self.id
    }

    pub fn is_locked(&self) -> (r: bool)
        ensures
            r == self@.locked,
    {
        self.locked
    }

    pub fn lock(&mut self) -> (r: Result<(), EngineError>)
        ensures
            can_lock(old(self)@) ==> {
                &&& final(self)@ == lock_next(old(self)@)
                &&& r == Ok::<(), EngineError>(())
            },
            !can_lock(old(self)@) ==> {
                &&& final(self)@ == old(self)@
                &&& r == Err::<(), EngineError>(EngineError::AccountLocked(old(self)@.id))
            },
    {
        if let Err(e) = self.not_locked() {
            return Err(e);
        }
        self.locked = true;
        Ok(())
    }

    pub fn deposit_funds(&mut self, amount: Decimal<4>) -> (r: Result<Decimal<4>, EngineError>)
        requires
            client_wf(old(self)@),
            can_deposit(old(self)@, amount@) ==> old(self)@.available + amount@ <= i64::MAX,
        ensures
            client_wf(final(self)@),
            can_deposit(old(self)@, amount@) ==> {
                &&& final(self)@ == deposit_next(old(self)@, amount@)
                &&& r == Ok::<Decimal<4>, EngineError>(
                    Decimal::spec_new(old(self)@.available + amount@),
                )
            },
            !can_deposit(old(self)@, amount@) ==> {
                &&& final(self)@ == old(self)@
                &&& r == Err::<Decimal<4>, EngineError>(deposit_fail(old(self)@, amount))
            },
    {
        if let Err(e) = self.not_locked() {
            return Err(e);
        }
        if let Err(e) = Self::amount_not_negative(amount) {
            return Err(e);
        }
        self.available = self.available.add(amount);
        proof {
            Decimal::<4>::lemma_spec_new(self.available@);
            Decimal::<4>::lemma_eq_by_view(self.available, Decimal::spec_new(self.available@));
        }
        Ok(self.available)
    }

    pub fn withdraw_funds(&mut self, amount: Decimal<4>) -> (r: Result<Decimal<4>, EngineError>)
        requires
            client_wf(old(self)@),
            !old(self)@.locked && amount@ >= 0 ==> i64::MIN <= old(self)@.available - amount@,
        ensures
            client_wf(final(self)@),
            can_withdraw(old(self)@, amount@) ==> {
                &&& final(self)@ == withdraw_next(old(self)@, amount@)
                &&& r == Ok::<Decimal<4>, EngineError>(
                    Decimal::spec_new(old(self)@.available - amount@),
                )
            },
            !can_withdraw(old(self)@, amount@) ==> {
                &&& final(self)@ == old(self)@
                &&& r == Err::<Decimal<4>, EngineError>(withdraw_fail(old(self)@, amount))
            },
    {
        if let Err(e) = self.not_locked() {
            return Err(e);
        }
        if let Err(e) = Self::amount_not_negative(amount) {
            return Err(e);
        }
        proof {
            Decimal::<4>::lemma_spec_new(self.available@);
            Decimal::<4>::lemma_eq_by_view(self.available, Decimal::spec_new(self.available@));
        }
        if let Err(e) = Self::sufficient_funds(self.id, self.available, amount) {
            return Err(e);
        }
        self.available = self.available.sub(amount);
        proof {
            Decimal::<4>::lemma_spec_new(self.available@);
            Decimal::<4>::lemma_eq_by_view(self.available, Decimal::spec_new(self.available@));
        }
        Ok(self.available)
    }

    /// Freezes `amount` out of `available` into `held`. There is no
    /// sufficiency check against `available`, by design: the funds of a
    /// disputed deposit were already credited, so `available` may go
    /// negative here.
    pub fn hold_funds(&mut self, amount: Decimal<4>) -> (r: Result<Decimal<4>, EngineError>)
        requires
            client_wf(old(self)@),
            can_hold(old(self)@, amount@) ==> {
                &&& i64::MIN <= old(self)@.available - amount@
                &&& old(self)@.held + amount@ <= i64::MAX
            },
        ensures
            client_wf(final(self)@),
            can_hold(old(self)@, amount@) ==> {
                &&& final(self)@ == hold_next(old(self)@, amount@)
                &&& r == Ok::<Decimal<4>, EngineError>(
                    Decimal::spec_new(old(self)@.available - amount@),
                )
            },
            !can_hold(old(self)@, amount@) ==> {
                &&& final(self)@ == old(self)@
                &&& r == Err::<Decimal<4>, EngineError>(hold_fail(old(self)@, amount))
            },
    {
        if let Err(e) = self.not_locked() {
            return Err(e);
        }
        if let Err(e) = Self::amount_not_negative(amount) {
            return Err(e);
        }
        self.available = self.available.sub(amount);
        self.held = self.held.add(amount);
        proof {
            Decimal::<4>::lemma_spec_new(self.available@);
            Decimal::<4>::lemma_eq_by_view(self.available, Decimal::spec_new(self.available@));
        }
        Ok(self.available)
    }

    pub fn release_funds(&mut self, amount: Decimal<4>) -> (r: Result<Decimal<4>, EngineError>)
        requires
            client_wf(old(self)@),
            can_release(old(self)@, amount@) ==> old(self)@.available + amount@ <= i64::MAX,
        ensures
            client_wf(final(self)@),
            can_release(old(self)@, amount@) ==> {
                &&& final(self)@ == release_next(old(self)@, amount@)
                &&& r == Ok::<Decimal<4>, EngineError>(
                    Decimal::spec_new(old(self)@.available + amount@),
                )
            },
            !can_release(old(self)@, amount@) ==> {
                &&& final(self)@ == old(self)@
                &&& r == Err::<Decimal<4>, EngineError>(release_fail(old(self)@, amount))
            },
    {
        if let Err(e) = self.not_locked() {
            return Err(e);
        }
        if let Err(e) = Self::amount_not_negative(amount) {
            return Err(e);
        }
        proof {
            amount.lemma_view_in_range();
            Decimal::<4>::lemma_spec_new(self.held@);
            Decimal::<4>::lemma_eq_by_view(self.held, Decimal::spec_new(self.held@));
        }
        if let Err(e) = Self::sufficient_funds(self.id, self.held, amount) {
            return Err(e);
        }
        self.available = self.available.add(amount);
        self.held = self.held.sub(amount);
        proof {
            Decimal::<4>::lemma_spec_new(self.available@);
            Decimal::<4>::lemma_eq_by_view(self.available, Decimal::spec_new(self.available@));
        }
        Ok(self.available)
    }

    /// Voids `amount` out of `held` and locks the account in the same
    /// operation; the voided funds do not return to `available`.
    pub fn chargeback_funds(&mut self, amount: Decimal<4>) -> (r: Result<Decimal<4>, EngineError>)
        requires
            client_wf(old(self)@),
        ensures
            client_wf(final(self)@),
            can_chargeback(old(self)@, amount@) ==> {
                &&& final(self)@ == chargeback_next(old(self)@, amount@)
                &&& r == Ok::<Decimal<4>, EngineError>(Decimal::spec_new(old(self)@.available))
            },
            !can_chargeback(old(self)@, amount@) ==> {
                &&& final(self)@ == old(self)@
                &&& r == Err::<Decimal<4>, EngineError>(chargeback_fail(old(self)@, amount))
            },
    {
        if let Err(e) = self.not_locked() {
            return Err(e);
        }
        if let Err(e) = Self::amount_not_negative(amount) {
            return Err(e);
        }
        proof {
            amount.lemma_view_in_range();
            Decimal::<4>::lemma_spec_new(self.held@);
            Decimal::<4>::lemma_eq_by_view(self.held, Decimal::spec_new(self.held@));
        }
        if let Err(e) = Self::sufficient_funds(self.id, self.held, amount) {
            return Err(e);
        }
        self.locked = true;
        self.held = self.held.sub(amount);
        proof {
            Decimal::<4>::lemma_spec_new(self.available@);
            Decimal::<4>::lemma_eq_by_view(self.available, Decimal::spec_new(self.available@));
        }
        Ok(self.available)
    }

    fn amount_not_negative(amount: Decimal<4>) -> (r: Result<(), EngineError>)
        ensures
            amount@ >= 0 ==> r == Ok::<(), EngineError>(()),
            amount@ < 0 ==> r == Err::<(), EngineError>(EngineError::NegativeAmount(amount)),
    {
        if amount.is_negative() {
            Err(EngineError::NegativeAmount(amount))
        } else {
            Ok(())
        }
    }

    fn sufficient_funds(id: ClientId, funds: Decimal<4>, amount: Decimal<4>) -> (r: Result<
        (),
        EngineError,
    >)
        requires
            i64::MIN <= funds@ - amount@ <= i64::MAX,
        ensures
            funds@ - amount@ >= 0 ==> r == Ok::<(), EngineError>(()),
            funds@ - amount@ < 0 ==> r == Err::<(), EngineError>(
                EngineError::InsufficientFunds(id, funds, amount),
            ),
    {
        if funds.sub(amount).is_negative() {
            Err(EngineError::InsufficientFunds(id, funds, amount))
        } else {
            Ok(())
        }
    }

    fn not_locked(&self) -> (r: Result<(), EngineError>)
        ensures
            !self@.locked ==> r == Ok::<(), EngineError>(()),
            self@.locked ==> r == Err::<(), EngineError>(EngineError::AccountLocked(self@.id)),
    {
        if self.locked {
            Err(EngineError::AccountLocked(self.id))
        } else {
            Ok(())
        }
    }
}

/// Law: depositing a non-negative amount and then withdrawing the same
/// amount succeeds and leaves `available` where it started.
pub proof fn lemma_deposit_withdraw_available_unchanged(c: ClientV, a: int)
    requires
        client_wf(c),
        !c.locked,
        a >= 0,
        c.available >= 0,
    ensures
        can_deposit(c, a),
        can_withdraw(deposit_next(c, a), a),
        withdraw_next(deposit_next(c, a), a).available == c.available,
{
}

/// Law: starting with nothing held, depositing, holding and then releasing
/// the same non-negative amount succeeds, clears `held`, and restores
/// `available` to its value before the hold.
pub proof fn lemma_deposit_hold_release(c: ClientV, a: int)
    requires
        client_wf(c),
        !c.locked,
        a >= 0,
        c.held == 0,
    ensures
        can_deposit(c, a),
        can_hold(deposit_next(c, a), a),
        can_release(hold_next(deposit_next(c, a), a), a),
        release_next(hold_next(deposit_next(c, a), a), a).held == 0,
        release_next(hold_next(deposit_next(c, a), a), a).available == deposit_next(
            c,
            a,
        ).available,
{
}

/// Law: starting with nothing held, depositing, holding and then charging
/// back the same non-negative amount succeeds, clears `held`, locks the
/// account, and leaves `available` at its value before the deposit: the
/// held funds are voided, not returned.
pub proof fn lemma_deposit_hold_chargeback(c: ClientV, a: int)
    requires
        client_wf(c),
        !c.locked,
        a >= 0,
        c.held == 0,
    ensures
        can_deposit(c, a),
        can_hold(deposit_next(c, a), a),
        can_chargeback(hold_next(deposit_next(c, a), a), a),
        chargeback_next(hold_next(deposit_next(c, a), a), a).held == 0,
        chargeback_next(hold_next(deposit_next(c, a), a), a).available == c.available,
        chargeback_next(hold_next(deposit_next(c, a), a), a).locked,
{
}

/// Law: a locked account accepts no operation at all; every one of them
/// fails with `AccountLocked`, so the account's state never changes again.
pub proof fn lemma_locked_rejects_all(c: ClientV, amount: Decimal<4>)
    requires
        c.locked,
    ensures
        !can_deposit(c, amount@) && deposit_fail(c, amount) == EngineError::AccountLocked(c.id),
        !can_withdraw(c, amount@) && withdraw_fail(c, amount) == EngineError::AccountLocked(c.id),
        !can_hold(c, amount@) && hold_fail(c, amount) == EngineError::AccountLocked(c.id),
        !can_release(c, amount@) && release_fail(c, amount) == EngineError::AccountLocked(c.id),
        !can_chargeback(c, amount@) && chargeback_fail(c, amount) == EngineError::AccountLocked(
            c.id,
        ),
        !can_lock(c),
{
}

} // verus!
