//! A multi-currency balance ledger with reservations: every (currency,
//! account) pair holds a free and a reserved balance.
use std::collections::HashMap;
use vstd::prelude::*;

use crate::{AccountId, Balance, CurrencyId};

verus! {

broadcast use vstd::std_specs::hash::group_hash_axioms;

/// The two balances that one account holds in one currency.
#[derive(Clone, Copy, Debug, PartialEq, Eq, Structural)]
pub struct AccountData {
    /// Spendable funds.
    pub free: Balance,
    /// Funds set aside, not spendable until released.
    pub reserved: Balance,
}

/// Why a ledger operation was refused.
#[derive(Clone, Copy, Debug, PartialEq, Eq, Structural)]
pub enum LedgerError {
    /// The free balance is smaller than the amount to reserve.
    InsufficientReservableBalance,
    /// The account's total would exceed what a balance can represent.
    Overflow,
}

/// An account with nothing in it.
pub open spec fn empty_account() -> AccountData {
    AccountData { free: 0, reserved: 0 }
}

/// The account after `amount` of its free funds were reserved.
pub open spec fn reserved_from_free(d: AccountData, amount: nat) -> AccountData {
    AccountData { free: (d.free - amount) as u128, reserved: (d.reserved + amount) as u128 }
}

/// The account after `amount` of its reserved funds were released.
pub open spec fn released_to_free(d: AccountData, amount: nat) -> AccountData {
    AccountData { free: (d.free + amount) as u128, reserved: (d.reserved - amount) as u128 }
}

/// The smaller of two quantities.
pub open spec fn min_nat(a: nat, b: nat) -> nat {
    if a <= b { a } else { b }
}

/// The balances after `amount` of `who`'s free funds were reserved.
pub open spec fn reserve_in(
    b: Map<(CurrencyId, AccountId), AccountData>,
    c: CurrencyId,
    who: AccountId,
    amount: nat,
) -> Map<(CurrencyId, AccountId), AccountData> {
    b.insert((c, who), reserved_from_free(b[(c, who)], amount))
}

/// The balances after up to `amount` of `who`'s reserve went back to free:
/// all of it, or the whole reserve where that is less.
pub open spec fn release(
    b: Map<(CurrencyId, AccountId), AccountData>,
    c: CurrencyId,
    who: AccountId,
    amount: nat,
) -> Map<(CurrencyId, AccountId), AccountData> {
    b.insert((c, who), released_to_free(b[(c, who)], min_nat(amount, b[(c, who)].reserved as nat)))
}

/// The balances after up to `amount` of `from`'s reserve went to `to`'s
/// free balance.
pub open spec fn repatriate(
    b: Map<(CurrencyId, AccountId), AccountData>,
    c: CurrencyId,
    from: AccountId,
    to: AccountId,
    amount: nat,
) -> Map<(CurrencyId, AccountId), AccountData> {
    if from == to {
        release(b, c, from, amount)
    } else {
        let s = b[(c, from)];
        let t = b[(c, to)];
        let actual = min_nat(amount, s.reserved as nat);
        b.insert((c, from), AccountData { free: s.free, reserved: (s.reserved - actual) as u128 }).insert(
            (c, to),
            AccountData { free: (t.free + actual) as u128, reserved: t.reserved },
        )
    }
}

/// The ledger: balances of every account in every currency, zero where
/// nothing was ever recorded.
pub struct Tokens {
    accounts: HashMap<CurrencyId, HashMap<AccountId, AccountData>>,
}

impl Tokens {
    /// The balances of (currency, account), for every pair.
    pub closed spec fn balances(&self) -> Map<(CurrencyId, AccountId), AccountData> {
        Map::total(|k: (CurrencyId, AccountId)| self.account_of(k.0, k.1))
    }

    closed spec fn account_of(&self, c: CurrencyId, a: AccountId) -> AccountData {
        if self.accounts@.contains_key(c) && self.accounts@[c]@.contains_key(a) {
            self.accounts@[c]@[a]
        } else {
            empty_account()
        }
    }

    /// Every account's total fits in a balance.
    pub open spec fn wf(&self) -> bool {
        forall|k: (CurrencyId, AccountId)|
            #[trigger] self.balances()[k].free + self.balances()[k].reserved <= u128::MAX
    }

    /// A ledger in which every balance is zero.
    pub fn new() -> (r: Tokens)
        ensures
            r.wf(),
            r.balances() == Map::total(|k: (CurrencyId, AccountId)| empty_account()),
    {
        let r = Tokens { accounts: HashMap::new() };
        assert(r.balances() =~= Map::total(|k: (CurrencyId, AccountId)| empty_account()));
        r
    }

    fn get_account(&self, c: CurrencyId, a: AccountId) -> (r: AccountData)
        ensures
            r == self.balances()[(c, a)],
    {
        match self.accounts.get(&c) {
            Some(m) => match m.get(&a) {
                Some(d) => *d,
                None => AccountData { free: 0, reserved: 0 },
            },
            None => AccountData { free: 0, reserved: 0 },
        }
    }

    fn set_account(&mut self, c: CurrencyId, a: AccountId, d: AccountData)
        ensures
            final(self).balances() == old(self).balances().insert((c, a), d),
    {
        let mut m = match self.accounts.remove(&c) {
            Some(m) => m,
            None => HashMap::new(),
        };
        m.insert(a, d);
        self.accounts.insert(c, m);
        assert(final(self).balances() =~= old(self).balances().insert((c, a), d));
    }

    /// The free balance of `who` in `currency_id`.
    pub fn free_balance(&self, currency_id: CurrencyId, who: AccountId) -> (r: Balance)
        ensures
            r == self.balances()[(currency_id, who)].free,
    {
        self.get_account(currency_id, who).free
    }

    /// The reserved balance of `who` in `currency_id`.
    pub fn reserved_balance(&self, currency_id: CurrencyId, who: AccountId) -> (r: Balance)
        ensures
            r == self.balances()[(currency_id, who)].reserved,
    {
        self.get_account(currency_id, who).reserved
    }

    /// Adds `amount` to the free balance of `who`; refused with `Overflow`,
    /// and nothing changed, where the account's total would not fit.
    pub fn deposit(&mut self, currency_id: CurrencyId, who: AccountId, amount: Balance) -> (r:
        Result<(), LedgerError>)
        requires
            old(self).wf(),
        ensures
            final(self).wf(),
            ({
                let d = old(self).balances()[(currency_id, who)];
                if d.free + d.reserved + amount <= u128::MAX {
                    &&& r == Ok::<(), LedgerError>(())
                    &&& final(self).balances() == old(self).balances().insert(
                        (currency_id, who),
                        AccountData { free: (d.free + amount) as u128, reserved: d.reserved },
                    )
                } else {
                    &&& r == Err::<(), LedgerError>(LedgerError::Overflow)
                    &&& final(self).balances() == old(self).balances()
                }
            }),
    {
        let d = self.get_account(currency_id, who);
        if amount > u128::MAX - d.reserved || d.free > u128::MAX - d.reserved - amount {
            return Err(LedgerError::Overflow);
        }
        self.set_account(currency_id, who, AccountData { free: d.free + amount, reserved: d.reserved });
        Ok(())
    }

    /// Moves `amount` of `who`'s free funds into reserve; refused, and
    /// nothing changed, where the free balance is smaller than `amount`.
    pub fn reserve(&mut self, currency_id: CurrencyId, who: AccountId, amount: Balance) -> (r:
        Result<(), LedgerError>)
        requires
            old(self).wf(),
        ensures
            final(self).wf(),
            ({
                let d = old(self).balances()[(currency_id, who)];
                if amount <= d.free {
                    &&& r == Ok::<(), LedgerError>(())
                    &&& final(self).balances() == reserve_in(
                        old(self).balances(),
                        currency_id,
                        who,
                        amount as nat,
                    )
                } else {
                    &&& r == Err::<(), LedgerError>(LedgerError::InsufficientReservableBalance)
                    &&& final(self).balances() == old(self).balances()
                }
            }),
    {
        let d = self.get_account(currency_id, who);
        if amount > d.free {
            return Err(LedgerError::InsufficientReservableBalance);
        }
        self.set_account(
            currency_id,
            who,
            AccountData { free: d.free - amount, reserved: d.reserved + amount },
        );
        Ok(())
    }

    /// Releases up to `amount` of `who`'s reserved funds back to free, and
    /// returns the part of `amount` that was not reserved.
    pub fn unreserve(&mut self, currency_id: CurrencyId, who: AccountId, amount: Balance) -> (r:
        Balance)
        requires
            old(self).wf(),
        ensures
            final(self).wf(),
            ({
                let d = old(self).balances()[(currency_id, who)];
                let actual = min_nat(amount as nat, d.reserved as nat);
                &&& r == amount - actual
                &&& final(self).balances() == release(
                    old(self).balances(),
                    currency_id,
                    who,
                    amount as nat,
                )
            }),
    {
        let d = self.get_account(currency_id, who);
        let actual = if amount <= d.reserved { amount } else { d.reserved };
        self.set_account(
            currency_id,
            who,
            AccountData { free: d.free + actual, reserved: d.reserved - actual },
        );
        amount - actual
    }

    /// Moves up to `amount` from the reserved balance of `from` straight into
    /// the free balance of `to`, and returns the part of `amount` that
    /// `from` did not have in reserve. Refused with `Overflow`, and nothing
    /// changed, where `to`'s total would not fit.
    pub fn repatriate_reserved(
        &mut self,
        currency_id: CurrencyId,
        from: AccountId,
        to: AccountId,
        amount: Balance,
    ) -> (r: Result<Balance, LedgerError>)
        requires
            old(self).wf(),
        ensures
            final(self).wf(),
            ({
                let b = old(self).balances();
                let s = b[(currency_id, from)];
                let t = b[(currency_id, to)];
                let actual = min_nat(amount as nat, s.reserved as nat);
                if from == to || t.free + t.reserved + actual <= u128::MAX {
                    &&& r == Ok::<Balance, LedgerError>((amount - actual) as u128)
                    &&& final(self).balances() == repatriate(b, currency_id, from, to, amount as nat)
                } else {
                    &&& r == Err::<Balance, LedgerError>(LedgerError::Overflow)
                    &&& final(self).balances() == b
                }
            }),
    {
        if from == to {
            return Ok(self.unreserve(currency_id, from, amount));
        }
        let s = self.get_account(currency_id, from);
        let t = self.get_account(currency_id, to);
        let actual = if amount <= s.reserved { amount } else { s.reserved };
        if actual > u128::MAX - t.reserved || t.free > u128::MAX - t.reserved - actual {
            return Err(LedgerError::Overflow);
        }
        self.set_account(
            currency_id,
            from,
            AccountData { free: s.free, reserved: s.reserved - actual },
        );
        self.set_account(currency_id, to, AccountData { free: t.free + actual, reserved: t.reserved });
        Ok(amount - actual)
    }
}

} // verus!
