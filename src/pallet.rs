//! The voucher store and its three operations: submit, redeem and cancel.
//! Each operation either succeeds as a whole or fails with a typed error
//! and leaves the store, the counter, the ledger and the event log as they
//! were.
use std::collections::HashMap;
use vstd::prelude::*;

use crate::ledger::{release, repatriate, reserve_in, LedgerError, Tokens};
use crate::{AccountId, Balance, CurrencyId, VoucherId};

verus! {

broadcast use vstd::std_specs::hash::group_hash_axioms;

/// Funds of one currency held in escrow for a future payment.
#[derive(Clone, Debug, PartialEq, Eq)]
pub struct Voucher {
    /// The escrowed currency.
    pub currency_id: CurrencyId,
    /// The amount still escrowed.
    pub amount: Balance,
    /// The account that funded the voucher; the only one that may cancel it.
    pub owner: AccountId,
    /// The accounts that a redemption may pay.
    pub valid_merchants: Vec<AccountId>,
    /// The only account that may redeem the voucher.
    pub redeemable_by: AccountId,
}

impl Voucher {
    /// The two vouchers hold the same data.
    pub open spec fn same_as(self, o: Voucher) -> bool {
        &&& self.currency_id == o.currency_id
        &&& self.amount == o.amount
        &&& self.owner == o.owner
        &&& self.valid_merchants@ == o.valid_merchants@
        &&& self.redeemable_by == o.redeemable_by
    }

    /// This voucher with its amount replaced.
    pub open spec fn with_amount(self, amount: Balance) -> Voucher {
        Voucher {
            currency_id: self.currency_id,
            amount,
            owner: self.owner,
            valid_merchants: self.valid_merchants,
            redeemable_by: self.redeemable_by,
        }
    }

    fn snapshot(&self) -> (r: Voucher)
        ensures
            r.same_as(*self),
    {
        let merchants = self.valid_merchants.clone();
        assert(merchants@ =~= self.valid_merchants@);
        Voucher {
            currency_id: self.currency_id,
            amount: self.amount,
            owner: self.owner,
            valid_merchants: merchants,
            redeemable_by: self.redeemable_by,
        }
    }
}

/// What happened, recorded once per successful operation.
#[derive(Clone, Debug, PartialEq, Eq)]
pub enum Event {
    /// A voucher was created: its identifier and its record.
    VoucherCreated(VoucherId, Voucher),
    /// A voucher was redeemed: the redeemer, the identifier, the record
    /// before the redemption, the merchant paid and the amount paid.
    VoucherRedeemed(AccountId, VoucherId, Voucher, AccountId, Balance),
    /// A voucher was cancelled: its identifier.
    VoucherCancelled(VoucherId),
}

impl Event {
    /// This event records the creation of voucher `id` holding `v`.
    pub open spec fn is_created(self, id: VoucherId, v: Voucher) -> bool {
        match self {
            Event::VoucherCreated(i, w) => i == id && w.same_as(v),
            _ => false,
        }
    }

    /// This event records a redemption of voucher `id`, which held `v`.
    pub open spec fn is_redeemed(
        self,
        who: AccountId,
        id: VoucherId,
        v: Voucher,
        merchant: AccountId,
        amount: Balance,
    ) -> bool {
        match self {
            Event::VoucherRedeemed(w, i, x, m, a) => w == who && i == id && x.same_as(v) && m
                == merchant && a == amount,
            _ => false,
        }
    }

    /// This event records the cancellation of voucher `id`.
    pub open spec fn is_cancelled(self, id: VoucherId) -> bool {
        self == Event::VoucherCancelled(id)
    }
}

/// Why an operation was refused.
#[derive(Clone, Copy, Debug, PartialEq, Eq, Structural)]
pub enum Error {
    /// No identifier is left to allocate.
    VoucherIdOverflow,
    /// No voucher has this identifier.
    InvalidVoucherId,
    /// The owner's reserve does not cover the amount to pay.
    InsufficientBalance,
    /// The caller did not create the voucher.
    NotOwner,
    /// The caller is not the voucher's redeemer.
    InvalidCustomer,
    /// The merchant is not one the voucher may pay.
    InvalidMerchant,
    /// The amount to pay exceeds what the voucher holds.
    AmountExceeded,
    /// The ledger refused the operation.
    Ledger(LedgerError),
}

/// `after` is `before` with one more event at its end.
pub open spec fn appended(before: Seq<Event>, after: Seq<Event>) -> bool {
    &&& after.len() == before.len() + 1
    &&& after.subrange(0, before.len() as int) == before
}

/// The voucher store, its identifier counter, the ledger that holds the
/// escrowed funds, and the log of events.
pub struct Pallet {
    tokens: Tokens,
    vouchers: HashMap<VoucherId, Voucher>,
    next_voucher_id: VoucherId,
    events: Vec<Event>,
}

impl Pallet {
    /// The live vouchers, by identifier.
    pub closed spec fn store(&self) -> Map<VoucherId, Voucher> {
        self.vouchers@
    }

    /// The identifier that the next submission receives.
    pub closed spec fn next_id(&self) -> VoucherId {
        self.next_voucher_id
    }

    /// The ledger's balances.
    pub closed spec fn balances(&self) -> Map<(CurrencyId, AccountId), crate::ledger::AccountData> {
        self.tokens.balances()
    }

    /// The events recorded so far, oldest first.
    pub closed spec fn log(&self) -> Seq<Event> {
        self.events@
    }

    /// The ledger is well formed and every live identifier was allocated.
    pub closed spec fn wf(&self) -> bool {
        &&& self.tokens.wf()
        &&& forall|k: VoucherId| #[trigger] self.vouchers@.contains_key(k) ==> k
            < self.next_voucher_id
    }

    /// Nothing observable differs between the two states.
    pub open spec fn same_state(&self, o: &Pallet) -> bool {
        &&& self.store() == o.store()
        &&& self.next_id() == o.next_id()
        &&& self.balances() == o.balances()
        &&& self.log() == o.log()
    }

    /// No vouchers, no events, identifiers from zero, over the given ledger.
    pub fn new(tokens: Tokens) -> (r: Pallet)
        requires
            tokens.wf(),
        ensures
            r.wf(),
            r.store() == Map::<VoucherId, Voucher>::empty(),
            r.next_id() == 0,
            r.balances() == tokens.balances(),
            r.log() == Seq::<Event>::empty(),
    {
        Pallet::with_next_voucher_id(tokens, 0)
    }

    /// No vouchers and no events over the given ledger, with identifiers
    /// allocated from `next_voucher_id` on.
    pub fn with_next_voucher_id(tokens: Tokens, next_voucher_id: VoucherId) -> (r: Pallet)
        requires
            tokens.wf(),
        ensures
            r.wf(),
            r.store() == Map::<VoucherId, Voucher>::empty(),
            r.next_id() == next_voucher_id,
            r.balances() == tokens.balances(),
            r.log() == Seq::<Event>::empty(),
    {
        let r = Pallet { tokens, vouchers: HashMap::new(), next_voucher_id, events: Vec::new() };
        assert(r.log() =~= Seq::<Event>::empty());
        r
    }

    /// Creates a voucher owned by `who`: allocates the next identifier,
    /// reserves `amount` of `currency_id` from `who`'s free balance, stores
    /// the record and logs its creation. Returns the new identifier.
    pub fn submit_voucher(
        &mut self,
        who: AccountId,
        currency_id: CurrencyId,
        amount: Balance,
        valid_merchants: Vec<AccountId>,
        redeemable_by: AccountId,
    ) -> (r: Result<VoucherId, Error>)
        requires
            old(self).wf(),
        ensures
            final(self).wf(),
            ({
                let id = old(self).next_id();
                let d = old(self).balances()[(currency_id, who)];
                let v = Voucher { currency_id, amount, owner: who, valid_merchants, redeemable_by };
                if id == u64::MAX {
                    &&& r == Err::<VoucherId, Error>(Error::VoucherIdOverflow)
                    &&& final(self).same_state(old(self))
                } else if amount > d.free {
                    &&& r == Err::<VoucherId, Error>(
                        Error::Ledger(LedgerError::InsufficientReservableBalance),
                    )
                    &&& final(self).same_state(old(self))
                } else {
                    &&& r == Ok::<VoucherId, Error>(id)
                    &&& !old(self).store().contains_key(id)
                    &&& final(self).store() == old(self).store().insert(id, v)
                    &&& final(self).next_id() == id + 1
                    &&& final(self).balances() == reserve_in(
                        old(self).balances(),
                        currency_id,
                        who,
                        amount as nat,
                    )
                    &&& final(self).balances()[(currency_id, who)].free == d.free - amount
                    &&& final(self).balances()[(currency_id, who)].reserved == d.reserved + amount
                    &&& appended(old(self).log(), final(self).log())
                    &&& final(self).log().last().is_created(id, v)
                }
            }),
            r is Err ==> final(self).same_state(old(self)),
    {
        let voucher_id = self.next_voucher_id;
        if voucher_id == u64::MAX {
            return Err(Error::VoucherIdOverflow);
        }
        match self.tokens.reserve(currency_id, who, amount) {
            Ok(()) => {},
            Err(e) => {
                return Err(Error::Ledger(e));
            },
        }
        let voucher = Voucher { currency_id, amount, owner: who, valid_merchants, redeemable_by };
        let created = voucher.snapshot();
        self.vouchers.insert(voucher_id, voucher);
        self.next_voucher_id = voucher_id + 1;
        self.events.push(Event::VoucherCreated(voucher_id, created));
        assert(self.events@.subrange(0, old(self).events@.len() as int) =~= old(self).events@);
        Ok(voucher_id)
    }

    /// Pays `amount` of voucher `voucher_id` to `merchant`, on behalf of the
    /// redeemer `who`: the amount moves from the owner's reserve to the
    /// merchant's free balance, and the rest of the voucher's amount is
    /// released to the owner. A voucher paid in full is removed; otherwise
    /// it stays with the rest as its amount.
    pub fn redeem_voucher(
        &mut self,
        who: AccountId,
        voucher_id: VoucherId,
        merchant: AccountId,
        amount: Balance,
    ) -> (r: Result<(), Error>)
        requires
            old(self).wf(),
        ensures
            final(self).wf(),
            ({
                let s = old(self).store();
                let v = s[voucher_id];
                let b = old(self).balances();
                let paid = b[(v.currency_id, merchant)];
                let residual = (v.amount - amount) as u128;
                if !s.contains_key(voucher_id) {
                    &&& r == Err::<(), Error>(Error::InvalidVoucherId)
                    &&& final(self).same_state(old(self))
                } else if v.redeemable_by != who {
                    &&& r == Err::<(), Error>(Error::InvalidCustomer)
                    &&& final(self).same_state(old(self))
                } else if !v.valid_merchants@.contains(merchant) {
                    &&& r == Err::<(), Error>(Error::InvalidMerchant)
                    &&& final(self).same_state(old(self))
                } else if v.amount < amount {
                    &&& r == Err::<(), Error>(Error::AmountExceeded)
                    &&& final(self).same_state(old(self))
                } else if b[(v.currency_id, v.owner)].reserved < amount {
                    &&& r == Err::<(), Error>(Error::InsufficientBalance)
                    &&& final(self).same_state(old(self))
                } else if merchant != v.owner && paid.free + paid.reserved + amount > u128::MAX {
                    &&& r == Err::<(), Error>(Error::Ledger(LedgerError::Overflow))
                    &&& final(self).same_state(old(self))
                } else {
                    &&& r == Ok::<(), Error>(())
                    &&& residual == 0 ==> final(self).store() == s.remove(voucher_id)
                    &&& residual > 0 ==> final(self).store() == s.insert(
                        voucher_id,
                        v.with_amount(residual),
                    )
                    &&& final(self).next_id() == old(self).next_id()
                    &&& final(self).balances() == release(
                        repatriate(b, v.currency_id, v.owner, merchant, amount as nat),
                        v.currency_id,
                        v.owner,
                        residual as nat,
                    )
                    &&& appended(old(self).log(), final(self).log())
                    &&& final(self).log().last().is_redeemed(who, voucher_id, v, merchant, amount)
                }
            }),
            ({
                let v = old(self).store()[voucher_id];
                let c = v.currency_id;
                let before = old(self).balances();
                let after = final(self).balances();
                r is Ok && merchant != v.owner ==> {
                    &&& after[(c, merchant)].free == before[(c, merchant)].free + amount
                    &&& amount == v.amount ==> {
                        &&& !final(self).store().contains_key(voucher_id)
                        &&& after[(c, v.owner)].free == before[(c, v.owner)].free
                        &&& after[(c, v.owner)].reserved == before[(c, v.owner)].reserved - amount
                    }
                    &&& amount < v.amount && before[(c, v.owner)].reserved >= v.amount ==> {
                        &&& final(self).store()[voucher_id].amount == v.amount - amount
                        &&& after[(c, v.owner)].free == before[(c, v.owner)].free + (v.amount
                            - amount)
                        &&& after[(c, v.owner)].reserved == before[(c, v.owner)].reserved
                            - v.amount
                    }
                }
            }),
            r is Err ==> final(self).same_state(old(self)),
    {
        let (currency_id, owner, residual) = match self.vouchers.get(&voucher_id) {
            None => {
                return Err(Error::InvalidVoucherId);
            },
            Some(v) => {
                if v.redeemable_by != who {
                    return Err(Error::InvalidCustomer);
                }
                if !contains_account(&v.valid_merchants, merchant) {
                    return Err(Error::InvalidMerchant);
                }
                if v.amount < amount {
                    return Err(Error::AmountExceeded);
                }
                (v.currency_id, v.owner, v.amount - amount)
            },
        };
        if self.tokens.reserved_balance(currency_id, owner) < amount {
            return Err(Error::InsufficientBalance);
        }
        match self.tokens.repatriate_reserved(currency_id, owner, merchant, amount) {
            Ok(_) => {},
            Err(e) => {
                return Err(Error::Ledger(e));
            },
        }
        self.tokens.unreserve(currency_id, owner, residual);
        // the record was found above and nothing has removed it since
        let mut voucher = match self.vouchers.remove(&voucher_id) {
            Some(v) => v,
            None => {
                return Err(Error::InvalidVoucherId);
            },
        };
        let before = voucher.snapshot();
        if residual > 0 {
            voucher.amount = residual;
            self.vouchers.insert(voucher_id, voucher);
        }
        self.events.push(Event::VoucherRedeemed(who, voucher_id, before, merchant, amount));
        assert(self.events@.subrange(0, old(self).events@.len() as int) =~= old(self).events@);
        Ok(())
    }

    /// Cancels voucher `voucher_id` on behalf of its owner `who`: the record
    /// is removed and its amount is released from the owner's reserve.
    pub fn cancel_voucher(&mut self, who: AccountId, voucher_id: VoucherId) -> (r: Result<(), Error>)
        requires
            old(self).wf(),
        ensures
            final(self).wf(),
            ({
                let s = old(self).store();
                let v = s[voucher_id];
                if !s.contains_key(voucher_id) {
                    &&& r == Err::<(), Error>(Error::InvalidVoucherId)
                    &&& final(self).same_state(old(self))
                } else if v.owner != who {
                    &&& r == Err::<(), Error>(Error::NotOwner)
                    &&& final(self).same_state(old(self))
                } else {
                    &&& r == Ok::<(), Error>(())
                    &&& final(self).store() == s.remove(voucher_id)
                    &&& final(self).next_id() == old(self).next_id()
                    &&& final(self).balances() == release(
                        old(self).balances(),
                        v.currency_id,
                        v.owner,
                        v.amount as nat,
                    )
                    &&& appended(old(self).log(), final(self).log())
                    &&& final(self).log().last().is_cancelled(voucher_id)
                }
            }),
            ({
                let v = old(self).store()[voucher_id];
                let d = old(self).balances()[(v.currency_id, v.owner)];
                r is Ok && d.reserved >= v.amount ==> {
                    &&& final(self).balances()[(v.currency_id, v.owner)].free == d.free + v.amount
                    &&& final(self).balances()[(v.currency_id, v.owner)].reserved == d.reserved
                        - v.amount
                }
            }),
            r is Err ==> final(self).same_state(old(self)),
    {
        match self.vouchers.get(&voucher_id) {
            None => {
                return Err(Error::InvalidVoucherId);
            },
            Some(v) => {
                if v.owner != who {
                    return Err(Error::NotOwner);
                }
            },
        }
        let voucher = match self.vouchers.remove(&voucher_id) {
            Some(v) => v,
            None => {
                return Err(Error::InvalidVoucherId);
            },
        };
        self.tokens.unreserve(voucher.currency_id, voucher.owner, voucher.amount);
        self.events.push(Event::VoucherCancelled(voucher_id));
        assert(self.events@.subrange(0, old(self).events@.len() as int) =~= old(self).events@);
        Ok(())
    }

    /// The voucher stored under `voucher_id`, if any.
    pub fn vouchers(&self, voucher_id: VoucherId) -> (r: Option<&Voucher>)
        ensures
            r == (if self.store().contains_key(voucher_id) {
                Some(&self.store()[voucher_id])
            } else {
                None
            }),
    {
        self.vouchers.get(&voucher_id)
    }

    /// The identifier that the next submission receives.
    pub fn next_voucherid(&self) -> (r: VoucherId)
        ensures
            r == self.next_id(),
    {
        self.next_voucher_id
    }

    /// The ledger that holds the escrowed funds.
    pub fn tokens(&self) -> (r: &Tokens)
        ensures
            r.balances() == self.balances(),
    {
        &self.tokens
    }

    /// Hands out the events recorded so far and clears the log.
    pub fn take_events(&mut self) -> (r: Vec<Event>)
        ensures
            r@ == old(self).log(),
            final(self).log() == Seq::<Event>::empty(),
            final(self).store() == old(self).store(),
            final(self).next_id() == old(self).next_id(),
            final(self).balances() == old(self).balances(),
            final(self).wf() == old(self).wf(),
    {
        let mut r: Vec<Event> = Vec::new();
        core::mem::swap(&mut r, &mut self.events);
        assert(self.events@ =~= Seq::<Event>::empty());
        r
    }
}

/// Whether `a` is one of `accounts`.
pub fn contains_account(accounts: &Vec<AccountId>, a: AccountId) -> (r: bool)
    ensures
        r == accounts@.contains(a),
{
    let mut i: usize = 0;
    while i < accounts.len()
        invariant
            0 <= i <= accounts.len(),
            forall|j: int| 0 <= j < i ==> accounts@[j] != a,
        decreases accounts.len() - i,
    {
        if accounts[i] == a {
            assert(accounts@[i as int] == a);
            return true;
        }
        i = i + 1;
    }
    false
}

} // verus!
