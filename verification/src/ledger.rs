//! A minimal reservable-balance ledger.
//!
//! The ledger stands in for the currency engine the registry is deployed
//! against. Each account's balance has a spendable (free) part and a part
//! held in reservation; the registry moves funds between the two parts with
//! `reserve` and `release` and never creates or destroys funds.

use std::collections::HashMap;
use vstd::prelude::*;

verus! {

broadcast use vstd::std_specs::hash::group_hash_axioms;

/// The record the ledger keeps for one account: the spendable (free) part of
/// its balance and the part currently held in reservation.
#[derive(Clone, Copy, PartialEq, Eq, Structural, Debug)]
pub struct AccountBalance {
    pub free: u64,
    pub reserved: u64,
}

/// A reservation failed: the account's spendable balance is below the
/// requested amount.
#[derive(Clone, Copy, PartialEq, Eq, Structural, Debug)]
pub struct InsufficientFunds;

/// The spendable balance of `id` under `m`. An account the ledger has no
/// record of holds nothing.
pub open spec fn free_of(m: Map<u64, AccountBalance>, id: u64) -> u64 {
    if m.contains_key(id) {
        m[id].free
    } else {
        0
    }
}

/// The reserved balance of `id` under `m`.
pub open spec fn reserved_of(m: Map<u64, AccountBalance>, id: u64) -> u64 {
    if m.contains_key(id) {
        m[id].reserved
    } else {
        0
    }
}

/// Every account's two parts together fit the balance type, so moving funds
/// between the parts can never overflow.
pub open spec fn ledger_wf(m: Map<u64, AccountBalance>) -> bool {
    forall|id: u64| #[trigger] m.contains_key(id) ==> m[id].free + m[id].reserved <= u64::MAX
}

/// The ledger after `amount` moved from `id`'s free part into reservation.
/// The ledger is unchanged when the free part cannot cover the amount, and
/// when there is nothing to record (the account is absent and the amount is
/// zero).
pub open spec fn reserve_spec(
    m: Map<u64, AccountBalance>,
    id: u64,
    amount: u64,
) -> Map<u64, AccountBalance> {
    if m.contains_key(id) && m[id].free >= amount {
        m.insert(
            id,
            (AccountBalance {
                free: (m[id].free - amount) as u64,
                reserved: (m[id].reserved + amount) as u64,
            }),
        )
    } else {
        m
    }
}

/// The ledger after up to `amount` moved back from `id`'s reservation into
/// its free part. The amount actually moved is capped by what is reserved,
/// so a release never fails.
pub open spec fn release_spec(
    m: Map<u64, AccountBalance>,
    id: u64,
    amount: u64,
) -> Map<u64, AccountBalance> {
    if m.contains_key(id) {
        let moved: u64 = if amount <= m[id].reserved {
            amount
        } else {
            m[id].reserved
        };
        m.insert(
            id,
            (AccountBalance {
                free: (m[id].free + moved) as u64,
                reserved: (m[id].reserved - moved) as u64,
            }),
        )
    } else {
        m
    }
}

/// An account-to-balance ledger with reservable balances.
pub struct Ledger {
    accounts: HashMap<u64, AccountBalance>,
}

impl View for Ledger {
    type V = Map<u64, AccountBalance>;

    closed spec fn view(&self) -> Map<u64, AccountBalance> {
        self.accounts@
    }
}

impl Ledger {
    /// An empty ledger: no account holds anything.
    pub fn new() -> (r: Ledger)
        ensures
            r@ == Map::<u64, AccountBalance>::empty(),
            ledger_wf(r@),
    {
        Ledger { accounts: HashMap::new() }
    }

    /// Sets `id`'s free balance to `amount`, keeping its reservation.
    pub fn set_free_balance(&mut self, id: u64, amount: u64)
        requires
            amount + reserved_of(old(self)@, id) <= u64::MAX,
        ensures
            final(self)@ == old(self)@.insert(
                id,
                (AccountBalance { free: amount, reserved: reserved_of(old(self)@, id) }),
            ),
            ledger_wf(old(self)@) ==> ledger_wf(final(self)@),
    {
        let reserved = self.reserved_balance(id);
        self.accounts.insert(id, AccountBalance { free: amount, reserved });
    }

    /// The spendable balance of `id`.
    pub fn free_balance(&self, id: u64) -> (r: u64)
        ensures
            r == free_of(self@, id),
    {
        match self.accounts.get(&id) {
            Some(b) => b.free,
            None => 0,
        }
    }

    /// The reserved balance of `id`.
    pub fn reserved_balance(&self, id: u64) -> (r: u64)
        ensures
            r == reserved_of(self@, id),
    {
        match self.accounts.get(&id) {
            Some(b) => b.reserved,
            None => 0,
        }
    }

    /// Moves `amount` from `id`'s free balance into reservation. Fails, and
    /// leaves the ledger unchanged, exactly when the free balance cannot
    /// cover the amount.
    pub fn reserve(&mut self, id: u64, amount: u64) -> (r: Result<(), InsufficientFunds>)
        requires
            ledger_wf(old(self)@),
        ensures
            r is Ok <==> free_of(old(self)@, id) >= amount,
            final(self)@ == reserve_spec(old(self)@, id, amount),
            ledger_wf(final(self)@),
    {
        match self.accounts.get(&id) {
            Some(b) => {
                if b.free >= amount {
                    let nb = AccountBalance { free: b.free - amount, reserved: b.reserved + amount };
                    self.accounts.insert(id, nb);
                    Ok(())
                } else {
                    Err(InsufficientFunds)
                }
            }
            None => {
                if amount == 0 {
                    Ok(())
                } else {
                    Err(InsufficientFunds)
                }
            }
        }
    }

    /// Moves up to `amount` back from `id`'s reservation into its free
    /// balance. A release never fails; the amount moved is capped by what
    /// the account has in reservation.
    pub fn release(&mut self, id: u64, amount: u64)
        requires
            ledger_wf(old(self)@),
        ensures
            final(self)@ == release_spec(old(self)@, id, amount),
            ledger_wf(final(self)@),
    {
        match self.accounts.get(&id) {
            Some(b) => {
                let moved: u64 = if amount <= b.reserved {
                    amount
                } else {
                    b.reserved
                };
                let nb = AccountBalance { free: b.free + moved, reserved: b.reserved - moved };
                self.accounts.insert(id, nb);
            }
            None => {},
        }
    }
}

} // verus!
