//! The state the bridge works against: two native currency ledgers, the
//! two per-account remainder stores beside them, and the account nonces.
//!
//! The ledgers play the part of the external currency capability: a coarse
//! balance per account, a configured minimum-existence balance, and slash
//! and deposit operations that clamp instead of failing. Passing the state
//! explicitly into every operation keeps the bridge free of ambient storage.

use crate::bridge::{compose, sat_add_u128, sat_sub_u128, POW_9};
use crate::store::BalanceStore;
use vstd::prelude::*;

verus! {

/// The two native currencies whose ledgers back the unified balance.
#[derive(Clone, Copy, Debug, PartialEq, Eq, Structural)]
pub enum CurrencyKind {
    /// The first native currency.
    Xor,
    /// The second native currency.
    Oxor,
}

/// The currency beside the given one.
pub open spec fn other_currency(c: CurrencyKind) -> CurrencyKind {
    match c {
        CurrencyKind::Xor => CurrencyKind::Oxor,
        CurrencyKind::Oxor => CurrencyKind::Xor,
    }
}

/// What an operation on currency `c`'s remainder store leaves alone: both
/// ledgers, the other currency's remainder store, the nonces and the
/// configured minimums.
pub open spec fn only_remainder_changed(
    pre: LedgerState,
    post: LedgerState,
    c: CurrencyKind,
) -> bool {
    &&& post.xor_balances == pre.xor_balances
    &&& post.oxor_balances == pre.oxor_balances
    &&& post.remainders(other_currency(c)) == pre.remainders(other_currency(c))
    &&& post.nonces == pre.nonces
    &&& post.xor_minimum == pre.xor_minimum
    &&& post.oxor_minimum == pre.oxor_minimum
}

/// Both native ledgers, both remainder stores, and the nonces, keyed by
/// account identifier.
pub struct LedgerState {
    /// Coarse balances of the first currency.
    pub xor_balances: BalanceStore,
    /// Coarse balances of the second currency.
    pub oxor_balances: BalanceStore,
    /// Sub-unit remainders of the first currency.
    pub xor_remainders: BalanceStore,
    /// Sub-unit remainders of the second currency.
    pub oxor_remainders: BalanceStore,
    /// Account nonces, sourced externally and passed through unchanged.
    pub nonces: BalanceStore,
    /// Minimum-existence balance of the first currency, in coarse units.
    pub xor_minimum: u128,
    /// Minimum-existence balance of the second currency, in coarse units.
    pub oxor_minimum: u128,
}

impl LedgerState {
    /// The coarse ledger of a currency.
    pub open spec fn balances(self, c: CurrencyKind) -> BalanceStore {
        match c {
            CurrencyKind::Xor => self.xor_balances,
            CurrencyKind::Oxor => self.oxor_balances,
        }
    }

    /// The remainder store of a currency.
    pub open spec fn remainders(self, c: CurrencyKind) -> BalanceStore {
        match c {
            CurrencyKind::Xor => self.xor_remainders,
            CurrencyKind::Oxor => self.oxor_remainders,
        }
    }

    /// The minimum-existence balance of a currency, in coarse units.
    pub open spec fn minimum(self, c: CurrencyKind) -> u128 {
        match c {
            CurrencyKind::Xor => self.xor_minimum,
            CurrencyKind::Oxor => self.oxor_minimum,
        }
    }

    /// An account's coarse balance in a currency.
    pub open spec fn balance_of(self, c: CurrencyKind, who: u64) -> u128 {
        self.balances(c).read(who)
    }

    /// An account's sub-unit remainder in a currency.
    pub open spec fn remainder_of(self, c: CurrencyKind, who: u64) -> u128 {
        self.remainders(c).read(who)
    }

    /// Whether an account holds a remainder entry of its own in a currency.
    pub open spec fn has_remainder(self, c: CurrencyKind, who: u64) -> bool {
        self.remainders(c).has_key(who)
    }

    /// An account's nonce.
    pub open spec fn nonce_of(self, who: u64) -> u128 {
        self.nonces.read(who)
    }

    /// The unified balance of an account in a currency: the coarse balance
    /// widened by `POW_9` plus the remainder.
    pub open spec fn composed_of(self, c: CurrencyKind, who: u64) -> int {
        compose(self.balance_of(c, who), self.remainder_of(c, who))
    }

    /// A currency's minimum-existence balance in unified units.
    pub open spec fn min_composed(self, c: CurrencyKind) -> int {
        self.minimum(c) * POW_9
    }

    /// At rest every remainder is strictly below one coarse unit.
    pub open spec fn wf(self) -> bool {
        self.xor_remainders.bounded(POW_9) && self.oxor_remainders.bounded(POW_9)
    }

    /// A fresh state: empty ledgers and stores, the given minimums.
    pub fn new(xor_minimum: u128, oxor_minimum: u128) -> (r: LedgerState)
        ensures
            r.wf(),
            r.xor_minimum == xor_minimum,
            r.oxor_minimum == oxor_minimum,
            forall|c: CurrencyKind, w: u64| #[trigger] r.balance_of(c, w) == 0,
            forall|c: CurrencyKind, w: u64| #[trigger] r.remainder_of(c, w) == 0,
            forall|c: CurrencyKind, w: u64| !(#[trigger] r.has_remainder(c, w)),
            forall|w: u64| #[trigger] r.nonce_of(w) == 0,
    {
        LedgerState {
            xor_balances: BalanceStore::new(),
            oxor_balances: BalanceStore::new(),
            xor_remainders: BalanceStore::new(),
            oxor_remainders: BalanceStore::new(),
            nonces: BalanceStore::new(),
            xor_minimum,
            oxor_minimum,
        }
    }

    /// An account's coarse balance, read from the currency's ledger.
    pub fn free_balance(&self, c: CurrencyKind, who: u64) -> (r: u128)
        ensures
            r == self.balance_of(c, who),
    {
        match c {
            CurrencyKind::Xor => self.xor_balances.get(who),
            CurrencyKind::Oxor => self.oxor_balances.get(who),
        }
    }

    /// A currency's configured minimum-existence balance, in coarse units.
    pub fn minimum_balance(&self, c: CurrencyKind) -> (r: u128)
        ensures
            r == self.minimum(c),
    {
        match c {
            CurrencyKind::Xor => self.xor_minimum,
            CurrencyKind::Oxor => self.oxor_minimum,
        }
    }

    /// An account's sub-unit remainder, read from the currency's store.
    pub fn remaining_of(&self, c: CurrencyKind, who: u64) -> (r: u128)
        ensures
            r == self.remainder_of(c, who),
    {
        match c {
            CurrencyKind::Xor => self.xor_remainders.get(who),
            CurrencyKind::Oxor => self.oxor_remainders.get(who),
        }
    }

    /// Whether an account holds a remainder entry of its own.
    pub fn has_remainder_entry(&self, c: CurrencyKind, who: u64) -> (r: bool)
        ensures
            r == self.has_remainder(c, who),
    {
        match c {
            CurrencyKind::Xor => self.xor_remainders.contains(who),
            CurrencyKind::Oxor => self.oxor_remainders.contains(who),
        }
    }

    /// An account's nonce, passed through from the external source.
    pub fn account_nonce(&self, who: u64) -> (r: u128)
        ensures
            r == self.nonce_of(who),
    {
        self.nonces.get(who)
    }

    /// Records an account's nonce on behalf of the external source.
    pub fn set_nonce(&mut self, who: u64, nonce: u128)
        ensures
            final(self).nonces.entry_view() == old(self).nonces.entry_view().insert(who, nonce),
            final(self).xor_balances == old(self).xor_balances,
            final(self).oxor_balances == old(self).oxor_balances,
            final(self).xor_remainders == old(self).xor_remainders,
            final(self).oxor_remainders == old(self).oxor_remainders,
            final(self).xor_minimum == old(self).xor_minimum,
            final(self).oxor_minimum == old(self).oxor_minimum,
    {
        self.nonces.set(who, nonce);
    }

    /// Takes up to the given number of coarse units from an account's
    /// ledger balance, clamping at zero.
    pub fn slash(&mut self, c: CurrencyKind, who: u64, amount: u128)
        ensures
            final(self).balances(c).entry_view() == old(self).balances(c).entry_view().insert(
                who,
                sat_sub_u128(old(self).balance_of(c, who), amount),
            ),
            final(self).balances(other_currency(c)) == old(self).balances(other_currency(c)),
            final(self).xor_remainders == old(self).xor_remainders,
            final(self).oxor_remainders == old(self).oxor_remainders,
            final(self).nonces == old(self).nonces,
            final(self).xor_minimum == old(self).xor_minimum,
            final(self).oxor_minimum == old(self).oxor_minimum,
    {
        match c {
            CurrencyKind::Xor => self.xor_balances.saturating_decrease(who, amount),
            CurrencyKind::Oxor => self.oxor_balances.saturating_decrease(who, amount),
        }
    }

    /// Adds the given number of coarse units to an account's ledger
    /// balance, creating the account if needed and clamping at the top of
    /// the balance type.
    pub fn deposit_creating(&mut self, c: CurrencyKind, who: u64, amount: u128)
        ensures
            final(self).balances(c).entry_view() == old(self).balances(c).entry_view().insert(
                who,
                sat_add_u128(old(self).balance_of(c, who), amount),
            ),
            final(self).balances(other_currency(c)) == old(self).balances(other_currency(c)),
            final(self).xor_remainders == old(self).xor_remainders,
            final(self).oxor_remainders == old(self).oxor_remainders,
            final(self).nonces == old(self).nonces,
            final(self).xor_minimum == old(self).xor_minimum,
            final(self).oxor_minimum == old(self).oxor_minimum,
    {
        match c {
            CurrencyKind::Xor => self.xor_balances.saturating_increase(who, amount),
            CurrencyKind::Oxor => self.oxor_balances.saturating_increase(who, amount),
        }
    }
}

} // verus!
