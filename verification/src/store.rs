//! A keyed store of unsigned amounts.
//!
//! Both the native ledgers and the per-account remainder stores are plain
//! key-to-value maps from an account identifier to an amount; an absent key
//! reads as zero. The saturating increment and decrement clamp instead of
//! overflowing, a defensive guard the callers are never expected to hit.

use crate::bridge::{sat_add_u128, sat_sub_u128};
use std::collections::HashMap;
use vstd::prelude::*;

verus! {

/// A store mapping an account identifier to an unsigned amount, where an
/// absent key stands for zero.
pub struct BalanceStore {
    entries: HashMap<u64, u128>,
}

impl BalanceStore {
    /// The keys that hold an entry and what they hold.
    pub closed spec fn entry_view(self) -> Map<u64, u128> {
        self.entries@
    }

    /// Whether the key holds an entry of its own.
    pub open spec fn has_key(self, k: u64) -> bool {
        self.entry_view().contains_key(k)
    }

    /// The amount under a key; zero when the key holds no entry.
    pub open spec fn read(self, k: u64) -> u128 {
        if self.entry_view().contains_key(k) {
            self.entry_view()[k]
        } else {
            0
        }
    }

    /// Every entry is strictly below the bound.
    pub open spec fn bounded(self, bound: u128) -> bool {
        forall|k: u64| #[trigger] self.read(k) < bound
    }

    /// An empty store: every key reads as zero.
    pub fn new() -> (r: BalanceStore)
        ensures
            r.entry_view() == Map::<u64, u128>::empty(),
            forall|k: u64| !r.has_key(k) && #[trigger] r.read(k) == 0,
    {
        let r = BalanceStore { entries: HashMap::new() };
        proof {
            assert(forall|k: u64| !(#[trigger] r.entry_view().contains_key(k)));
        }
        r
    }

    /// The amount under the key, zero when absent.
    pub fn get(&self, k: u64) -> (r: u128)
        ensures
            r == self.read(k),
    {
        match self.entries.get(&k) {
            Some(v) => *v,
            None => 0,
        }
    }

    /// Whether the key holds an entry of its own.
    pub fn contains(&self, k: u64) -> (r: bool)
        ensures
            r == self.has_key(k),
    {
        self.entries.contains_key(&k)
    }

    /// Writes the amount under the key, creating the entry if needed.
    pub fn set(&mut self, k: u64, v: u128)
        ensures
            final(self).entry_view() == old(self).entry_view().insert(k, v),
    {
        self.entries.insert(k, v);
    }

    /// Drops the entry under the key; the key reads as zero afterwards.
    pub fn remove(&mut self, k: u64)
        ensures
            final(self).entry_view() == old(self).entry_view().remove(k),
    {
        self.entries.remove(&k);
    }

    /// Adds to the amount under the key, clamping at the largest amount.
    pub fn saturating_increase(&mut self, k: u64, v: u128)
        ensures
            final(self).entry_view() == old(self).entry_view().insert(
                k,
                sat_add_u128(old(self).read(k), v),
            ),
    {
        let cur = self.get(k);
        let nv: u128 = if cur <= u128::MAX - v {
            cur + v
        } else {
            u128::MAX
        };
        self.set(k, nv);
    }

    /// Takes from the amount under the key, clamping at zero.
    pub fn saturating_decrease(&mut self, k: u64, v: u128)
        ensures
            final(self).entry_view() == old(self).entry_view().insert(
                k,
                sat_sub_u128(old(self).read(k), v),
            ),
    {
        let cur = self.get(k);
        let nv: u128 = if v > cur {
            0
        } else {
            cur - v
        };
        self.set(k, nv);
    }
}

/// Writing a value below the bound keeps a store bounded.
pub proof fn lemma_bounded_after_insert(
    pre: BalanceStore,
    post: BalanceStore,
    k: u64,
    v: u128,
    bound: u128,
)
    requires
        pre.bounded(bound),
        v < bound,
        post.entry_view() == pre.entry_view().insert(k, v),
    ensures
        post.bounded(bound),
{
    assert forall|x: u64| #[trigger] post.read(x) < bound by {
        if x != k {
            assert(pre.read(x) < bound);
        }
    }
}

/// Dropping an entry keeps a store bounded.
pub proof fn lemma_bounded_after_remove(pre: BalanceStore, post: BalanceStore, k: u64, bound: u128)
    requires
        pre.bounded(bound),
        bound > 0,
        post.entry_view() == pre.entry_view().remove(k),
    ensures
        post.bounded(bound),
{
    assert forall|x: u64| #[trigger] post.read(x) < bound by {
        if x != k {
            assert(pre.read(x) < bound);
        }
    }
}

} // verus!
