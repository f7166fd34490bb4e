//! Account-level read, write and transfer over the bridged stores.
//!
//! A read composes the coarse ledger balance and the remainder into the
//! unified balance. A write decomposes the requested change into a ledger
//! mutation and a remainder mutation, applies both, and then runs the
//! minimum-existence cleanup: when the account's unified balances rest
//! below the minimum in both currencies, the remainder entries of both
//! currencies are purged so that no stale sub-unit value lingers behind a
//! reaped ledger entry.

use crate::bridge::{
    decompose_delta, lemma_recompose, lemma_unique_split, lemma_value_nonneg, lemma_value_order,
    sat_add_u128, sat_sub_u128, sat_to_max, Composed, Direction, POW_9,
};
use crate::state::{only_remainder_changed, other_currency, CurrencyKind, LedgerState};
use vstd::prelude::*;

verus! {

/// The externally visible account record: the nonce, sourced outside this
/// crate and passed through unchanged, and the unified balance.
#[derive(Clone, Copy, Debug, PartialEq, Eq, Structural)]
pub struct AccountRecord {
    /// The account's transaction count; never mutated here.
    pub nonce: u128,
    /// The account's unified high-precision balance.
    pub balance: Composed,
}

/// Why a transfer was refused.
#[derive(Clone, Copy, Debug, PartialEq, Eq, Structural)]
pub enum TransferError {
    /// The source's unified balance is smaller than the amount asked for.
    InsufficientFunds,
}

/// The remainder-store operations of one currency.
///
/// Each implementor owns one of the two remainder stores inside a
/// [`LedgerState`] and reads or writes only that store.
pub trait RemainBalanceOp {
    /// Which currency's remainder store the operations touch.
    spec fn currency() -> CurrencyKind;

    /// The currency, as a runtime value.
    fn currency_kind() -> (r: CurrencyKind)
        ensures
            r == Self::currency(),
    ;

    /// Get the remaining balance.
    fn remaining_balance(state: &LedgerState, account_id: u64) -> (r: u128)
        ensures
            r == state.remainder_of(Self::currency(), account_id),
    ;

    /// Set the remaining balance.
    fn set_remaining_balance(state: &mut LedgerState, account_id: u64, value: u128)
        ensures
            final(state).remainders(Self::currency()).entry_view() == old(state).remainders(
                Self::currency(),
            ).entry_view().insert(account_id, value),
            only_remainder_changed(*old(state), *final(state), Self::currency()),
    ;

    /// Remove the remaining balance.
    fn remove_remaining_balance(state: &mut LedgerState, account_id: u64)
        ensures
            final(state).remainders(Self::currency()).entry_view() == old(state).remainders(
                Self::currency(),
            ).entry_view().remove(account_id),
            only_remainder_changed(*old(state), *final(state), Self::currency()),
    ;

    /// Inc remaining balance, clamping at the top of the balance type.
    fn inc_remaining_balance(state: &mut LedgerState, account_id: u64, value: u128)
        ensures
            final(state).remainders(Self::currency()).entry_view() == old(state).remainders(
                Self::currency(),
            ).entry_view().insert(
                account_id,
                sat_add_u128(old(state).remainder_of(Self::currency(), account_id), value),
            ),
            only_remainder_changed(*old(state), *final(state), Self::currency()),
    ;

    /// Dec remaining balance, clamping at zero.
    fn dec_remaining_balance(state: &mut LedgerState, account_id: u64, value: u128)
        ensures
            final(state).remainders(Self::currency()).entry_view() == old(state).remainders(
                Self::currency(),
            ).entry_view().insert(
                account_id,
                sat_sub_u128(old(state).remainder_of(Self::currency(), account_id), value),
            ),
            only_remainder_changed(*old(state), *final(state), Self::currency()),
    ;
}

/// Remainder-store operations of the first currency.
pub struct XorRemainBalance;

impl RemainBalanceOp for XorRemainBalance {
    open spec fn currency() -> CurrencyKind {
        CurrencyKind::Xor
    }

    fn currency_kind() -> CurrencyKind {
        CurrencyKind::Xor
    }

    fn remaining_balance(state: &LedgerState, account_id: u64) -> u128 {
        state.xor_remainders.get(account_id)
    }

    fn set_remaining_balance(state: &mut LedgerState, account_id: u64, value: u128) {
        state.xor_remainders.set(account_id, value);
    }

    fn remove_remaining_balance(state: &mut LedgerState, account_id: u64) {
        state.xor_remainders.remove(account_id);
    }

    fn inc_remaining_balance(state: &mut LedgerState, account_id: u64, value: u128) {
        state.xor_remainders.saturating_increase(account_id, value);
    }

    fn dec_remaining_balance(state: &mut LedgerState, account_id: u64, value: u128) {
        state.xor_remainders.saturating_decrease(account_id, value);
    }
}

/// Remainder-store operations of the second currency.
pub struct OxorRemainBalance;

impl RemainBalanceOp for OxorRemainBalance {
    open spec fn currency() -> CurrencyKind {
        CurrencyKind::Oxor
    }

    fn currency_kind() -> CurrencyKind {
        CurrencyKind::Oxor
    }

    fn remaining_balance(state: &LedgerState, account_id: u64) -> u128 {
        state.oxor_remainders.get(account_id)
    }

    fn set_remaining_balance(state: &mut LedgerState, account_id: u64, value: u128) {
        state.oxor_remainders.set(account_id, value);
    }

    fn remove_remaining_balance(state: &mut LedgerState, account_id: u64) {
        state.oxor_remainders.remove(account_id);
    }

    fn inc_remaining_balance(state: &mut LedgerState, account_id: u64, value: u128) {
        state.oxor_remainders.saturating_increase(account_id, value);
    }

    fn dec_remaining_balance(state: &mut LedgerState, account_id: u64, value: u128) {
        state.oxor_remainders.saturating_decrease(account_id, value);
    }
}

/// Everything a write to `who`'s balance in currency `c` may not touch:
/// nonces, the configured minimums, the other currency's ledger, and every
/// other account's balances and remainders.
pub open spec fn mutation_frame(
    pre: LedgerState,
    post: LedgerState,
    c: CurrencyKind,
    who: u64,
) -> bool {
    &&& post.nonces == pre.nonces
    &&& post.xor_minimum == pre.xor_minimum
    &&& post.oxor_minimum == pre.oxor_minimum
    &&& post.balances(other_currency(c)) == pre.balances(other_currency(c))
    &&& forall|w: u64| w != who ==> #[trigger] post.balance_of(c, w) == pre.balance_of(c, w)
    &&& forall|k: CurrencyKind, w: u64|
        w != who ==> #[trigger] post.remainder_of(k, w) == pre.remainder_of(k, w)
    &&& forall|k: CurrencyKind, w: u64|
        w != who ==> #[trigger] post.has_remainder(k, w) == pre.has_remainder(k, w)
}

/// Everything a transfer from `source` to `target` in currency `c` may
/// not touch: nonces, the configured minimums, the other currency's
/// ledger, and every third account's balances and remainders.
pub open spec fn transfer_frame(
    pre: LedgerState,
    post: LedgerState,
    c: CurrencyKind,
    source: u64,
    target: u64,
) -> bool {
    &&& post.nonces == pre.nonces
    &&& post.xor_minimum == pre.xor_minimum
    &&& post.oxor_minimum == pre.oxor_minimum
    &&& post.balances(other_currency(c)) == pre.balances(other_currency(c))
    &&& forall|w: u64|
        w != source && w != target ==> #[trigger] post.balance_of(c, w) == pre.balance_of(c, w)
    &&& forall|k: CurrencyKind, w: u64|
        w != source && w != target ==> #[trigger] post.remainder_of(k, w) == pre.remainder_of(
            k,
            w,
        )
    &&& forall|k: CurrencyKind, w: u64|
        w != source && w != target ==> #[trigger] post.has_remainder(k, w) == pre.has_remainder(
            k,
            w,
        )
}

/// Whether writing `target` unified units to `who` in currency `c` ends in
/// the cleanup purging the remainder entries: both currencies' unified
/// balances would rest strictly below their minimum-existence threshold.
pub open spec fn purges(pre: LedgerState, c: CurrencyKind, who: u64, target: int) -> bool {
    let xor_after = if c == CurrencyKind::Xor {
        target
    } else {
        pre.composed_of(CurrencyKind::Xor, who)
    };
    let oxor_after = if c == CurrencyKind::Oxor {
        target
    } else {
        pre.composed_of(CurrencyKind::Oxor, who)
    };
    xor_after < pre.min_composed(CurrencyKind::Xor) && oxor_after < pre.min_composed(
        CurrencyKind::Oxor,
    )
}

/// What a write of `target` unified units to `who` in currency `c` leaves
/// behind for that account. On no change, nothing moves. Otherwise the
/// coarse ledger holds exactly the whole coarse units of `target`; the
/// remainder entry holds the sub-unit part, unless the cleanup rule fires,
/// in which case both currencies' remainder entries are gone.
pub open spec fn account_written(
    pre: LedgerState,
    post: LedgerState,
    c: CurrencyKind,
    who: u64,
    target: int,
) -> bool {
    let oc = other_currency(c);
    if target == pre.composed_of(c, who) {
        &&& post.balance_of(c, who) == pre.balance_of(c, who)
        &&& post.balance_of(oc, who) == pre.balance_of(oc, who)
        &&& post.remainder_of(c, who) == pre.remainder_of(c, who)
        &&& post.remainder_of(oc, who) == pre.remainder_of(oc, who)
        &&& post.has_remainder(c, who) == pre.has_remainder(c, who)
        &&& post.has_remainder(oc, who) == pre.has_remainder(oc, who)
    } else {
        &&& post.balance_of(c, who) == target / (POW_9 as int)
        &&& post.balance_of(oc, who) == pre.balance_of(oc, who)
        &&& if purges(pre, c, who, target) {
            !post.has_remainder(CurrencyKind::Xor, who) && !post.has_remainder(
                CurrencyKind::Oxor,
                who,
            )
        } else {
            &&& post.remainder_of(c, who) == target % (POW_9 as int)
            &&& post.has_remainder(c, who)
            &&& post.remainder_of(oc, who) == pre.remainder_of(oc, who)
            &&& post.has_remainder(oc, who) == pre.has_remainder(oc, who)
        }
    }
}

/// An account's unified balance in one currency, read from the ledger and
/// the remainder store.
fn composed_for(state: &LedgerState, c: CurrencyKind, who: u64) -> (r: Composed)
    requires
        state.wf(),
    ensures
        r.valid(),
        r.whole == state.balance_of(c, who),
        r.frac == state.remainder_of(c, who),
        r.value() == state.composed_of(c, who),
{
    let bal = state.free_balance(c, who);
    let rem = state.remaining_of(c, who);
    proof {
        assert(state.remainders(c).read(who) < POW_9);
    }
    Composed::new(bal, rem)
}

/// The account-facing operations of one currency's bridge: read the
/// unified record, write a requested record, transfer between accounts.
pub struct DvmAccountBasic;

impl DvmAccountBasic {
    /// Get the account basic: the nonce and the unified balance, composed
    /// from the coarse ledger balance and the remainder.
    pub fn account_basic<RB: RemainBalanceOp>(state: &LedgerState, account_id: u64) -> (r:
        AccountRecord)
        requires
            state.wf(),
        ensures
            r.nonce == state.nonce_of(account_id),
            r.balance.valid(),
            r.balance.whole == state.balance_of(RB::currency(), account_id),
            r.balance.frac == state.remainder_of(RB::currency(), account_id),
            r.balance.value() == state.composed_of(RB::currency(), account_id),
    {
        let kind = RB::currency_kind();
        let nonce = state.account_nonce(account_id);
        let balance = state.free_balance(kind, account_id);
        let remaining = RB::remaining_balance(state, account_id);
        proof {
            assert(state.remainders(RB::currency()).read(account_id) < POW_9);
        }
        AccountRecord { nonce, balance: Composed::new(balance, remaining) }
    }

    /// Mutate the basic account: split the difference between the
    /// requested and the current unified balance into a coarse-ledger
    /// change and a remainder change, apply both, then run the
    /// minimum-existence cleanup. The nonce is never written. A request
    /// equal to the current balance writes nothing at all.
    pub fn mutate_account_basic<RB: RemainBalanceOp>(
        state: &mut LedgerState,
        account_id: u64,
        new: AccountRecord,
    )
        requires
            old(state).wf(),
            new.balance.valid(),
        ensures
            final(state).wf(),
            mutation_frame(*old(state), *final(state), RB::currency(), account_id),
            account_written(
                *old(state),
                *final(state),
                RB::currency(),
                account_id,
                new.balance.value(),
            ),
            new.balance.value() == old(state).composed_of(RB::currency(), account_id)
                ==> *final(state) == *old(state),
            new.balance.value() != old(state).composed_of(RB::currency(), account_id) && !purges(
                *old(state),
                RB::currency(),
                account_id,
                new.balance.value(),
            ) ==> final(state).composed_of(RB::currency(), account_id) == new.balance.value(),
    {
        let ghost c = RB::currency();
        let ghost oc = other_currency(c);
        let ghost pre = *state;
        let kind = RB::currency_kind();
        let current = Self::account_basic::<RB>(state, account_id);
        let dvm_balance = RB::remaining_balance(state, account_id);
        let nb = new.balance;
        let cb = current.balance;
        let ghost target = nb.value();

        if nb.lt(&cb) {
            // Net decrease: slash the coarse ledger, then settle the remainder.
            let diff = cb.sub(&nb);
            let split = decompose_delta(Direction::Decrease, diff, dvm_balance);
            proof {
                lemma_value_nonneg(nb);
                lemma_value_order(cb, diff);
                assert(diff.whole <= cb.whole);
                if split.carry_or_borrow {
                    assert(cb.frac < diff.frac);
                    assert(diff.whole < cb.whole);
                    assert(split.coarse == diff.whole + 1);
                    assert(target == (cb.whole - diff.whole - 1) * POW_9 + (cb.frac + POW_9
                        - diff.frac)) by (nonlinear_arith)
                        requires
                            target == cb.value() - diff.value(),
                            cb.value() == cb.whole * POW_9 + cb.frac,
                            diff.value() == diff.whole * POW_9 + diff.frac,
                    ;
                    lemma_recompose(
                        cb.whole - diff.whole - 1,
                        cb.frac + POW_9 - diff.frac,
                        target,
                    );
                } else {
                    assert(split.coarse == diff.whole);
                    assert(target == (cb.whole - diff.whole) * POW_9 + (cb.frac - diff.frac))
                        by (nonlinear_arith)
                        requires
                            target == cb.value() - diff.value(),
                            cb.value() == cb.whole * POW_9 + cb.frac,
                            diff.value() == diff.whole * POW_9 + diff.frac,
                    ;
                    lemma_recompose(cb.whole - diff.whole, cb.frac - diff.frac, target);
                }
                lemma_unique_split(nb.whole, nb.frac, target);
            }
            state.slash(kind, account_id, split.coarse);
            if split.carry_or_borrow {
                RB::set_remaining_balance(state, account_id, split.remainder_after);
            } else {
                RB::dec_remaining_balance(state, account_id, diff.frac);
            }
            proof {
                assert(state.balance_of(c, account_id) == nb.whole);
                assert(state.remainder_of(c, account_id) == nb.frac);
            }
        } else if cb.lt(&nb) {
            // Net increase: deposit into the coarse ledger, then settle
            // the remainder.
            let diff = nb.sub(&cb);
            let split = decompose_delta(Direction::Increase, diff, dvm_balance);
            proof {
                lemma_unique_split(nb.whole, nb.frac, target);
                if split.carry_or_borrow {
                    assert(target == (cb.whole + diff.whole + 1) * POW_9 + (cb.frac + diff.frac
                        - POW_9)) by (nonlinear_arith)
                        requires
                            target == cb.value() + diff.value(),
                            cb.value() == cb.whole * POW_9 + cb.frac,
                            diff.value() == diff.whole * POW_9 + diff.frac,
                    ;
                    lemma_recompose(
                        cb.whole + diff.whole + 1,
                        cb.frac + diff.frac - POW_9,
                        target,
                    );
                    assert(cb.whole + diff.whole + 1 == nb.whole);
                    assert(split.coarse == diff.whole + 1);
                } else {
                    assert(target == (cb.whole + diff.whole) * POW_9 + (cb.frac + diff.frac))
                        by (nonlinear_arith)
                        requires
                            target == cb.value() + diff.value(),
                            cb.value() == cb.whole * POW_9 + cb.frac,
                            diff.value() == diff.whole * POW_9 + diff.frac,
                    ;
                    lemma_recompose(cb.whole + diff.whole, cb.frac + diff.frac, target);
                    assert(cb.whole + diff.whole == nb.whole);
                    assert(split.coarse == diff.whole);
                }
            }
            state.deposit_creating(kind, account_id, split.coarse);
            if split.carry_or_borrow {
                RB::set_remaining_balance(state, account_id, split.remainder_after);
            } else {
                RB::inc_remaining_balance(state, account_id, diff.frac);
            }
            proof {
                assert(state.balance_of(c, account_id) == nb.whole);
                assert(state.remainder_of(c, account_id) == nb.frac);
            }
        } else {
            // Equal unified balances: nothing to write.
            return ;
        }

        proof {
            assert(state.has_remainder(c, account_id));
            assert(state.remainders(c).entry_view() == pre.remainders(c).entry_view().insert(
                account_id,
                nb.frac,
            ));
            crate::store::lemma_bounded_after_insert(
                pre.remainders(c),
                state.remainders(c),
                account_id,
                nb.frac,
                POW_9,
            );
            assert(state.wf());
            assert(state.remainders(oc) == pre.remainders(oc));
            assert(state.composed_of(oc, account_id) == pre.composed_of(oc, account_id));
            assert(state.composed_of(c, account_id) == target);
        }
        let ghost mid = *state;

        // Existential-deposit cleanup: when both currencies' unified
        // balances rest below their minimum, purge both remainder entries.
        let xor_acct = composed_for(state, CurrencyKind::Xor, account_id);
        let oxor_acct = composed_for(state, CurrencyKind::Oxor, account_id);
        let xor_min = Composed::new(state.minimum_balance(CurrencyKind::Xor), 0);
        let oxor_min = Composed::new(state.minimum_balance(CurrencyKind::Oxor), 0);
        let below_xor = xor_acct.lt(&xor_min);
        let below_oxor = oxor_acct.lt(&oxor_min);
        proof {
            assert((below_xor && below_oxor) == purges(pre, c, account_id, target));
        }
        if below_xor && below_oxor {
            XorRemainBalance::remove_remaining_balance(state, account_id);
            OxorRemainBalance::remove_remaining_balance(state, account_id);
            proof {
                crate::store::lemma_bounded_after_remove(
                    mid.remainders(CurrencyKind::Xor),
                    state.remainders(CurrencyKind::Xor),
                    account_id,
                    POW_9,
                );
                crate::store::lemma_bounded_after_remove(
                    mid.remainders(CurrencyKind::Oxor),
                    state.remainders(CurrencyKind::Oxor),
                    account_id,
                    POW_9,
                );
                assert(!state.has_remainder(CurrencyKind::Xor, account_id));
                assert(!state.has_remainder(CurrencyKind::Oxor, account_id));
                assert(state.balance_of(c, account_id) == nb.whole);
            }
        }

        proof {
            lemma_unique_split(nb.whole, nb.frac, target);
        }
    }

    /// Transfer between two accounts: refuse with `InsufficientFunds`
    /// when the source's unified balance is short of the amount, writing
    /// nothing; otherwise debit the source, then credit the target, each
    /// write running the usual minimum-existence cleanup on its account.
    pub fn transfer<RB: RemainBalanceOp>(
        state: &mut LedgerState,
        source: u64,
        target: u64,
        value: Composed,
    ) -> (r: Result<(), TransferError>)
        requires
            old(state).wf(),
            value.valid(),
        ensures
            final(state).wf(),
            r is Err <==> old(state).composed_of(RB::currency(), source) < value.value(),
            r is Err ==> *final(state) == *old(state) && r == Err::<(), TransferError>(
                TransferError::InsufficientFunds,
            ),
            r is Ok && source != target ==> {
                &&& transfer_frame(*old(state), *final(state), RB::currency(), source, target)
                &&& account_written(
                    *old(state),
                    *final(state),
                    RB::currency(),
                    source,
                    old(state).composed_of(RB::currency(), source) - value.value(),
                )
                &&& account_written(
                    *old(state),
                    *final(state),
                    RB::currency(),
                    target,
                    sat_to_max(old(state).composed_of(RB::currency(), target) + value.value()),
                )
            },
            r is Ok && source == target ==> mutation_frame(
                *old(state),
                *final(state),
                RB::currency(),
                source,
            ),
            // A transfer to the account itself is the same two writes in
            // sequence: debit, then credit what the debit left behind.
            r is Ok && source == target ==> exists|m: LedgerState|
                {
                    &&& #[trigger] account_written(
                        *old(state),
                        m,
                        RB::currency(),
                        source,
                        old(state).composed_of(RB::currency(), source) - value.value(),
                    )
                    &&& mutation_frame(*old(state), m, RB::currency(), source)
                    &&& m.wf()
                    &&& account_written(
                        m,
                        *final(state),
                        RB::currency(),
                        source,
                        sat_to_max(m.composed_of(RB::currency(), source) + value.value()),
                    )
                    &&& mutation_frame(m, *final(state), RB::currency(), source)
                },
    {
        let ghost c = RB::currency();
        let ghost oc = other_currency(c);
        let ghost pre = *state;
        let source_account = Self::account_basic::<RB>(state, source);
        if source_account.balance.lt(&value) {
            return Err(TransferError::InsufficientFunds);
        }
        let new_source_balance = source_account.balance.sub(&value);
        let ghost sv = pre.composed_of(c, source) - value.value();
        Self::mutate_account_basic::<RB>(
            state,
            source,
            AccountRecord { nonce: source_account.nonce, balance: new_source_balance },
        );
        let ghost mid = *state;
        let target_account = Self::account_basic::<RB>(state, target);
        let new_target_balance = target_account.balance.saturating_add(&value);
        let ghost tv = sat_to_max(pre.composed_of(c, target) + value.value());
        Self::mutate_account_basic::<RB>(
            state,
            target,
            AccountRecord { nonce: target_account.nonce, balance: new_target_balance },
        );
        proof {
            if source == target {
                assert(account_written(pre, mid, c, source, pre.composed_of(c, source)
                    - value.value()));
                assert(mutation_frame(pre, mid, c, source));
                assert(mid.wf());
                assert(new_target_balance.value() == sat_to_max(
                    mid.composed_of(c, source) + value.value(),
                ));
                assert(account_written(
                    mid,
                    *state,
                    c,
                    source,
                    sat_to_max(mid.composed_of(c, source) + value.value()),
                ));
                assert(mutation_frame(mid, *state, c, source));
            }
            if source != target {
                assert(mid.balance_of(c, target) == pre.balance_of(c, target));
                assert(mid.balance_of(oc, target) == pre.balance_of(oc, target));
                assert(mid.remainder_of(c, target) == pre.remainder_of(c, target));
                assert(mid.remainder_of(oc, target) == pre.remainder_of(oc, target));
                assert(mid.has_remainder(c, target) == pre.has_remainder(c, target));
                assert(mid.has_remainder(oc, target) == pre.has_remainder(oc, target));
                assert(mid.composed_of(c, target) == pre.composed_of(c, target));
                assert(mid.composed_of(oc, target) == pre.composed_of(oc, target));
                assert(new_target_balance.value() == tv);
                assert(purges(mid, c, target, tv) == purges(pre, c, target, tv));
                assert(account_written(pre, *state, c, target, tv));
                assert(state.balance_of(c, source) == mid.balance_of(c, source));
                assert(state.balance_of(oc, source) == mid.balance_of(oc, source));
                assert(state.remainder_of(c, source) == mid.remainder_of(c, source));
                assert(state.remainder_of(oc, source) == mid.remainder_of(oc, source));
                assert(state.has_remainder(c, source) == mid.has_remainder(c, source));
                assert(state.has_remainder(oc, source) == mid.has_remainder(oc, source));
                assert(account_written(pre, *state, c, source, sv));
            }
        }
        Ok(())
    }
}

} // verus!
