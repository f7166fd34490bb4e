use dvm::account::{
    AccountRecord, DvmAccountBasic, OxorRemainBalance, RemainBalanceOp, TransferError,
    XorRemainBalance,
};
use dvm::bridge::{Composed, POW_9};
use dvm::state::{CurrencyKind, LedgerState};

#[test]
fn remainder_store_crud() {
    let mut state = LedgerState::new(0, 0);
    assert_eq!(XorRemainBalance::remaining_balance(&state, 7), 0);
    XorRemainBalance::set_remaining_balance(&mut state, 7, 500);
    assert_eq!(XorRemainBalance::remaining_balance(&state, 7), 500);
    // The two currencies' stores are independent.
    assert_eq!(OxorRemainBalance::remaining_balance(&state, 7), 0);
    XorRemainBalance::inc_remaining_balance(&mut state, 7, 40);
    assert_eq!(XorRemainBalance::remaining_balance(&state, 7), 540);
    XorRemainBalance::dec_remaining_balance(&mut state, 7, 40);
    assert_eq!(XorRemainBalance::remaining_balance(&state, 7), 500);
    // The decrement clamps at zero, the increment at the top.
    XorRemainBalance::dec_remaining_balance(&mut state, 7, 1_000);
    assert_eq!(XorRemainBalance::remaining_balance(&state, 7), 0);
    XorRemainBalance::inc_remaining_balance(&mut state, 7, u128::MAX);
    XorRemainBalance::inc_remaining_balance(&mut state, 7, 1);
    assert_eq!(XorRemainBalance::remaining_balance(&state, 7), u128::MAX);
    XorRemainBalance::remove_remaining_balance(&mut state, 7);
    assert_eq!(XorRemainBalance::remaining_balance(&state, 7), 0);
    assert!(!state.has_remainder_entry(CurrencyKind::Xor, 7));
}

#[test]
fn account_basic_composes_ledger_and_remainder() {
    let mut state = LedgerState::new(0, 0);
    state.set_nonce(1, 3);
    state.deposit_creating(CurrencyKind::Xor, 1, 5);
    XorRemainBalance::set_remaining_balance(&mut state, 1, 42);
    let record = DvmAccountBasic::account_basic::<XorRemainBalance>(&state, 1);
    assert_eq!(record.nonce, 3);
    assert_eq!(record.balance, Composed::new(5, 42));
    // The other currency's bridge sees its own, empty ledger.
    let other = DvmAccountBasic::account_basic::<OxorRemainBalance>(&state, 1);
    assert_eq!(other.nonce, 3);
    assert_eq!(other.balance, Composed::new(0, 0));
}

#[test]
fn mutate_increase_without_carry_fills_the_remainder() {
    let mut state = LedgerState::new(0, 0);
    let record = AccountRecord { nonce: 0, balance: Composed::from_value(1_000) };
    DvmAccountBasic::mutate_account_basic::<XorRemainBalance>(&mut state, 1, record);
    assert_eq!(state.free_balance(CurrencyKind::Xor, 1), 0);
    assert_eq!(XorRemainBalance::remaining_balance(&state, 1), 1_000);
    assert!(state.has_remainder_entry(CurrencyKind::Xor, 1));
}

#[test]
fn mutate_increase_carries_into_the_ledger() {
    let mut state = LedgerState::new(0, 0);
    state.deposit_creating(CurrencyKind::Xor, 1, 5);
    XorRemainBalance::set_remaining_balance(&mut state, 1, POW_9 - 1);
    // Increase the unified balance by two sub-units across the boundary.
    let record = AccountRecord { nonce: 0, balance: Composed::new(6, 1) };
    DvmAccountBasic::mutate_account_basic::<XorRemainBalance>(&mut state, 1, record);
    assert_eq!(state.free_balance(CurrencyKind::Xor, 1), 6);
    assert_eq!(XorRemainBalance::remaining_balance(&state, 1), 1);
}

#[test]
fn mutate_decrease_borrows_from_the_ledger() {
    let mut state = LedgerState::new(0, 0);
    state.deposit_creating(CurrencyKind::Xor, 1, 5);
    // Decrease the unified balance by one sub-unit out of an exact ledger
    // balance: one coarse unit is broken up.
    let record = AccountRecord { nonce: 0, balance: Composed::new(4, POW_9 - 1) };
    DvmAccountBasic::mutate_account_basic::<XorRemainBalance>(&mut state, 1, record);
    assert_eq!(state.free_balance(CurrencyKind::Xor, 1), 4);
    assert_eq!(XorRemainBalance::remaining_balance(&state, 1), POW_9 - 1);
}

#[test]
fn mutate_with_current_balance_writes_nothing() {
    let mut state = LedgerState::new(1, 1);
    state.set_nonce(1, 9);
    state.deposit_creating(CurrencyKind::Xor, 1, 2);
    XorRemainBalance::set_remaining_balance(&mut state, 1, 77);
    let before = DvmAccountBasic::account_basic::<XorRemainBalance>(&state, 1);
    DvmAccountBasic::mutate_account_basic::<XorRemainBalance>(&mut state, 1, before);
    // Nothing moved, and in particular no remainder entry appeared or
    // disappeared even though both balances sit below the minimums.
    let after = DvmAccountBasic::account_basic::<XorRemainBalance>(&state, 1);
    assert_eq!(after, before);
    assert!(state.has_remainder_entry(CurrencyKind::Xor, 1));
    assert!(!state.has_remainder_entry(CurrencyKind::Oxor, 1));

    // The same request on an untouched account creates no entry either.
    let empty = DvmAccountBasic::account_basic::<XorRemainBalance>(&state, 2);
    DvmAccountBasic::mutate_account_basic::<XorRemainBalance>(&mut state, 2, empty);
    assert!(!state.has_remainder_entry(CurrencyKind::Xor, 2));
}

#[test]
fn cleanup_purges_both_remainders_below_both_minimums() {
    let mut state = LedgerState::new(1, 1);
    XorRemainBalance::set_remaining_balance(&mut state, 1, 500);
    OxorRemainBalance::set_remaining_balance(&mut state, 1, 300);
    // Debit the account below the minimum of its only funded currency:
    // with both unified balances below their minimums, both remainder
    // entries are purged.
    let record = AccountRecord { nonce: 0, balance: Composed::from_value(400) };
    DvmAccountBasic::mutate_account_basic::<XorRemainBalance>(&mut state, 1, record);
    assert!(!state.has_remainder_entry(CurrencyKind::Xor, 1));
    assert!(!state.has_remainder_entry(CurrencyKind::Oxor, 1));
    assert_eq!(XorRemainBalance::remaining_balance(&state, 1), 0);
    assert_eq!(OxorRemainBalance::remaining_balance(&state, 1), 0);
}

#[test]
fn cleanup_keeps_remainders_above_either_minimum() {
    let mut state = LedgerState::new(1, 1);
    state.deposit_creating(CurrencyKind::Xor, 1, 2);
    XorRemainBalance::set_remaining_balance(&mut state, 1, 500);
    OxorRemainBalance::set_remaining_balance(&mut state, 1, 300);
    // Debit within the same coarse unit: the unified balance stays above
    // the minimum, so both remainder entries survive.
    let record = AccountRecord { nonce: 0, balance: Composed::new(2, 300) };
    DvmAccountBasic::mutate_account_basic::<XorRemainBalance>(&mut state, 1, record);
    assert_eq!(state.free_balance(CurrencyKind::Xor, 1), 2);
    assert_eq!(XorRemainBalance::remaining_balance(&state, 1), 300);
    assert!(state.has_remainder_entry(CurrencyKind::Xor, 1));
    assert!(state.has_remainder_entry(CurrencyKind::Oxor, 1));
    assert_eq!(OxorRemainBalance::remaining_balance(&state, 1), 300);
}

#[test]
fn transfer_moves_the_whole_balance() {
    let mut state = LedgerState::new(0, 0);
    XorRemainBalance::set_remaining_balance(&mut state, 1, 1_000);
    let r = DvmAccountBasic::transfer::<XorRemainBalance>(&mut state, 1, 2, Composed::from_value(1_000));
    assert_eq!(r, Ok(()));
    let source = DvmAccountBasic::account_basic::<XorRemainBalance>(&state, 1);
    let target = DvmAccountBasic::account_basic::<XorRemainBalance>(&state, 2);
    assert_eq!(source.balance, Composed::new(0, 0));
    assert_eq!(target.balance, Composed::new(0, 1_000));
}

#[test]
fn transfer_cleans_up_an_emptied_source() {
    let mut state = LedgerState::new(1, 1);
    state.deposit_creating(CurrencyKind::Xor, 1, 2);
    let r = DvmAccountBasic::transfer::<XorRemainBalance>(
        &mut state,
        1,
        2,
        Composed::new(2, 0),
    );
    assert_eq!(r, Ok(()));
    // The source fell below both minimums: its remainder entries are gone.
    assert_eq!(state.free_balance(CurrencyKind::Xor, 1), 0);
    assert!(!state.has_remainder_entry(CurrencyKind::Xor, 1));
    assert!(!state.has_remainder_entry(CurrencyKind::Oxor, 1));
    // The target holds the full amount, above the minimum.
    assert_eq!(state.free_balance(CurrencyKind::Xor, 2), 2);
    assert_eq!(XorRemainBalance::remaining_balance(&state, 2), 0);
}

#[test]
fn transfer_to_self_debits_and_credits_back() {
    let mut state = LedgerState::new(0, 0);
    state.deposit_creating(CurrencyKind::Xor, 1, 3);
    XorRemainBalance::set_remaining_balance(&mut state, 1, 7);
    let r = DvmAccountBasic::transfer::<XorRemainBalance>(&mut state, 1, 1, Composed::new(1, 2));
    assert_eq!(r, Ok(()));
    assert_eq!(state.free_balance(CurrencyKind::Xor, 1), 3);
    assert_eq!(XorRemainBalance::remaining_balance(&state, 1), 7);
}

#[test]
fn transfer_with_insufficient_funds_mutates_nothing() {
    let mut state = LedgerState::new(0, 0);
    XorRemainBalance::set_remaining_balance(&mut state, 1, 1_000);
    let r = DvmAccountBasic::transfer::<XorRemainBalance>(&mut state, 1, 2, Composed::from_value(1_001));
    assert_eq!(r, Err(TransferError::InsufficientFunds));
    let source = DvmAccountBasic::account_basic::<XorRemainBalance>(&state, 1);
    let target = DvmAccountBasic::account_basic::<XorRemainBalance>(&state, 2);
    assert_eq!(source.balance, Composed::new(0, 1_000));
    assert_eq!(target.balance, Composed::new(0, 0));
    assert!(!state.has_remainder_entry(CurrencyKind::Xor, 2));
}

#[test]
fn transfer_of_zero_changes_nothing() {
    let mut state = LedgerState::new(0, 0);
    XorRemainBalance::set_remaining_balance(&mut state, 1, 50);
    let r = DvmAccountBasic::transfer::<XorRemainBalance>(&mut state, 1, 2, Composed::from_value(0));
    assert_eq!(r, Ok(()));
    assert_eq!(XorRemainBalance::remaining_balance(&state, 1), 50);
    assert_eq!(XorRemainBalance::remaining_balance(&state, 2), 0);
    assert!(!state.has_remainder_entry(CurrencyKind::Xor, 2));
}

#[test]
fn transfer_into_a_full_target_clamps_the_credit() {
    let mut state = LedgerState::new(0, 0);
    XorRemainBalance::set_remaining_balance(&mut state, 1, 1_000);
    state.deposit_creating(CurrencyKind::Xor, 2, u128::MAX);
    XorRemainBalance::set_remaining_balance(&mut state, 2, POW_9 - 1);
    // The target already holds the largest representable balance: the
    // credit clamps to it and becomes a write of the current balance,
    // while the source is still debited.
    let r = DvmAccountBasic::transfer::<XorRemainBalance>(&mut state, 1, 2, Composed::from_value(600));
    assert_eq!(r, Ok(()));
    assert_eq!(XorRemainBalance::remaining_balance(&state, 1), 400);
    assert_eq!(state.free_balance(CurrencyKind::Xor, 2), u128::MAX);
    assert_eq!(XorRemainBalance::remaining_balance(&state, 2), POW_9 - 1);
}

#[test]
fn mutate_never_touches_the_nonce_or_other_accounts() {
    let mut state = LedgerState::new(0, 0);
    state.set_nonce(1, 11);
    state.set_nonce(2, 22);
    XorRemainBalance::set_remaining_balance(&mut state, 2, 9);
    let record = AccountRecord { nonce: 777, balance: Composed::from_value(5) };
    DvmAccountBasic::mutate_account_basic::<XorRemainBalance>(&mut state, 1, record);
    // The record's nonce is ignored; the stored nonces and the other
    // account's remainder are untouched.
    assert_eq!(state.account_nonce(1), 11);
    assert_eq!(state.account_nonce(2), 22);
    assert_eq!(XorRemainBalance::remaining_balance(&state, 2), 9);
}
