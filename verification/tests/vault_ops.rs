// End-to-end exercises of the vault system: creation, funding, deposits and
// the four withdrawal guards, each checked against concrete expected values.

use treasury_your_wallet::treasury::Treasury;
use treasury_your_wallet::vault::CustomError;
use treasury_your_wallet::vault::Identity;

fn admin() -> Identity {
    Identity::from_word(1)
}

fn stranger() -> Identity {
    Identity::from_word(2)
}

/// A treasury holding one vault (cap 1_000_000, cooldown 3600) filled with
/// 2_000_000 by its administrator.
fn funded_vault() -> Treasury {
    let mut t = Treasury::new();
    assert_eq!(t.initialize_vault(admin(), 1_000_000, 3600), Ok(()));
    t.fund_holder(admin(), 2_000_000);
    assert_eq!(t.deposit_sol_to_vault(admin(), admin(), 2_000_000), Ok(()));
    t
}

#[test]
fn create_sets_fresh_record() {
    let mut t = Treasury::new();
    assert!(!t.vault_exists(admin()));
    assert_eq!(t.initialize_vault(admin(), 1_000_000, 3600), Ok(()));
    assert!(t.vault_exists(admin()));
    let v = t.vault_account(admin());
    assert_eq!(v.admin, admin());
    assert_eq!(v.last_withdraw_ts, 0);
    assert_eq!(v.max_withdraw, 1_000_000);
    assert_eq!(v.cooldown, 3600);
    assert_eq!(v.balance, 0);
}

#[test]
fn create_twice_fails_and_keeps_first_vault() {
    let mut t = Treasury::new();
    assert_eq!(t.initialize_vault(admin(), 1_000_000, 3600), Ok(()));
    assert_eq!(
        t.initialize_vault(admin(), 5, 5),
        Err(CustomError::AlreadyExists)
    );
    let v = t.vault_account(admin());
    assert_eq!(v.max_withdraw, 1_000_000);
    assert_eq!(v.cooldown, 3600);
    assert_eq!(v.last_withdraw_ts, 0);
    assert_eq!(v.balance, 0);
}

#[test]
fn deposit_moves_value_from_holder_to_vault() {
    let mut t = Treasury::new();
    assert_eq!(t.initialize_vault(admin(), 1_000_000, 3600), Ok(()));
    t.fund_holder(admin(), 2_000_000);
    assert_eq!(t.holder_balance(admin()), 2_000_000);
    assert_eq!(t.deposit_sol_to_vault(admin(), admin(), 2_000_000), Ok(()));
    assert_eq!(t.holder_balance(admin()), 0);
    assert_eq!(t.vault_account(admin()).balance, 2_000_000);
}

#[test]
fn deposit_is_open_to_any_caller() {
    let mut t = Treasury::new();
    assert_eq!(t.initialize_vault(admin(), 1_000_000, 3600), Ok(()));
    t.fund_holder(stranger(), 700);
    assert_eq!(t.deposit_sol_to_vault(stranger(), admin(), 700), Ok(()));
    assert_eq!(t.vault_account(admin()).balance, 700);
    assert_eq!(t.holder_balance(stranger()), 0);
}

#[test]
fn deposit_of_zero_is_invalid() {
    let mut t = funded_vault();
    assert_eq!(
        t.deposit_sol_to_vault(admin(), admin(), 0),
        Err(CustomError::InvalidAmount)
    );
    assert_eq!(t.vault_account(admin()).balance, 2_000_000);
}

#[test]
fn deposit_beyond_holding_fails() {
    let mut t = Treasury::new();
    assert_eq!(t.initialize_vault(admin(), 1_000_000, 3600), Ok(()));
    t.fund_holder(stranger(), 100);
    assert_eq!(
        t.deposit_sol_to_vault(stranger(), admin(), 101),
        Err(CustomError::InsufficientCallerFunds)
    );
    assert_eq!(
        t.deposit_sol_to_vault(admin(), admin(), 1),
        Err(CustomError::InsufficientCallerFunds)
    );
    assert_eq!(t.vault_account(admin()).balance, 0);
    assert_eq!(t.holder_balance(stranger()), 100);
}

#[test]
fn first_withdrawal_is_never_rate_limited() {
    let mut t = funded_vault();
    assert_eq!(
        t.withdraw_sol_from_vault(admin(), admin(), 1_000_000, 1000),
        Ok(())
    );
    let v = t.vault_account(admin());
    assert_eq!(v.balance, 1_000_000);
    assert_eq!(v.last_withdraw_ts, 1000);
    assert_eq!(t.holder_balance(admin()), 1_000_000);
}

#[test]
fn withdrawal_within_cooldown_is_too_early() {
    let mut t = funded_vault();
    assert_eq!(
        t.withdraw_sol_from_vault(admin(), admin(), 1_000_000, 1000),
        Ok(())
    );
    assert_eq!(
        t.withdraw_sol_from_vault(admin(), admin(), 500_000, 1500),
        Err(CustomError::TooEarlyToWithdraw)
    );
    let v = t.vault_account(admin());
    assert_eq!(v.balance, 1_000_000);
    assert_eq!(v.last_withdraw_ts, 1000);
}

#[test]
fn withdrawal_over_cap_is_refused_before_anything_else() {
    let mut t = funded_vault();
    assert_eq!(
        t.withdraw_sol_from_vault(admin(), admin(), 1_000_000, 1000),
        Ok(())
    );
    assert_eq!(
        t.withdraw_sol_from_vault(admin(), admin(), 1_000_001, 5000),
        Err(CustomError::ExceedsMaxWithdrawal)
    );
    assert_eq!(t.vault_account(admin()).balance, 1_000_000);
}

#[test]
fn withdrawal_by_non_admin_is_unauthorized() {
    let mut t = funded_vault();
    assert_eq!(
        t.withdraw_sol_from_vault(stranger(), admin(), 100, 0),
        Err(CustomError::Unauthorized)
    );
    assert_eq!(
        t.withdraw_sol_from_vault(stranger(), admin(), 100, 99_999),
        Err(CustomError::Unauthorized)
    );
    assert_eq!(t.vault_account(admin()).balance, 2_000_000);
    assert_eq!(t.vault_account(admin()).last_withdraw_ts, 0);
}

#[test]
fn withdrawal_beyond_balance_under_cap_is_insufficient() {
    let mut t = Treasury::new();
    assert_eq!(t.initialize_vault(admin(), 2_000_000, 3600), Ok(()));
    t.fund_holder(admin(), 1_000_000);
    assert_eq!(t.deposit_sol_to_vault(admin(), admin(), 1_000_000), Ok(()));
    assert_eq!(
        t.withdraw_sol_from_vault(admin(), admin(), 1_500_000, 1000),
        Err(CustomError::InsufficientFunds)
    );
    assert_eq!(t.vault_account(admin()).balance, 1_000_000);
    assert_eq!(t.vault_account(admin()).last_withdraw_ts, 0);
}

#[test]
fn withdrawal_at_exact_cooldown_boundary_is_eligible() {
    let mut t = funded_vault();
    assert_eq!(
        t.withdraw_sol_from_vault(admin(), admin(), 100, 1000),
        Ok(())
    );
    assert_eq!(
        t.withdraw_sol_from_vault(admin(), admin(), 100, 4599),
        Err(CustomError::TooEarlyToWithdraw)
    );
    assert_eq!(
        t.withdraw_sol_from_vault(admin(), admin(), 100, 4600),
        Ok(())
    );
    let v = t.vault_account(admin());
    assert_eq!(v.balance, 2_000_000 - 200);
    assert_eq!(v.last_withdraw_ts, 4600);
}

#[test]
fn withdrawal_at_exact_cap_passes_the_cap_guard() {
    let mut t = funded_vault();
    assert_eq!(
        t.withdraw_sol_from_vault(admin(), admin(), 1_000_000, 1000),
        Ok(())
    );
    assert_eq!(t.vault_account(admin()).balance, 1_000_000);
}

#[test]
fn zero_cooldown_allows_consecutive_withdrawals() {
    let mut t = Treasury::new();
    assert_eq!(t.initialize_vault(admin(), 1_000, 0), Ok(()));
    t.fund_holder(admin(), 3_000);
    assert_eq!(t.deposit_sol_to_vault(admin(), admin(), 3_000), Ok(()));
    assert_eq!(t.withdraw_sol_from_vault(admin(), admin(), 1_000, 50), Ok(()));
    assert_eq!(t.withdraw_sol_from_vault(admin(), admin(), 1_000, 50), Ok(()));
    assert_eq!(t.withdraw_sol_from_vault(admin(), admin(), 1_000, 51), Ok(()));
    assert_eq!(t.vault_account(admin()).balance, 0);
    assert_eq!(t.holder_balance(admin()), 3_000);
}

#[test]
fn balance_equals_deposits_minus_withdrawals() {
    let mut t = Treasury::new();
    assert_eq!(t.initialize_vault(admin(), 1_000_000, 0), Ok(()));
    t.fund_holder(admin(), 800);
    assert_eq!(t.deposit_sol_to_vault(admin(), admin(), 500), Ok(()));
    assert_eq!(t.deposit_sol_to_vault(admin(), admin(), 300), Ok(()));
    assert_eq!(t.withdraw_sol_from_vault(admin(), admin(), 200, 10), Ok(()));
    // refused requests contribute zero change
    assert_eq!(
        t.withdraw_sol_from_vault(stranger(), admin(), 50, 11),
        Err(CustomError::Unauthorized)
    );
    // the withdrawn 200 is back in the administrator's holding, no more
    assert_eq!(
        t.deposit_sol_to_vault(admin(), admin(), 201),
        Err(CustomError::InsufficientCallerFunds)
    );
    assert_eq!(t.vault_account(admin()).balance, 500 + 300 - 200);
    assert_eq!(t.holder_balance(admin()), 200);
}

#[test]
fn withdrawal_at_time_zero_keeps_the_sentinel() {
    let mut t = funded_vault();
    assert_eq!(t.withdraw_sol_from_vault(admin(), admin(), 100, 0), Ok(()));
    // the recorded time is the sentinel again, so no cooldown window opened
    assert_eq!(t.vault_account(admin()).last_withdraw_ts, 0);
    assert_eq!(t.withdraw_sol_from_vault(admin(), admin(), 100, 1), Ok(()));
    assert_eq!(t.vault_account(admin()).balance, 2_000_000 - 200);
}

#[test]
fn funding_accumulates_per_identity() {
    let mut t = Treasury::new();
    t.fund_holder(admin(), 40);
    t.fund_holder(stranger(), 5);
    t.fund_holder(admin(), 2);
    assert_eq!(t.holder_balance(admin()), 42);
    assert_eq!(t.holder_balance(stranger()), 5);
    assert_eq!(t.holder_balance(Identity::from_word(3)), 0);
}
