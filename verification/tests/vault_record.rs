// The vault record and the bare guard cascade, exercised directly.

use treasury_your_wallet::vault::CustomError;
use treasury_your_wallet::vault::Identity;
use treasury_your_wallet::vault::VaultAccount;
use treasury_your_wallet::vault::check_withdraw;

#[test]
fn identities_compare_by_value() {
    assert_eq!(Identity::from_word(7), Identity::from_word(7));
    assert_ne!(Identity::from_word(7), Identity::from_word(8));
    let full = Identity { w0: 1, w1: 2, w2: 3, w3: 4 };
    assert_ne!(full, Identity { w0: 1, w1: 2, w2: 3, w3: 5 });
}

#[test]
fn new_record_starts_empty_and_unwithdrawn() {
    let admin = Identity::from_word(9);
    let v = VaultAccount::new(admin, 550, 60);
    assert_eq!(v.admin, admin);
    assert_eq!(v.last_withdraw_ts, 0);
    assert_eq!(v.max_withdraw, 550);
    assert_eq!(v.cooldown, 60);
    assert_eq!(v.balance, 0);
}

#[test]
fn guards_fire_in_their_fixed_order() {
    let admin = Identity::from_word(1);
    let other = Identity::from_word(2);
    let mut v = VaultAccount::new(admin, 1_000, 3600);
    v.balance = 500;
    v.last_withdraw_ts = 10_000;

    // authorization comes first, even when the amount is over the cap too
    assert_eq!(
        check_withdraw(&v, other, 2_000, 10_000),
        Err(CustomError::Unauthorized)
    );
    // the cap comes before the cooldown and the balance
    assert_eq!(
        check_withdraw(&v, admin, 2_000, 10_000),
        Err(CustomError::ExceedsMaxWithdrawal)
    );
    // the cooldown comes before the balance
    assert_eq!(
        check_withdraw(&v, admin, 800, 10_001),
        Err(CustomError::TooEarlyToWithdraw)
    );
    // the balance is checked last
    assert_eq!(
        check_withdraw(&v, admin, 800, 13_600),
        Err(CustomError::InsufficientFunds)
    );
    // and with all four guards satisfied the attempt is allowed
    assert_eq!(check_withdraw(&v, admin, 500, 13_600), Ok(()));
}

#[test]
fn sentinel_exempts_only_the_first_withdrawal() {
    let admin = Identity::from_word(1);
    let mut v = VaultAccount::new(admin, 1_000, 3600);
    v.balance = 900;
    // never withdrawn: eligible however small `now` is
    assert_eq!(check_withdraw(&v, admin, 100, 5), Ok(()));
    // once a withdrawal time is recorded, the window applies
    v.last_withdraw_ts = 5;
    assert_eq!(
        check_withdraw(&v, admin, 100, 3_604),
        Err(CustomError::TooEarlyToWithdraw)
    );
    assert_eq!(check_withdraw(&v, admin, 100, 3_605), Ok(()));
}
