//! The vault record itself and the guard cascade that every withdrawal must
//! pass: authorization, cap, cooldown, liquidity — in that order.

use vstd::prelude::*;

verus! {

/// The identity of a participant: a depositor, or the creator and sole
/// administrator of a vault. Four 64-bit words, enough to carry a 256-bit
/// account address losslessly.
#[derive(Clone, Copy, PartialEq, Eq, Structural, Debug)]
pub struct Identity {
    pub w0: u64,
    pub w1: u64,
    pub w2: u64,
    pub w3: u64,
}

impl Identity {
    /// Convenience constructor for identities that fit one word.
    pub fn from_word(w: u64) -> (r: Identity)
        ensures
            r == (Identity { w0: w, w1: 0, w2: 0, w3: 0 }),
    {
        Identity { w0: w, w1: 0, w2: 0, w3: 0 }
    }
}

/// Why an operation was refused. Every guard reports its own kind, so a
/// caller always learns exactly which check failed; no failure moves value.
#[derive(Clone, Copy, PartialEq, Eq, Structural, Debug)]
pub enum CustomError {
    /// The vault holds less than the requested withdrawal.
    InsufficientFunds,
    /// The withdrawal caller is not the vault's administrator.
    Unauthorized,
    /// The requested amount exceeds the vault's per-withdrawal cap.
    ExceedsMaxWithdrawal,
    /// The cooldown window since the last withdrawal has not yet elapsed.
    TooEarlyToWithdraw,
    /// A vault for this administrator already exists.
    AlreadyExists,
    /// The depositor's own holding cannot cover the deposit.
    InsufficientCallerFunds,
    /// A zero amount was supplied where value has to move.
    InvalidAmount,
}

/// The persisted state of one vault: its administrator (fixed for the
/// vault's whole lifetime), the timestamp of the most recent successful
/// withdrawal (`0` meaning "never withdrawn"), the per-withdrawal cap, the
/// cooldown between withdrawals (both fixed at creation), and the value
/// currently stored.
#[derive(Clone, Copy, PartialEq, Eq, Structural, Debug)]
pub struct VaultAccount {
    pub admin: Identity,
    pub last_withdraw_ts: i64,
    pub max_withdraw: u64,
    pub cooldown: i64,
    pub balance: u64,
}

/// The mathematical model of one vault record, over unbounded integers.
pub struct VaultState {
    pub admin: Identity,
    pub last_withdraw_ts: int,
    pub max_withdraw: int,
    pub cooldown: int,
    pub balance: int,
}

impl View for VaultAccount {
    type V = VaultState;

    open spec fn view(&self) -> VaultState {
        VaultState {
            admin: self.admin,
            last_withdraw_ts: self.last_withdraw_ts as int,
            max_withdraw: self.max_withdraw as int,
            cooldown: self.cooldown as int,
            balance: self.balance as int,
        }
    }
}

/// The state a vault record has at the moment of its creation: owned by
/// `admin`, never withdrawn from, empty.
pub open spec fn fresh_vault(admin: Identity, max_withdraw: int, cooldown: int) -> VaultState {
    VaultState { admin, last_withdraw_ts: 0, max_withdraw, cooldown, balance: 0 }
}

impl VaultAccount {
    /// Allocate a fresh vault record for `admin` with the two caller-chosen
    /// policy parameters.
    pub fn new(admin: Identity, max_withdraw: u64, cooldown: i64) -> (r: VaultAccount)
        ensures
            r@ == fresh_vault(admin, max_withdraw as int, cooldown as int),
    {
        VaultAccount { admin, last_withdraw_ts: 0, max_withdraw, cooldown, balance: 0 }
    }
}

/// The withdrawal guard cascade in its fixed order: authorization, cap,
/// cooldown, liquidity. The first guard that fails names the error; value
/// may move only when all four pass.
///
/// The cooldown guard rate-limits consecutive withdrawals only: while
/// `last_withdraw_ts` still holds the sentinel `0` — the vault has never
/// been withdrawn from — the first withdrawal is never rate-limited.
pub open spec fn withdraw_decision(
    v: VaultState,
    caller: Identity,
    amount: int,
    now: int,
) -> Result<(), CustomError> {
    if caller != v.admin {
        Err(CustomError::Unauthorized)
    } else if amount > v.max_withdraw {
        Err(CustomError::ExceedsMaxWithdrawal)
    } else if v.last_withdraw_ts != 0 && now - v.last_withdraw_ts < v.cooldown {
        Err(CustomError::TooEarlyToWithdraw)
    } else if v.balance < amount {
        Err(CustomError::InsufficientFunds)
    } else {
        Ok(())
    }
}

/// Check a withdrawal attempt against one vault record, changing nothing.
///
/// `now` is the current wall-clock reading, supplied by the caller's
/// environment; the clock is non-decreasing, so it never reads earlier than
/// the recorded time of the last withdrawal.
pub fn check_withdraw(
    account: &VaultAccount,
    caller: Identity,
    amount: u64,
    now: i64,
) -> (r: Result<(), CustomError>)
    requires
        account.last_withdraw_ts >= 0,
        now >= account.last_withdraw_ts,
    ensures
        r == withdraw_decision(account@, caller, amount as int, now as int),
{
    if caller != account.admin {
        Err(CustomError::Unauthorized)
    } else if amount > account.max_withdraw {
        Err(CustomError::ExceedsMaxWithdrawal)
    } else if account.last_withdraw_ts != 0 && now - account.last_withdraw_ts < account.cooldown {
        Err(CustomError::TooEarlyToWithdraw)
    } else if account.balance < amount {
        Err(CustomError::InsufficientFunds)
    } else {
        Ok(())
    }
}

} // verus!
