//! The mathematical model of the whole system and its transitions: a map of
//! vault records keyed by their administrator's identity, a map of the
//! participants' own holdings, and one step function per operation. The
//! executable operations in [`crate::treasury`] are specified against these
//! functions, and the laws in [`crate::laws`] are proved about them.

use vstd::prelude::*;

use crate::vault::CustomError;
use crate::vault::Identity;
use crate::vault::VaultState;
use crate::vault::fresh_vault;
use crate::vault::withdraw_decision;

verus! {

/// The whole system: every vault, keyed by its administrator's identity
/// (one vault per administrator), and every participant's own holding.
pub struct TreasuryState {
    pub vaults: Map<Identity, VaultState>,
    pub holders: Map<Identity, int>,
}

impl TreasuryState {
    /// The system before any vault exists and before any value entered it.
    pub open spec fn empty() -> TreasuryState {
        TreasuryState { vaults: Map::empty(), holders: Map::empty() }
    }

    /// A participant's own holding; an identity never credited holds nothing.
    pub open spec fn holding(self, id: Identity) -> int {
        if self.holders.contains_key(id) {
            self.holders[id]
        } else {
            0
        }
    }

    /// The value stored in the vault of `admin`; zero while none exists.
    pub open spec fn vault_balance(self, admin: Identity) -> int {
        if self.vaults.contains_key(admin) {
            self.vaults[admin].balance
        } else {
            0
        }
    }

    /// Well-formedness of the model: every vault sits under its own
    /// administrator's identity, no balance or holding is negative, no cap
    /// is negative, and no recorded withdrawal time lies before the epoch.
    pub open spec fn wf(self) -> bool {
        &&& forall|id: Identity| #[trigger] self.vaults.contains_key(id) ==> {
            &&& self.vaults[id].admin == id
            &&& self.vaults[id].balance >= 0
            &&& self.vaults[id].last_withdraw_ts >= 0
            &&& self.vaults[id].max_withdraw >= 0
        }
        &&& forall|id: Identity| #[trigger] self.holders.contains_key(id) ==> self.holders[id] >= 0
    }
}

/// Effect of creating a vault: refused outright when the administrator
/// already has one (the existing record keeps every field), otherwise a
/// fresh record appears under the caller's identity. No value moves.
pub open spec fn step_initialize(
    s: TreasuryState,
    caller: Identity,
    max_withdraw: int,
    cooldown: int,
) -> (TreasuryState, Result<(), CustomError>) {
    if s.vaults.contains_key(caller) {
        (s, Err(CustomError::AlreadyExists))
    } else {
        (
            TreasuryState {
                vaults: s.vaults.insert(caller, fresh_vault(caller, max_withdraw, cooldown)),
                holders: s.holders,
            },
            Ok(()),
        )
    }
}

/// Effect of funding a holder: value enters the system from outside and
/// lands in the holding of `id`. This is the one transition that changes
/// the total value held by the system.
pub open spec fn step_fund(s: TreasuryState, id: Identity, amount: int) -> TreasuryState {
    TreasuryState { vaults: s.vaults, holders: s.holders.insert(id, s.holding(id) + amount) }
}

/// Effect of a deposit into the vault of `vault_admin`, open to any caller:
/// a zero amount is refused as pointless, a caller whose holding cannot
/// cover the amount is refused, and otherwise the amount moves atomically
/// from the caller's holding into the vault. Only defined meaningfully when
/// the vault exists.
pub open spec fn step_deposit(
    s: TreasuryState,
    caller: Identity,
    vault_admin: Identity,
    amount: int,
) -> (TreasuryState, Result<(), CustomError>) {
    if amount <= 0 {
        (s, Err(CustomError::InvalidAmount))
    } else if s.holding(caller) < amount {
        (s, Err(CustomError::InsufficientCallerFunds))
    } else {
        let v = s.vaults[vault_admin];
        (
            TreasuryState {
                vaults: s.vaults.insert(
                    vault_admin,
                    VaultState {
                        admin: v.admin,
                        last_withdraw_ts: v.last_withdraw_ts,
                        max_withdraw: v.max_withdraw,
                        cooldown: v.cooldown,
                        balance: v.balance + amount,
                    },
                ),
                holders: s.holders.insert(caller, s.holding(caller) - amount),
            },
            Ok(()),
        )
    }
}

/// Effect of a withdrawal from the vault of `vault_admin`: the guard
/// cascade decides, and on success the amount moves atomically from the
/// vault into the caller's holding while the vault's last-withdrawal time
/// advances to `now`. Every refusal leaves the whole system unchanged.
/// Only defined meaningfully when the vault exists.
pub open spec fn step_withdraw(
    s: TreasuryState,
    caller: Identity,
    vault_admin: Identity,
    amount: int,
    now: int,
) -> (TreasuryState, Result<(), CustomError>) {
    let v = s.vaults[vault_admin];
    match withdraw_decision(v, caller, amount, now) {
        Ok(()) => (
            TreasuryState {
                vaults: s.vaults.insert(
                    vault_admin,
                    VaultState {
                        admin: v.admin,
                        last_withdraw_ts: now,
                        max_withdraw: v.max_withdraw,
                        cooldown: v.cooldown,
                        balance: v.balance - amount,
                    },
                ),
                holders: s.holders.insert(caller, s.holding(caller) + amount),
            },
            Ok(()),
        ),
        Err(e) => (s, Err(e)),
    }
}

/// One request against the system, as the model sees it.
pub enum VaultOp {
    Initialize { caller: Identity, max_withdraw: int, cooldown: int },
    Fund { id: Identity, amount: int },
    Deposit { caller: Identity, vault_admin: Identity, amount: int },
    Withdraw { caller: Identity, vault_admin: Identity, amount: int, now: int },
}

/// Whether the system accepts the request at all: amounts and caps are
/// machine integers (never negative), a targeted vault exists, and the
/// clock reading handed to a withdrawal is no earlier than the vault's
/// recorded last-withdrawal time — the clock never runs backwards.
pub open spec fn op_enabled(s: TreasuryState, op: VaultOp) -> bool {
    match op {
        VaultOp::Initialize { max_withdraw, .. } => max_withdraw >= 0,
        VaultOp::Fund { amount, .. } => amount >= 0,
        VaultOp::Deposit { vault_admin, amount, .. } => {
            amount >= 0 && s.vaults.contains_key(vault_admin)
        },
        VaultOp::Withdraw { vault_admin, amount, now, .. } => {
            &&& amount >= 0
            &&& s.vaults.contains_key(vault_admin)
            &&& now >= s.vaults[vault_admin].last_withdraw_ts
        },
    }
}

/// One request, stepped: the state it leads to and the outcome it reports.
pub open spec fn step_op(s: TreasuryState, op: VaultOp) -> (
    TreasuryState,
    Result<(), CustomError>,
) {
    match op {
        VaultOp::Initialize { caller, max_withdraw, cooldown } => {
            step_initialize(s, caller, max_withdraw, cooldown)
        },
        VaultOp::Fund { id, amount } => (step_fund(s, id, amount), Ok(())),
        VaultOp::Deposit { caller, vault_admin, amount } => {
            step_deposit(s, caller, vault_admin, amount)
        },
        VaultOp::Withdraw { caller, vault_admin, amount, now } => {
            step_withdraw(s, caller, vault_admin, amount, now)
        },
    }
}

/// One request, applied: a request the system does not accept leaves it
/// unchanged.
pub open spec fn apply_op(s: TreasuryState, op: VaultOp) -> TreasuryState {
    if op_enabled(s, op) {
        step_op(s, op).0
    } else {
        s
    }
}

/// A whole run: requests applied first to last.
pub open spec fn apply_ops(s: TreasuryState, ops: Seq<VaultOp>) -> TreasuryState
    decreases ops.len(),
{
    if ops.len() == 0 {
        s
    } else {
        apply_ops(apply_op(s, ops[0]), ops.drop_first())
    }
}

/// The change a single request makes to the balance of the vault under
/// `admin`: a successful deposit adds its amount, a successful withdrawal
/// subtracts its amount, and every refused or unrelated request contributes
/// exactly zero.
pub open spec fn vault_delta(s: TreasuryState, op: VaultOp, admin: Identity) -> int {
    if !op_enabled(s, op) {
        0
    } else {
        match op {
            VaultOp::Deposit { vault_admin, amount, .. } => {
                if vault_admin == admin && step_op(s, op).1 == Ok::<(), CustomError>(()) {
                    amount
                } else {
                    0
                }
            },
            VaultOp::Withdraw { vault_admin, amount, .. } => {
                if vault_admin == admin && step_op(s, op).1 == Ok::<(), CustomError>(()) {
                    -amount
                } else {
                    0
                }
            },
            _ => 0,
        }
    }
}

/// The net change a whole run makes to the balance of the vault under
/// `admin`: the sum of its successful deposits minus the sum of its
/// successful withdrawals, each judged in the state it actually ran in.
pub open spec fn vault_delta_ops(s: TreasuryState, ops: Seq<VaultOp>, admin: Identity) -> int
    decreases ops.len(),
{
    if ops.len() == 0 {
        0
    } else {
        vault_delta(s, ops[0], admin) + vault_delta_ops(apply_op(s, ops[0]), ops.drop_first(), admin)
    }
}

} // verus!
