//! The laws of the system, each proved once and for all against the
//! transition functions of [`crate::state`]: conservation of value, the
//! authorization and cap guards, cooldown monotonicity, the impossibility
//! of a negative balance, and the refusal to create a vault twice.

use vstd::prelude::*;

use crate::state::TreasuryState;
use crate::state::VaultOp;
use crate::state::apply_op;
use crate::state::apply_ops;
use crate::state::step_initialize;
use crate::state::step_op;
use crate::state::step_withdraw;
use crate::state::vault_delta;
use crate::state::vault_delta_ops;
use crate::vault::CustomError;
use crate::vault::Identity;
use crate::vault::fresh_vault;

verus! {

/// No refused request has any effect: whenever a step reports an error,
/// the state it leads to is exactly the state it started from.
pub proof fn lemma_failure_no_effect(s: TreasuryState, op: VaultOp)
    ensures
        (step_op(s, op).1 matches Err(_)) ==> step_op(s, op).0 == s,
{
}

/// Every single request preserves well-formedness of the model; in
/// particular no vault balance, holding, cap, or recorded withdrawal time
/// ever becomes negative.
pub proof fn lemma_apply_op_preserves_wf(s: TreasuryState, op: VaultOp)
    requires
        s.wf(),
    ensures
        apply_op(s, op).wf(),
{
}

/// No sequence of requests can drive any balance below zero: a run from a
/// well-formed state ends well-formed, with every vault balance and every
/// holding still non-negative.
pub proof fn lemma_no_negative_balance(s: TreasuryState, ops: Seq<VaultOp>)
    requires
        s.wf(),
    ensures
        apply_ops(s, ops).wf(),
        forall|id: Identity| #[trigger] apply_ops(s, ops).vault_balance(id) >= 0,
        forall|id: Identity| #[trigger] apply_ops(s, ops).holding(id) >= 0,
    decreases ops.len(),
{
    if ops.len() > 0 {
        lemma_apply_op_preserves_wf(s, ops[0]);
        lemma_no_negative_balance(apply_op(s, ops[0]), ops.drop_first());
    }
}

/// One request moves a vault's balance by exactly its contribution: the
/// amount of a successful deposit, the negated amount of a successful
/// withdrawal, zero for everything else.
pub proof fn lemma_apply_op_balance(s: TreasuryState, op: VaultOp, admin: Identity)
    ensures
        apply_op(s, op).vault_balance(admin) == s.vault_balance(admin) + vault_delta(
            s,
            op,
            admin,
        ),
{
}

/// Balance conservation: over any run, a vault's balance moves by exactly
/// the sum of its successful deposits minus the sum of its successful
/// withdrawals; refused requests contribute zero.
pub proof fn lemma_balance_conservation(s: TreasuryState, ops: Seq<VaultOp>, admin: Identity)
    ensures
        apply_ops(s, ops).vault_balance(admin) == s.vault_balance(admin) + vault_delta_ops(
            s,
            ops,
            admin,
        ),
    decreases ops.len(),
{
    if ops.len() > 0 {
        lemma_apply_op_balance(s, ops[0], admin);
        lemma_balance_conservation(apply_op(s, ops[0]), ops.drop_first(), admin);
    }
}

/// A vault, once created, is never deleted, never changes its
/// administrator, its cap or its cooldown, and its recorded
/// last-withdrawal time never moves backwards.
pub proof fn lemma_record_stability(s: TreasuryState, op: VaultOp, admin: Identity)
    requires
        s.vaults.contains_key(admin),
    ensures
        apply_op(s, op).vaults.contains_key(admin),
        apply_op(s, op).vaults[admin].admin == s.vaults[admin].admin,
        apply_op(s, op).vaults[admin].max_withdraw == s.vaults[admin].max_withdraw,
        apply_op(s, op).vaults[admin].cooldown == s.vaults[admin].cooldown,
        apply_op(s, op).vaults[admin].last_withdraw_ts >= s.vaults[admin].last_withdraw_ts,
{
}

/// The same stability, held over a whole run.
pub proof fn lemma_record_stability_ops(s: TreasuryState, ops: Seq<VaultOp>, admin: Identity)
    requires
        s.vaults.contains_key(admin),
    ensures
        apply_ops(s, ops).vaults.contains_key(admin),
        apply_ops(s, ops).vaults[admin].admin == s.vaults[admin].admin,
        apply_ops(s, ops).vaults[admin].max_withdraw == s.vaults[admin].max_withdraw,
        apply_ops(s, ops).vaults[admin].cooldown == s.vaults[admin].cooldown,
        apply_ops(s, ops).vaults[admin].last_withdraw_ts >= s.vaults[admin].last_withdraw_ts,
    decreases ops.len(),
{
    if ops.len() > 0 {
        lemma_record_stability(s, ops[0], admin);
        lemma_record_stability_ops(apply_op(s, ops[0]), ops.drop_first(), admin);
    }
}

/// Authorization: a withdraw attempt by anyone but the vault's
/// administrator is refused as `Unauthorized`, and the whole system — the
/// vault's balance and last-withdrawal time included — is unchanged.
pub proof fn lemma_withdraw_unauthorized(
    s: TreasuryState,
    caller: Identity,
    vault_admin: Identity,
    amount: int,
    now: int,
)
    requires
        s.vaults.contains_key(vault_admin),
        caller != s.vaults[vault_admin].admin,
    ensures
        step_withdraw(s, caller, vault_admin, amount, now).0 == s,
        step_withdraw(s, caller, vault_admin, amount, now).1 == Err::<(), CustomError>(
            CustomError::Unauthorized,
        ),
{
}

/// The cap: an administrator's withdraw attempt above the vault's
/// per-withdrawal cap is refused as `ExceedsMaxWithdrawal` — whatever the
/// balance or the cooldown state — and the whole system is unchanged.
pub proof fn lemma_withdraw_over_cap(
    s: TreasuryState,
    caller: Identity,
    vault_admin: Identity,
    amount: int,
    now: int,
)
    requires
        s.vaults.contains_key(vault_admin),
        caller == s.vaults[vault_admin].admin,
        amount > s.vaults[vault_admin].max_withdraw,
    ensures
        step_withdraw(s, caller, vault_admin, amount, now).0 == s,
        step_withdraw(s, caller, vault_admin, amount, now).1 == Err::<(), CustomError>(
            CustomError::ExceedsMaxWithdrawal,
        ),
{
}

/// Cooldown monotonicity, blocking half: after a successful withdrawal at
/// time `t`, an attempt by the administrator for an amount within the cap
/// made before the window has passed (`t2 < t + cooldown`) is refused as
/// `TooEarlyToWithdraw`. A withdrawal at time `0` is the one exception: it
/// writes back the "never withdrawn" sentinel, so it cannot start a
/// cooldown window.
pub proof fn lemma_cooldown_blocks(
    s: TreasuryState,
    caller: Identity,
    vault_admin: Identity,
    amount: int,
    t: int,
    s1: TreasuryState,
    caller2: Identity,
    amount2: int,
    t2: int,
)
    requires
        s.vaults.contains_key(vault_admin),
        step_withdraw(s, caller, vault_admin, amount, t).1 == Ok::<(), CustomError>(()),
        s1 == step_withdraw(s, caller, vault_admin, amount, t).0,
        caller2 == s.vaults[vault_admin].admin,
        amount2 <= s.vaults[vault_admin].max_withdraw,
        t != 0,
        t2 < t + s.vaults[vault_admin].cooldown,
    ensures
        step_withdraw(s1, caller2, vault_admin, amount2, t2).1 == Err::<(), CustomError>(
            CustomError::TooEarlyToWithdraw,
        ),
{
}

/// Cooldown monotonicity, eligible half: once the window has passed
/// (`t2 >= t + cooldown`), no attempt on that vault is refused for being
/// too early — whoever calls and whatever the amount, any refusal names
/// another guard.
pub proof fn lemma_cooldown_elapsed(
    s: TreasuryState,
    caller: Identity,
    vault_admin: Identity,
    amount: int,
    t: int,
    s1: TreasuryState,
    caller2: Identity,
    amount2: int,
    t2: int,
)
    requires
        s.vaults.contains_key(vault_admin),
        step_withdraw(s, caller, vault_admin, amount, t).1 == Ok::<(), CustomError>(()),
        s1 == step_withdraw(s, caller, vault_admin, amount, t).0,
        t2 >= t + s.vaults[vault_admin].cooldown,
    ensures
        step_withdraw(s1, caller2, vault_admin, amount2, t2).1 != Err::<(), CustomError>(
            CustomError::TooEarlyToWithdraw,
        ),
{
}

/// Creating a vault twice for one administrator: the first creation
/// succeeds and writes exactly the fresh record; the second is refused as
/// `AlreadyExists` and leaves the whole system — the first record's fields
/// included — unchanged.
pub proof fn lemma_create_twice(
    s: TreasuryState,
    caller: Identity,
    max1: int,
    cd1: int,
    max2: int,
    cd2: int,
)
    requires
        !s.vaults.contains_key(caller),
    ensures
        step_initialize(s, caller, max1, cd1).1 == Ok::<(), CustomError>(()),
        step_initialize(s, caller, max1, cd1).0.vaults[caller] == fresh_vault(caller, max1, cd1),
        step_initialize(step_initialize(s, caller, max1, cd1).0, caller, max2, cd2).0
            == step_initialize(s, caller, max1, cd1).0,
        step_initialize(step_initialize(s, caller, max1, cd1).0, caller, max2, cd2).1 == Err::<
            (),
            CustomError,
        >(CustomError::AlreadyExists),
{
}

} // verus!
