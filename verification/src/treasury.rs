//! The executable system: a vault registry and a holder ledger, both plain
//! vectors, whose operations are proved to implement exactly the transition
//! functions of [`crate::state`].

use vstd::prelude::*;

use crate::state::TreasuryState;
use crate::state::step_deposit;
use crate::state::step_fund;
use crate::state::step_initialize;
use crate::state::step_withdraw;
use crate::vault::CustomError;
use crate::vault::Identity;
use crate::vault::VaultAccount;
use crate::vault::VaultState;
use crate::vault::check_withdraw;
use crate::vault::withdraw_decision;

verus! {

/// One participant's own holding of value, outside any vault.
#[derive(Clone, Copy, PartialEq, Eq, Structural, Debug)]
pub struct HolderAccount {
    pub id: Identity,
    pub balance: u64,
}

/// The vault registry seen as a map from administrator to vault model.
spec fn vaults_map(s: Seq<VaultAccount>) -> Map<Identity, VaultState>
    decreases s.len(),
{
    if s.len() == 0 {
        Map::empty()
    } else {
        vaults_map(s.drop_last()).insert(s.last().admin, s.last()@)
    }
}

/// The holder ledger seen as a map from identity to held value.
spec fn holders_map(s: Seq<HolderAccount>) -> Map<Identity, int>
    decreases s.len(),
{
    if s.len() == 0 {
        Map::empty()
    } else {
        holders_map(s.drop_last()).insert(s.last().id, s.last().balance as int)
    }
}

/// No two registry entries belong to the same administrator.
spec fn vaults_distinct(s: Seq<VaultAccount>) -> bool {
    forall|i: int, j: int|
        0 <= i < j < s.len() ==> (#[trigger] s[i].admin) != (#[trigger] s[j].admin)
}

/// No two ledger entries belong to the same identity.
spec fn holders_distinct(s: Seq<HolderAccount>) -> bool {
    forall|i: int, j: int| 0 <= i < j < s.len() ==> (#[trigger] s[i].id) != (#[trigger] s[j].id)
}

proof fn lemma_vaults_map_contains(s: Seq<VaultAccount>, id: Identity)
    ensures
        vaults_map(s).contains_key(id) <==> exists|i: int|
            0 <= i < s.len() && (#[trigger] s[i].admin) == id,
    decreases s.len(),
{
    if s.len() > 0 {
        lemma_vaults_map_contains(s.drop_last(), id);
        if s.last().admin == id {
            assert(s[s.len() - 1].admin == id);
        } else if vaults_map(s).contains_key(id) {
            let i = choose|i: int| 0 <= i < s.drop_last().len() && (#[trigger] s.drop_last()[i].admin) == id;
            assert(s[i].admin == id);
        } else if exists|i: int| 0 <= i < s.len() && (#[trigger] s[i].admin) == id {
            let i = choose|i: int| 0 <= i < s.len() && (#[trigger] s[i].admin) == id;
            assert(i < s.len() - 1);
            assert(s.drop_last()[i].admin == id);
        }
    }
}

proof fn lemma_vaults_map_index(s: Seq<VaultAccount>, i: int)
    requires
        vaults_distinct(s),
        0 <= i < s.len(),
    ensures
        vaults_map(s).contains_key(s[i].admin),
        vaults_map(s)[s[i].admin] == s[i]@,
    decreases s.len(),
{
    if i == s.len() - 1 {
    } else {
        assert(vaults_distinct(s.drop_last()));
        lemma_vaults_map_index(s.drop_last(), i);
        assert(s.drop_last()[i] == s[i]);
        assert(s[i].admin != s[s.len() - 1].admin);
    }
}

proof fn lemma_vaults_map_push(s: Seq<VaultAccount>, v: VaultAccount)
    ensures
        vaults_map(s.push(v)) == vaults_map(s).insert(v.admin, v@),
{
    assert(s.push(v).drop_last() =~= s);
    assert(s.push(v).last() == v);
}

proof fn lemma_vaults_map_update(s: Seq<VaultAccount>, i: int, v: VaultAccount)
    requires
        vaults_distinct(s),
        0 <= i < s.len(),
        v.admin == s[i].admin,
    ensures
        vaults_map(s.update(i, v)) == vaults_map(s).insert(v.admin, v@),
    decreases s.len(),
{
    let t = s.update(i, v);
    if i == s.len() - 1 {
        assert(t.drop_last() =~= s.drop_last());
        assert(t.last() == v);
        assert(vaults_map(s).insert(v.admin, v@) =~= vaults_map(s.drop_last()).insert(
            v.admin,
            v@,
        ));
    } else {
        assert(vaults_distinct(s.drop_last()));
        assert(t.drop_last() =~= s.drop_last().update(i, v));
        assert(t.last() == s.last());
        lemma_vaults_map_update(s.drop_last(), i, v);
        assert(s.drop_last()[i] == s[i]);
        assert(v.admin != s.last().admin);
        assert(vaults_map(s.drop_last()).insert(v.admin, v@).insert(s.last().admin, s.last()@)
            =~= vaults_map(s.drop_last()).insert(s.last().admin, s.last()@).insert(v.admin, v@));
    }
}

proof fn lemma_holders_map_contains(s: Seq<HolderAccount>, id: Identity)
    ensures
        holders_map(s).contains_key(id) <==> exists|i: int|
            0 <= i < s.len() && (#[trigger] s[i].id) == id,
    decreases s.len(),
{
    if s.len() > 0 {
        lemma_holders_map_contains(s.drop_last(), id);
        if s.last().id == id {
            assert(s[s.len() - 1].id == id);
        } else if holders_map(s).contains_key(id) {
            let i = choose|i: int| 0 <= i < s.drop_last().len() && (#[trigger] s.drop_last()[i].id) == id;
            assert(s[i].id == id);
        } else if exists|i: int| 0 <= i < s.len() && (#[trigger] s[i].id) == id {
            let i = choose|i: int| 0 <= i < s.len() && (#[trigger] s[i].id) == id;
            assert(i < s.len() - 1);
            assert(s.drop_last()[i].id == id);
        }
    }
}

proof fn lemma_holders_map_index(s: Seq<HolderAccount>, i: int)
    requires
        holders_distinct(s),
        0 <= i < s.len(),
    ensures
        holders_map(s).contains_key(s[i].id),
        holders_map(s)[s[i].id] == s[i].balance as int,
    decreases s.len(),
{
    if i == s.len() - 1 {
    } else {
        assert(holders_distinct(s.drop_last()));
        lemma_holders_map_index(s.drop_last(), i);
        assert(s.drop_last()[i] == s[i]);
        assert(s[i].id != s[s.len() - 1].id);
    }
}

proof fn lemma_holders_map_push(s: Seq<HolderAccount>, h: HolderAccount)
    ensures
        holders_map(s.push(h)) == holders_map(s).insert(h.id, h.balance as int),
{
    assert(s.push(h).drop_last() =~= s);
    assert(s.push(h).last() == h);
}

proof fn lemma_holders_map_update(s: Seq<HolderAccount>, i: int, h: HolderAccount)
    requires
        holders_distinct(s),
        0 <= i < s.len(),
        h.id == s[i].id,
    ensures
        holders_map(s.update(i, h)) == holders_map(s).insert(h.id, h.balance as int),
    decreases s.len(),
{
    let t = s.update(i, h);
    if i == s.len() - 1 {
        assert(t.drop_last() =~= s.drop_last());
        assert(t.last() == h);
        assert(holders_map(s).insert(h.id, h.balance as int) =~= holders_map(
            s.drop_last(),
        ).insert(h.id, h.balance as int));
    } else {
        assert(holders_distinct(s.drop_last()));
        assert(t.drop_last() =~= s.drop_last().update(i, h));
        assert(t.last() == s.last());
        lemma_holders_map_update(s.drop_last(), i, h);
        assert(s.drop_last()[i] == s[i]);
        assert(h.id != s.last().id);
        assert(holders_map(s.drop_last()).insert(h.id, h.balance as int).insert(
            s.last().id,
            s.last().balance as int,
        ) =~= holders_map(s.drop_last()).insert(s.last().id, s.last().balance as int).insert(
            h.id,
            h.balance as int,
        ));
    }
}

/// The whole system as executable state: the vault registry (one record per
/// administrator) and the participants' holdings.
pub struct Treasury {
    vaults: Vec<VaultAccount>,
    holders: Vec<HolderAccount>,
}

impl View for Treasury {
    type V = TreasuryState;

    closed spec fn view(&self) -> TreasuryState {
        TreasuryState { vaults: vaults_map(self.vaults@), holders: holders_map(self.holders@) }
    }
}

impl Treasury {
    /// The representation invariant: one registry entry per administrator,
    /// one ledger entry per identity, and no recorded withdrawal time
    /// before the epoch.
    pub closed spec fn wf(self) -> bool {
        &&& vaults_distinct(self.vaults@)
        &&& holders_distinct(self.holders@)
        &&& forall|i: int|
            0 <= i < self.vaults@.len() ==> (#[trigger] self.vaults@[i].last_withdraw_ts) >= 0
    }

    /// A system with no vaults and no holdings.
    pub fn new() -> (r: Treasury)
        ensures
            r.wf(),
            r@ == TreasuryState::empty(),
    {
        Treasury { vaults: Vec::new(), holders: Vec::new() }
    }

    /// Position of the vault of `id` in the registry, if one exists.
    fn find_vault(&self, id: Identity) -> (r: Option<usize>)
        ensures
            match r {
                Some(i) => i < self.vaults@.len() && self.vaults@[i as int].admin == id,
                None => forall|i: int|
                    0 <= i < self.vaults@.len() ==> (#[trigger] self.vaults@[i].admin) != id,
            },
    {
        let n = self.vaults.len();
        let mut i: usize = 0;
        while i < n
            invariant
                n == self.vaults@.len(),
                i <= n,
                forall|k: int| 0 <= k < i ==> (#[trigger] self.vaults@[k].admin) != id,
            decreases n - i,
        {
            if self.vaults[i].admin == id {
                return Some(i);
            }
            i = i + 1;
        }
        None
    }

    /// Position of the holding of `id` in the ledger, if one exists.
    fn find_holder(&self, id: Identity) -> (r: Option<usize>)
        ensures
            match r {
                Some(i) => i < self.holders@.len() && self.holders@[i as int].id == id,
                None => forall|i: int|
                    0 <= i < self.holders@.len() ==> (#[trigger] self.holders@[i].id) != id,
            },
    {
        let n = self.holders.len();
        let mut i: usize = 0;
        while i < n
            invariant
                n == self.holders@.len(),
                i <= n,
                forall|k: int| 0 <= k < i ==> (#[trigger] self.holders@[k].id) != id,
            decreases n - i,
        {
            if self.holders[i].id == id {
                return Some(i);
            }
            i = i + 1;
        }
        None
    }

    /// Whether a vault exists for the administrator `id`.
    pub fn vault_exists(&self, id: Identity) -> (r: bool)
        ensures
            r == self@.vaults.contains_key(id),
    {
        proof {
            lemma_vaults_map_contains(self.vaults@, id);
        }
        self.find_vault(id).is_some()
    }

    /// The current record of the vault of `admin`.
    pub fn vault_account(&self, admin: Identity) -> (r: VaultAccount)
        requires
            self.wf(),
            self@.vaults.contains_key(admin),
        ensures
            r@ == self@.vaults[admin],
    {
        proof {
            lemma_vaults_map_contains(self.vaults@, admin);
        }
        let i = self.find_vault(admin).unwrap();
        proof {
            lemma_vaults_map_index(self.vaults@, i as int);
        }
        self.vaults[i]
    }

    /// The current holding of `id`; an identity never credited holds
    /// nothing.
    pub fn holder_balance(&self, id: Identity) -> (r: u64)
        requires
            self.wf(),
        ensures
            r as int == self@.holding(id),
    {
        proof {
            lemma_holders_map_contains(self.holders@, id);
        }
        match self.find_holder(id) {
            Some(i) => {
                proof {
                    lemma_holders_map_index(self.holders@, i as int);
                }
                self.holders[i].balance
            },
            None => 0,
        }
    }

    /// Create the vault of `caller`, with the two caller-chosen policy
    /// parameters. Refused with `AlreadyExists` when the caller already has
    /// one; the existing record then keeps every field. No value moves.
    pub fn initialize_vault(
        &mut self,
        caller: Identity,
        max_withdraw: u64,
        cooldown: i64,
    ) -> (r: Result<(), CustomError>)
        requires
            old(self).wf(),
        ensures
            final(self).wf(),
            final(self)@ == step_initialize(
                old(self)@,
                caller,
                max_withdraw as int,
                cooldown as int,
            ).0,
            r == step_initialize(old(self)@, caller, max_withdraw as int, cooldown as int).1,
    {
        proof {
            lemma_vaults_map_contains(self.vaults@, caller);
        }
        match self.find_vault(caller) {
            Some(_) => Err(CustomError::AlreadyExists),
            None => {
                let acc = VaultAccount::new(caller, max_withdraw, cooldown);
                proof {
                    lemma_vaults_map_push(self.vaults@, acc);
                }
                self.vaults.push(acc);
                proof {
                    assert forall|i: int, j: int|
                        0 <= i < j < self.vaults@.len() implies (
                    #[trigger] self.vaults@[i].admin) != (#[trigger] self.vaults@[j].admin) by {
                        assert(self.vaults@[i] == old(self).vaults@[i]);
                        if j < self.vaults@.len() - 1 {
                            assert(self.vaults@[j] == old(self).vaults@[j]);
                        }
                    }
                    assert forall|i: int|
                        0 <= i < self.vaults@.len() implies (
                    #[trigger] self.vaults@[i].last_withdraw_ts) >= 0 by {
                        if i < self.vaults@.len() - 1 {
                            assert(self.vaults@[i] == old(self).vaults@[i]);
                        }
                    }
                }
                Ok(())
            },
        }
    }

    /// Credit `amount` to the holding of `id`: the system's only doorway
    /// for value arriving from outside. The holding may not outgrow the
    /// machine's integer range.
    pub fn fund_holder(&mut self, id: Identity, amount: u64)
        requires
            old(self).wf(),
            old(self)@.holding(id) + amount <= u64::MAX,
        ensures
            final(self).wf(),
            final(self)@ == step_fund(old(self)@, id, amount as int),
    {
        proof {
            lemma_holders_map_contains(self.holders@, id);
        }
        match self.find_holder(id) {
            Some(i) => {
                proof {
                    lemma_holders_map_index(self.holders@, i as int);
                }
                let mut h = self.holders[i];
                h.balance = h.balance + amount;
                proof {
                    lemma_holders_map_update(self.holders@, i as int, h);
                }
                self.holders[i] = h;
                proof {
                    assert forall|a: int, b: int|
                        0 <= a < b < self.holders@.len() implies (
                    #[trigger] self.holders@[a].id) != (#[trigger] self.holders@[b].id) by {
                        assert(self.holders@[a].id == old(self).holders@[a].id);
                        assert(self.holders@[b].id == old(self).holders@[b].id);
                    }
                }
            },
            None => {
                let h = HolderAccount { id, balance: amount };
                proof {
                    lemma_holders_map_push(self.holders@, h);
                }
                self.holders.push(h);
                proof {
                    assert forall|a: int, b: int|
                        0 <= a < b < self.holders@.len() implies (
                    #[trigger] self.holders@[a].id) != (#[trigger] self.holders@[b].id) by {
                        assert(self.holders@[a] == old(self).holders@[a]);
                        if b < self.holders@.len() - 1 {
                            assert(self.holders@[b] == old(self).holders@[b]);
                        }
                    }
                }
            },
        }
    }

    /// Deposit `amount` from the holding of `caller` into the vault of
    /// `vault_admin`. Open to any caller — a deposit only adds funds, so it
    /// carries no authorization guard. A zero amount is refused as
    /// `InvalidAmount` (a deliberate policy: a movement of nothing is more
    /// likely a mistake than an intent), and a holding that cannot cover
    /// the amount as `InsufficientCallerFunds`; either refusal changes
    /// nothing. The vault may not outgrow the machine's integer range.
    pub fn deposit_sol_to_vault(
        &mut self,
        caller: Identity,
        vault_admin: Identity,
        amount: u64,
    ) -> (r: Result<(), CustomError>)
        requires
            old(self).wf(),
            old(self)@.vaults.contains_key(vault_admin),
            0 < amount && amount <= old(self)@.holding(caller) ==> old(self)@.vaults[vault_admin].balance
                + amount <= u64::MAX,
        ensures
            final(self).wf(),
            final(self)@ == step_deposit(old(self)@, caller, vault_admin, amount as int).0,
            r == step_deposit(old(self)@, caller, vault_admin, amount as int).1,
    {
        if amount == 0 {
            return Err(CustomError::InvalidAmount);
        }
        proof {
            lemma_holders_map_contains(self.holders@, caller);
        }
        match self.find_holder(caller) {
            None => Err(CustomError::InsufficientCallerFunds),
            Some(hi) => {
                proof {
                    lemma_holders_map_index(self.holders@, hi as int);
                }
                if self.holders[hi].balance < amount {
                    Err(CustomError::InsufficientCallerFunds)
                } else {
                    proof {
                        lemma_vaults_map_contains(self.vaults@, vault_admin);
                    }
                    let vi = self.find_vault(vault_admin).unwrap();
                    proof {
                        lemma_vaults_map_index(self.vaults@, vi as int);
                    }
                    let mut h = self.holders[hi];
                    h.balance = h.balance - amount;
                    let mut v = self.vaults[vi];
                    v.balance = v.balance + amount;
                    proof {
                        lemma_holders_map_update(self.holders@, hi as int, h);
                        lemma_vaults_map_update(self.vaults@, vi as int, v);
                    }
                    self.holders[hi] = h;
                    self.vaults[vi] = v;
                    proof {
                        assert forall|a: int, b: int|
                            0 <= a < b < self.holders@.len() implies (
                        #[trigger] self.holders@[a].id) != (#[trigger] self.holders@[b].id) by {
                            assert(self.holders@[a].id == old(self).holders@[a].id);
                            assert(self.holders@[b].id == old(self).holders@[b].id);
                        }
                        assert forall|a: int, b: int|
                            0 <= a < b < self.vaults@.len() implies (
                        #[trigger] self.vaults@[a].admin) != (#[trigger] self.vaults@[b].admin) by {
                            assert(self.vaults@[a].admin == old(self).vaults@[a].admin);
                            assert(self.vaults@[b].admin == old(self).vaults@[b].admin);
                        }
                        assert forall|a: int|
                            0 <= a < self.vaults@.len() implies (
                        #[trigger] self.vaults@[a].last_withdraw_ts) >= 0 by {
                            assert(self.vaults@[a].last_withdraw_ts == old(
                                self,
                            ).vaults@[a].last_withdraw_ts);
                        }
                    }
                    Ok(())
                }
            },
        }
    }

    /// Withdraw `amount` from the vault of `vault_admin` into the caller's
    /// own holding, at wall-clock reading `now`. The four guards run in
    /// their fixed order — authorization, cap, cooldown, liquidity — and
    /// the first to fail names the refusal, changing nothing. Only when all
    /// four pass does the value move, and only then does the record's
    /// last-withdrawal time advance to `now`. The clock never runs
    /// backwards, so `now` is no earlier than the recorded time; the
    /// caller's holding may not outgrow the machine's integer range.
    pub fn withdraw_sol_from_vault(
        &mut self,
        caller: Identity,
        vault_admin: Identity,
        amount: u64,
        now: i64,
    ) -> (r: Result<(), CustomError>)
        requires
            old(self).wf(),
            old(self)@.vaults.contains_key(vault_admin),
            now >= old(self)@.vaults[vault_admin].last_withdraw_ts,
            withdraw_decision(old(self)@.vaults[vault_admin], caller, amount as int, now as int)
                == Ok::<(), CustomError>(()) ==> old(self)@.holding(caller) + amount <= u64::MAX,
        ensures
            final(self).wf(),
            final(self)@ == step_withdraw(
                old(self)@,
                caller,
                vault_admin,
                amount as int,
                now as int,
            ).0,
            r == step_withdraw(old(self)@, caller, vault_admin, amount as int, now as int).1,
    {
        proof {
            lemma_vaults_map_contains(self.vaults@, vault_admin);
        }
        let vi = self.find_vault(vault_admin).unwrap();
        proof {
            lemma_vaults_map_index(self.vaults@, vi as int);
        }
        let account = self.vaults[vi];
        match check_withdraw(&account, caller, amount, now) {
            Err(e) => Err(e),
            Ok(()) => {
                let mut v = account;
                v.balance = v.balance - amount;
                v.last_withdraw_ts = now;
                proof {
                    lemma_vaults_map_update(self.vaults@, vi as int, v);
                }
                self.vaults[vi] = v;
                proof {
                    lemma_holders_map_contains(self.holders@, caller);
                }
                match self.find_holder(caller) {
                    Some(hi) => {
                        proof {
                            lemma_holders_map_index(self.holders@, hi as int);
                        }
                        let mut h = self.holders[hi];
                        h.balance = h.balance + amount;
                        proof {
                            lemma_holders_map_update(self.holders@, hi as int, h);
                        }
                        self.holders[hi] = h;
                        proof {
                            assert forall|a: int, b: int|
                                0 <= a < b < self.holders@.len() implies (
                            #[trigger] self.holders@[a].id) != (#[trigger] self.holders@[b].id) by {
                                assert(self.holders@[a].id == old(self).holders@[a].id);
                                assert(self.holders@[b].id == old(self).holders@[b].id);
                            }
                        }
                    },
                    None => {
                        let h = HolderAccount { id: caller, balance: amount };
                        proof {
                            lemma_holders_map_push(self.holders@, h);
                        }
                        self.holders.push(h);
                        proof {
                            assert forall|a: int, b: int|
                                0 <= a < b < self.holders@.len() implies (
                            #[trigger] self.holders@[a].id) != (#[trigger] self.holders@[b].id) by {
                                assert(self.holders@[a] == old(self).holders@[a]);
                                if b < self.holders@.len() - 1 {
                                    assert(self.holders@[b] == old(self).holders@[b]);
                                }
                            }
                        }
                    },
                }
                proof {
                    assert forall|a: int, b: int|
                        0 <= a < b < self.vaults@.len() implies (
                    #[trigger] self.vaults@[a].admin) != (#[trigger] self.vaults@[b].admin) by {
                        assert(self.vaults@[a].admin == old(self).vaults@[a].admin);
                        assert(self.vaults@[b].admin == old(self).vaults@[b].admin);
                    }
                    assert forall|a: int|
                        0 <= a < self.vaults@.len() implies (
                    #[trigger] self.vaults@[a].last_withdraw_ts) >= 0 by {
                        if a != vi as int {
                            assert(self.vaults@[a].last_withdraw_ts == old(
                                self,
                            ).vaults@[a].last_withdraw_ts);
                        }
                    }
                }
                Ok(())
            },
        }
    }
}

} // verus!
