//! The executable ledger: the registries of all protocol records and the
//! operations that mutate them.  Every operation requires a well-formed
//! ledger, leaves it well-formed, and takes exactly the step that the
//! corresponding `*_spec` function of [`crate::model`] describes — in
//! particular, an operation that returns an error has changed nothing.

use vstd::prelude::*;

use crate::address::FarmKey;
use crate::address::FarmerKey;
use crate::address::LockKey;
use crate::error::Error;
use crate::model::LedgerView;
use crate::model::add_manager_spec;
use crate::model::add_to_whitelist_spec;
use crate::model::claim_rewards_spec;
use crate::model::close_position_spec;
use crate::model::create_farm_spec;
use crate::model::create_locks_spec;
use crate::model::empty_ledger;
use crate::model::farm_idx;
use crate::model::farmer_idx;
use crate::model::force_unstake_spec;
use crate::model::fund_reward_spec;
use crate::model::initialize_farmer_spec;
use crate::model::lemma_add_manager_wf;
use crate::model::lemma_add_to_whitelist_wf;
use crate::model::lemma_claim_rewards_wf;
use crate::model::lemma_close_position_wf;
use crate::model::lemma_create_farm_wf;
use crate::model::lemma_create_locks_wf;
use crate::model::lemma_farm_idx;
use crate::model::lemma_farmer_idx;
use crate::model::lemma_fund_reward_wf;
use crate::model::lemma_initialize_farmer_wf;
use crate::model::lemma_lock_idx;
use crate::model::lemma_manager_idx;
use crate::model::lemma_receipt_idx;
use crate::model::lemma_remove_from_whitelist_wf;
use crate::model::lemma_stake_wf;
use crate::model::lemma_whitelist_idx;
use crate::model::lock_idx;
use crate::model::lock_of;
use crate::model::locks_collision_free;
use crate::model::manager_idx;
use crate::model::receipt_idx;
use crate::model::remove_from_whitelist_spec;
use crate::model::resolve_base_rate;
use crate::model::resolve_bonus_factor;
use crate::model::stake_spec;
use crate::model::unstake_spec;
use crate::model::whitelist_idx;
use crate::rewards::calculate_reward_rate;
use crate::state::AssetMetadata;
use crate::state::Farm;
use crate::state::FarmManager;
use crate::state::Farmer;
use crate::state::Lock;
use crate::state::LockConfig;
use crate::state::StakeReceipt;
use crate::state::WhitelistProof;
use crate::state::WhitelistType;
use crate::state::metadata_creator;

verus! {

/// The protocol's whole state: one registry per record kind, each holding at
/// most one record per logical key.
pub struct Ledger {
    /// All farms, keyed by (authority, reward mint).
    pub farms: Vec<Farm>,
    /// All manager grants, keyed by (farm, manager identity).
    pub managers: Vec<FarmManager>,
    /// All whitelist proofs, keyed by (farm, whitelisted identity).
    pub whitelists: Vec<WhitelistProof>,
    /// All locks, keyed by (farm, duration, cooldown).
    pub locks: Vec<Lock>,
    /// All farmers, keyed by (farm, owner).
    pub farmers: Vec<Farmer>,
    /// All stake receipts, keyed by (farmer, mint).
    pub receipts: Vec<StakeReceipt>,
}

impl View for Ledger {
    type V = LedgerView;

    open spec fn view(&self) -> LedgerView {
        LedgerView {
            farms: self.farms@,
            managers: self.managers@,
            whitelists: self.whitelists@,
            locks: self.locks@,
            farmers: self.farmers@,
            receipts: self.receipts@,
        }
    }
}

impl Ledger {
    /// A fresh, empty ledger.
    pub fn new() -> (l: Ledger)
        ensures
            l@ == empty_ledger(),
            l@.wf(),
    {
        let l = Ledger {
            farms: Vec::new(),
            managers: Vec::new(),
            whitelists: Vec::new(),
            locks: Vec::new(),
            farmers: Vec::new(),
            receipts: Vec::new(),
        };
        proof {
            assert(l@ =~= empty_ledger());
        }
        l
    }

    /// Index of the farm with key `k`, if it exists.
    fn find_farm(&self, k: FarmKey) -> (r: Option<usize>)
        ensures
            r matches Some(i) ==> i == farm_idx(self.farms@, k) && i < self.farms@.len(),
            r is None ==> farm_idx(self.farms@, k) == self.farms@.len(),
    {
        proof {
            lemma_farm_idx(self.farms@, k);
        }
        let n = self.farms.len();
        let mut i: usize = 0;
        while i < n
            invariant
                n == self.farms@.len(),
                i <= n,
                forall|j: int| 0 <= j < i ==> (#[trigger] self.farms@[j]).key_spec() != k,
            decreases n - i,
        {
            if self.farms[i].key() == k {
                proof {
                    lemma_farm_idx(self.farms@, k);
                }
                return Some(i);
            }
            i += 1;
        }
        None
    }

    /// Index of the manager grant of `owner` on `farm`, if it exists.
    fn find_manager(&self, farm: FarmKey, owner: u64) -> (r: Option<usize>)
        ensures
            r matches Some(i) ==> i == manager_idx(self.managers@, farm, owner) && i
                < self.managers@.len(),
            r is None ==> manager_idx(self.managers@, farm, owner) == self.managers@.len(),
    {
        proof {
            lemma_manager_idx(self.managers@, farm, owner);
        }
        let n = self.managers.len();
        let mut i: usize = 0;
        while i < n
            invariant
                n == self.managers@.len(),
                i <= n,
                forall|j: int| 0 <= j < i ==> !((#[trigger] self.managers@[j]).farm == farm
                    && self.managers@[j].authority == owner),
            decreases n - i,
        {
            let m = self.managers[i];
            if m.farm == farm && m.authority == owner {
                proof {
                    lemma_manager_idx(self.managers@, farm, owner);
                }
                return Some(i);
            }
            i += 1;
        }
        None
    }

    /// Index of the whitelist proof for `target` on `farm`, if it exists.
    fn find_whitelist(&self, farm: FarmKey, target: u64) -> (r: Option<usize>)
        ensures
            r matches Some(i) ==> i == whitelist_idx(self.whitelists@, farm, target) && i
                < self.whitelists@.len(),
            r is None ==> whitelist_idx(self.whitelists@, farm, target) == self.whitelists@.len(),
    {
        proof {
            lemma_whitelist_idx(self.whitelists@, farm, target);
        }
        let n = self.whitelists.len();
        let mut i: usize = 0;
        while i < n
            invariant
                n == self.whitelists@.len(),
                i <= n,
                forall|j: int| 0 <= j < i ==> !((#[trigger] self.whitelists@[j]).farm == farm
                    && self.whitelists@[j].whitelisted_address == target),
            decreases n - i,
        {
            let w = self.whitelists[i];
            if w.farm == farm && w.whitelisted_address == target {
                proof {
                    lemma_whitelist_idx(self.whitelists@, farm, target);
                }
                return Some(i);
            }
            i += 1;
        }
        None
    }

    /// Index of the lock with key `k`, if it exists.
    fn find_lock(&self, k: LockKey) -> (r: Option<usize>)
        ensures
            r matches Some(i) ==> i == lock_idx(self.locks@, k) && i < self.locks@.len(),
            r is None ==> lock_idx(self.locks@, k) == self.locks@.len(),
    {
        proof {
            lemma_lock_idx(self.locks@, k);
        }
        let n = self.locks.len();
        let mut i: usize = 0;
        while i < n
            invariant
                n == self.locks@.len(),
                i <= n,
                forall|j: int| 0 <= j < i ==> (#[trigger] self.locks@[j]).key_spec() != k,
            decreases n - i,
        {
            if self.locks[i].key() == k {
                proof {
                    lemma_lock_idx(self.locks@, k);
                }
                return Some(i);
            }
            i += 1;
        }
        None
    }

    /// Index of the farmer with key `k`, if it exists.
    fn find_farmer(&self, k: FarmerKey) -> (r: Option<usize>)
        ensures
            r matches Some(i) ==> i == farmer_idx(self.farmers@, k) && i < self.farmers@.len(),
            r is None ==> farmer_idx(self.farmers@, k) == self.farmers@.len(),
    {
        proof {
            lemma_farmer_idx(self.farmers@, k);
        }
        let n = self.farmers.len();
        let mut i: usize = 0;
        while i < n
            invariant
                n == self.farmers@.len(),
                i <= n,
                forall|j: int| 0 <= j < i ==> (#[trigger] self.farmers@[j]).key_spec() != k,
            decreases n - i,
        {
            if self.farmers[i].key() == k {
                proof {
                    lemma_farmer_idx(self.farmers@, k);
                }
                return Some(i);
            }
            i += 1;
        }
        None
    }

    /// Index of the stake receipt of `farmer` for `mint`, if it exists.
    fn find_receipt(&self, farmer: FarmerKey, mint: u64) -> (r: Option<usize>)
        ensures
            r matches Some(i) ==> i == receipt_idx(self.receipts@, farmer, mint) && i
                < self.receipts@.len(),
            r is None ==> receipt_idx(self.receipts@, farmer, mint) == self.receipts@.len(),
    {
        proof {
            lemma_receipt_idx(self.receipts@, farmer, mint);
        }
        let n = self.receipts.len();
        let mut i: usize = 0;
        while i < n
            invariant
                n == self.receipts@.len(),
                i <= n,
                forall|j: int| 0 <= j < i ==> !((#[trigger] self.receipts@[j]).farmer == farmer
                    && self.receipts@[j].mint == mint),
            decreases n - i,
        {
            let rec = self.receipts[i];
            if rec.farmer == farmer && rec.mint == mint {
                proof {
                    lemma_receipt_idx(self.receipts@, farmer, mint);
                }
                return Some(i);
            }
            i += 1;
        }
        None
    }

    /// Creates a farm and makes its authority the first manager.  Fails when
    /// a farm with the same authority and reward mint already exists.
    pub fn create_farm(&mut self, authority: u64, reward_mint: u64) -> (r: Result<FarmKey, Error>)
        requires
            old(self)@.wf(),
        ensures
            final(self)@.wf(),
            match r {
                Ok(key) => key == (FarmKey { authority, reward_mint }) && create_farm_spec(
                    old(self)@,
                    authority,
                    reward_mint,
                ) == Ok::<LedgerView, Error>(final(self)@),
                Err(e) => create_farm_spec(old(self)@, authority, reward_mint) == Err::<
                    LedgerView,
                    Error,
                >(e) && final(self)@ == old(self)@,
            },
    {
        let key = FarmKey { authority, reward_mint };
        if self.find_farm(key).is_some() {
            return Err(Error::AlreadyExists);
        }
        self.farms.push(Farm { authority, reward_mint, vault_balance: 0 });
        self.managers.push(FarmManager { farm: key, authority });
        proof {
            lemma_create_farm_wf(old(self)@, authority, reward_mint);
            assert(self@ =~= create_farm_spec(old(self)@, authority, reward_mint).unwrap());
        }
        Ok(key)
    }

    /// Adds a manager grant.  Only the farm authority or an existing manager
    /// may add one, and the grant must not already exist.
    pub fn add_manager(&mut self, farm: FarmKey, requester: u64, manager_owner: u64) -> (r: Result<
        (),
        Error,
    >)
        requires
            old(self)@.wf(),
        ensures
            final(self)@.wf(),
            match r {
                Ok(()) => add_manager_spec(old(self)@, farm, requester, manager_owner) == Ok::<
                    LedgerView,
                    Error,
                >(final(self)@),
                Err(e) => add_manager_spec(old(self)@, farm, requester, manager_owner) == Err::<
                    LedgerView,
                    Error,
                >(e) && final(self)@ == old(self)@,
            },
    {
        let Some(fi) = self.find_farm(farm) else {
            return Err(Error::NotFound);
        };
        let authorized = self.farms[fi].authority == requester || self.find_manager(
            farm,
            requester,
        ).is_some();
        if !authorized {
            return Err(Error::NotAuthorized);
        }
        if self.find_manager(farm, manager_owner).is_some() {
            return Err(Error::AlreadyExists);
        }
        self.managers.push(FarmManager { farm, authority: manager_owner });
        proof {
            lemma_add_manager_wf(old(self)@, farm, requester, manager_owner);
            assert(self@ =~= add_manager_spec(old(self)@, farm, requester, manager_owner).unwrap());
        }
        Ok(())
    }

    /// Whitelists a creator or mint on a farm at a base reward rate.  The
    /// caller must hold a manager grant and the identity must not already be
    /// whitelisted.
    pub fn add_to_whitelist(
        &mut self,
        farm: FarmKey,
        manager: u64,
        target: u64,
        ty: WhitelistType,
        reward_rate: u64,
    ) -> (r: Result<(), Error>)
        requires
            old(self)@.wf(),
        ensures
            final(self)@.wf(),
            match r {
                Ok(()) => add_to_whitelist_spec(old(self)@, farm, manager, target, ty, reward_rate)
                    == Ok::<LedgerView, Error>(final(self)@),
                Err(e) => add_to_whitelist_spec(old(self)@, farm, manager, target, ty, reward_rate)
                    == Err::<LedgerView, Error>(e) && final(self)@ == old(self)@,
            },
    {
        if self.find_manager(farm, manager).is_none() {
            return Err(Error::NotAuthorized);
        }
        if self.find_whitelist(farm, target).is_some() {
            return Err(Error::AlreadyExists);
        }
        self.whitelists.push(WhitelistProof { farm, whitelisted_address: target, ty, reward_rate });
        proof {
            lemma_add_to_whitelist_wf(old(self)@, farm, manager, target, ty, reward_rate);
            assert(self@ =~= add_to_whitelist_spec(
                old(self)@,
                farm,
                manager,
                target,
                ty,
                reward_rate,
            ).unwrap());
        }
        Ok(())
    }

    /// Removes a whitelist proof, reclaiming its storage.  Stakes already
    /// made against it stay valid; new ones can no longer succeed.
    pub fn remove_from_whitelist(&mut self, farm: FarmKey, manager: u64, target: u64) -> (r: Result<
        (),
        Error,
    >)
        requires
            old(self)@.wf(),
        ensures
            final(self)@.wf(),
            match r {
                Ok(()) => remove_from_whitelist_spec(old(self)@, farm, manager, target) == Ok::<
                    LedgerView,
                    Error,
                >(final(self)@),
                Err(e) => remove_from_whitelist_spec(old(self)@, farm, manager, target) == Err::<
                    LedgerView,
                    Error,
                >(e) && final(self)@ == old(self)@,
            },
    {
        if self.find_manager(farm, manager).is_none() {
            return Err(Error::NotAuthorized);
        }
        let Some(wi) = self.find_whitelist(farm, target) else {
            return Err(Error::NotFound);
        };
        self.whitelists.remove(wi);
        proof {
            lemma_remove_from_whitelist_wf(old(self)@, farm, manager, target);
            assert(self@ =~= remove_from_whitelist_spec(
                old(self)@,
                farm,
                manager,
                target,
            ).unwrap());
        }
        Ok(())
    }

    /// Funds the farm's reward vault.  The caller must hold a manager grant.
    pub fn fund_reward(&mut self, farm: FarmKey, manager: u64, amount: u64) -> (r: Result<
        (),
        Error,
    >)
        requires
            old(self)@.wf(),
        ensures
            final(self)@.wf(),
            match r {
                Ok(()) => fund_reward_spec(old(self)@, farm, manager, amount) == Ok::<
                    LedgerView,
                    Error,
                >(final(self)@),
                Err(e) => fund_reward_spec(old(self)@, farm, manager, amount) == Err::<
                    LedgerView,
                    Error,
                >(e) && final(self)@ == old(self)@,
            },
    {
        if self.find_manager(farm, manager).is_none() {
            return Err(Error::NotAuthorized);
        }
        let Some(fi) = self.find_farm(farm) else {
            return Err(Error::NotFound);
        };
        let f = self.farms[fi];
        let Some(vb) = f.vault_balance.checked_add(amount) else {
            return Err(Error::ArithmeticError);
        };
        self.farms[fi] = Farm { vault_balance: vb, ..f };
        proof {
            lemma_fund_reward_wf(old(self)@, farm, manager, amount);
            assert(self@ =~= fund_reward_spec(old(self)@, farm, manager, amount).unwrap());
        }
        Ok(())
    }

    /// Creates the farmer record of `owner` on `farm`, one per pair.
    pub fn initialize_farmer(&mut self, farm: FarmKey, owner: u64, now: u64) -> (r: Result<
        (),
        Error,
    >)
        requires
            old(self)@.wf(),
        ensures
            final(self)@.wf(),
            match r {
                Ok(()) => initialize_farmer_spec(old(self)@, farm, owner, now) == Ok::<
                    LedgerView,
                    Error,
                >(final(self)@),
                Err(e) => initialize_farmer_spec(old(self)@, farm, owner, now) == Err::<
                    LedgerView,
                    Error,
                >(e) && final(self)@ == old(self)@,
            },
    {
        if self.find_farm(farm).is_none() {
            return Err(Error::NotFound);
        }
        if self.find_farmer(FarmerKey { farm, owner }).is_some() {
            return Err(Error::AlreadyExists);
        }
        self.farmers.push(
            Farmer { farm, owner, reward_rate: 0, accrued_rewards: 0, last_update: now },
        );
        proof {
            lemma_initialize_farmer_wf(old(self)@, farm, owner, now);
            assert(self@ =~= initialize_farmer_spec(old(self)@, farm, owner, now).unwrap());
        }
        Ok(())
    }

    /// The base reward rate a staked asset is entitled to on `farm`: from a
    /// mint-kind proof matching its mint, else from a creator-kind proof
    /// matching the verified creator in its metadata.
    fn base_rate_for(&self, farm: FarmKey, mint: u64, metadata: &AssetMetadata) -> (r: Result<
        u64,
        Error,
    >)
        ensures
            r == resolve_base_rate(self.whitelists@, farm, mint, metadata@),
    {
        if let Some(mi) = self.find_whitelist(farm, mint) {
            let w = self.whitelists[mi];
            if w.ty == WhitelistType::Mint {
                return Ok(w.reward_rate);
            }
        }
        match metadata_creator(metadata) {
            Err(e) => Err(e),
            Ok(creator) => {
                if let Some(ci) = self.find_whitelist(farm, creator) {
                    let w = self.whitelists[ci];
                    if w.ty == WhitelistType::Creator {
                        return Ok(w.reward_rate);
                    }
                }
                Err(Error::NotWhitelisted)
            },
        }
    }

    /// The bonus factor of the lock the staker selected: zero without a
    /// lock, the registered lock's bonus factor otherwise.
    fn bonus_factor_for(&self, farm: FarmKey, lock: Option<LockKey>) -> (r: Result<u64, Error>)
        ensures
            r == resolve_bonus_factor(self.locks@, farm, lock),
    {
        match lock {
            None => Ok(0),
            Some(lk) => {
                if lk.farm != farm {
                    return Err(Error::NotFound);
                }
                match self.find_lock(lk) {
                    Some(li) => Ok(self.locks[li].bonus_factor as u64),
                    None => Err(Error::NotFound),
                }
            },
        }
    }

    /// Stakes an eligible asset: checks the whitelist, settles the farmer at
    /// the pre-stake rate, opens a receipt at the effective rate, moves the
    /// asset into the custody vault, and raises the aggregate rate.  An
    /// asset whose receipt is still open cannot be staked again, and a
    /// closed receipt's lock cooldown must have elapsed.
    pub fn stake(
        &mut self,
        farm: FarmKey,
        owner: u64,
        mint: u64,
        amount: u64,
        lock: Option<LockKey>,
        metadata: &AssetMetadata,
        now: u64,
    ) -> (r: Result<(), Error>)
        requires
            old(self)@.wf(),
        ensures
            final(self)@.wf(),
            match r {
                Ok(()) => stake_spec(old(self)@, farm, owner, mint, amount, lock, metadata@, now)
                    == Ok::<LedgerView, Error>(final(self)@),
                Err(e) => stake_spec(old(self)@, farm, owner, mint, amount, lock, metadata@, now)
                    == Err::<LedgerView, Error>(e) && final(self)@ == old(self)@,
            },
    {
        let fk = FarmerKey { farm, owner };
        let Some(fi) = self.find_farmer(fk) else {
            return Err(Error::NotFound);
        };
        let base = match self.base_rate_for(farm, mint, metadata) {
            Ok(b) => b,
            Err(e) => {
                return Err(e);
            },
        };
        let factor = match self.bonus_factor_for(farm, lock) {
            Ok(f) => f,
            Err(e) => {
                return Err(e);
            },
        };
        let eff = match calculate_reward_rate(base, factor) {
            Ok(v) => v,
            Err(e) => {
                return Err(e);
            },
        };
        let ri_found = self.find_receipt(fk, mint);
        let mut vault_balance = amount;
        if let Some(ri) = ri_found {
            let prior = self.receipts[ri];
            if prior.is_running() {
                return Err(Error::AlreadyStaked);
            }
            if let Some(plk) = prior.lock {
                let end = prior.end_ts.unwrap();
                match end.checked_add(plk.cooldown) {
                    None => {
                        return Err(Error::CooldownNotExpired);
                    },
                    Some(ready) => {
                        if now < ready {
                            return Err(Error::CooldownNotExpired);
                        }
                    },
                }
            }
            match prior.vault_balance.checked_add(amount) {
                None => {
                    return Err(Error::ArithmeticError);
                },
                Some(vb) => {
                    vault_balance = vb;
                },
            }
        }
        let mut farmer = self.farmers[fi];
        if let Err(e) = farmer.update_accrued_rewards(now) {
            return Err(e);
        }
        if let Err(e) = farmer.increase_reward_rate(eff) {
            return Err(e);
        }
        let opened = StakeReceipt::new(fk, mint, lock, now, amount, eff);
        let receipt = StakeReceipt { vault_balance, ..opened };
        self.farmers[fi] = farmer;
        match ri_found {
            Some(ri) => {
                self.receipts[ri] = receipt;
            },
            None => {
                self.receipts.push(receipt);
            },
        }
        proof {
            lemma_stake_wf(old(self)@, farm, owner, mint, amount, lock, metadata@, now);
            assert(self@ =~= stake_spec(
                old(self)@,
                farm,
                owner,
                mint,
                amount,
                lock,
                metadata@,
                now,
            ).unwrap());
        }
        Ok(())
    }

    /// Closes a position: settles the farmer, lowers the aggregate rate by
    /// the receipt's rate, marks the receipt closed, and returns the staked
    /// tokens from the custody vault, which is closed exactly when its
    /// balance reaches zero (a remaining balance skips closure, it does not
    /// fail the operation).
    fn close_position(&mut self, fk: FarmerKey, mint: u64, now: u64, enforce_duration: bool) -> (r:
        Result<(), Error>)
        requires
            old(self)@.wf(),
        ensures
            final(self)@.wf(),
            match r {
                Ok(()) => close_position_spec(old(self)@, fk, mint, now, enforce_duration) == Ok::<
                    LedgerView,
                    Error,
                >(final(self)@),
                Err(e) => close_position_spec(old(self)@, fk, mint, now, enforce_duration) == Err::<
                    LedgerView,
                    Error,
                >(e) && final(self)@ == old(self)@,
            },
    {
        let Some(fi) = self.find_farmer(fk) else {
            return Err(Error::NotFound);
        };
        let Some(ri) = self.find_receipt(fk, mint) else {
            return Err(Error::NotFound);
        };
        let receipt = self.receipts[ri];
        if !receipt.is_running() {
            return Err(Error::AlreadyUnstaked);
        }
        if enforce_duration {
            if let Some(lk) = receipt.lock {
                match receipt.start_ts.checked_add(lk.duration) {
                    None => {
                        return Err(Error::LockNotExpired);
                    },
                    Some(ready) => {
                        if now < ready {
                            return Err(Error::LockNotExpired);
                        }
                    },
                }
            }
        }
        let mut farmer = self.farmers[fi];
        if let Err(e) = farmer.update_accrued_rewards(now) {
            return Err(e);
        }
        if let Err(e) = farmer.decrease_reward_rate(receipt.reward_rate) {
            return Err(e);
        }
        let Some(vault_left) = receipt.vault_balance.checked_sub(receipt.amount) else {
            return Err(Error::ArithmeticError);
        };
        self.farmers[fi] = farmer;
        self.receipts[ri] = StakeReceipt { end_ts: Some(now), vault_balance: vault_left, ..receipt };
        proof {
            lemma_close_position_wf(old(self)@, fk, mint, now, enforce_duration);
            assert(self@ =~= close_position_spec(
                old(self)@,
                fk,
                mint,
                now,
                enforce_duration,
            ).unwrap());
        }
        Ok(())
    }

    /// Unstakes one's own position.  The receipt must still be open, and a
    /// position opened under a lock may only leave once the lock's duration
    /// has elapsed — early unstaking is rejected, not penalized.
    pub fn unstake(&mut self, farm: FarmKey, owner: u64, mint: u64, now: u64) -> (r: Result<
        (),
        Error,
    >)
        requires
            old(self)@.wf(),
        ensures
            final(self)@.wf(),
            match r {
                Ok(()) => unstake_spec(old(self)@, farm, owner, mint, now) == Ok::<
                    LedgerView,
                    Error,
                >(final(self)@),
                Err(e) => unstake_spec(old(self)@, farm, owner, mint, now) == Err::<
                    LedgerView,
                    Error,
                >(e) && final(self)@ == old(self)@,
            },
    {
        self.close_position(FarmerKey { farm, owner }, mint, now, true)
    }

    /// A manager's override of the time lock: the same closing step as
    /// unstake — settlement and rate decrement included, so reward
    /// accounting stays consistent whichever exit path closes the receipt —
    /// without the duration check.
    pub fn force_unstake(
        &mut self,
        farm: FarmKey,
        manager: u64,
        owner: u64,
        mint: u64,
        now: u64,
    ) -> (r: Result<(), Error>)
        requires
            old(self)@.wf(),
        ensures
            final(self)@.wf(),
            match r {
                Ok(()) => force_unstake_spec(old(self)@, farm, manager, owner, mint, now) == Ok::<
                    LedgerView,
                    Error,
                >(final(self)@),
                Err(e) => force_unstake_spec(old(self)@, farm, manager, owner, mint, now) == Err::<
                    LedgerView,
                    Error,
                >(e) && final(self)@ == old(self)@,
            },
    {
        if self.find_manager(farm, manager).is_none() {
            return Err(Error::NotAuthorized);
        }
        self.close_position(FarmerKey { farm, owner }, mint, now, false)
    }

    /// Claims the accrued reward: settles the farmer and transfers the whole
    /// accrued amount from the farm's reward vault, zeroing the counter.  A
    /// vault holding less than the accrued reward fails the claim and leaves
    /// every balance, the accrued counter included, as it was.
    pub fn claim_rewards(&mut self, farm: FarmKey, owner: u64, now: u64) -> (r: Result<u64, Error>)
        requires
            old(self)@.wf(),
        ensures
            final(self)@.wf(),
            match r {
                Ok(claimed) => claim_rewards_spec(old(self)@, farm, owner, now) == Ok::<
                    (LedgerView, u64),
                    Error,
                >((final(self)@, claimed)),
                Err(e) => claim_rewards_spec(old(self)@, farm, owner, now) == Err::<
                    (LedgerView, u64),
                    Error,
                >(e) && final(self)@ == old(self)@,
            },
    {
        let fk = FarmerKey { farm, owner };
        let Some(fi) = self.find_farmer(fk) else {
            return Err(Error::NotFound);
        };
        let Some(farm_i) = self.find_farm(farm) else {
            return Err(Error::NotFound);
        };
        let mut farmer = self.farmers[fi];
        if let Err(e) = farmer.update_accrued_rewards(now) {
            return Err(e);
        }
        let f = self.farms[farm_i];
        let claimed = farmer.accrued_rewards;
        let Some(vault_left) = f.vault_balance.checked_sub(claimed) else {
            return Err(Error::InsufficientFunds);
        };
        farmer.accrued_rewards = 0;
        self.farms[farm_i] = Farm { vault_balance: vault_left, ..f };
        self.farmers[fi] = farmer;
        proof {
            lemma_claim_rewards_wf(old(self)@, farm, owner, now);
            assert(self@ =~= claim_rewards_spec(old(self)@, farm, owner, now).unwrap().0);
        }
        Ok(claimed)
    }

    /// Creates one lock per config, all or nothing: the caller must hold a
    /// manager grant, and any address collision — with an existing lock or
    /// within the batch, the bonus factor being no part of the address —
    /// rejects the whole batch.
    #[verifier::loop_isolation(false)]
    pub fn create_locks(&mut self, farm: FarmKey, manager: u64, configs: &Vec<LockConfig>) -> (r:
        Result<(), Error>)
        requires
            old(self)@.wf(),
        ensures
            final(self)@.wf(),
            match r {
                Ok(()) => create_locks_spec(old(self)@, farm, manager, configs@) == Ok::<
                    LedgerView,
                    Error,
                >(final(self)@),
                Err(e) => create_locks_spec(old(self)@, farm, manager, configs@) == Err::<
                    LedgerView,
                    Error,
                >(e) && final(self)@ == old(self)@,
            },
    {
        if self.find_manager(farm, manager).is_none() {
            return Err(Error::NotAuthorized);
        }
        let n = configs.len();
        let mut i: usize = 0;
        while i < n
            invariant
                n == configs@.len(),
                i <= n,
                forall|p: int|
                    0 <= p < i ==> lock_idx(
                        self.locks@,
                        lock_of(farm, #[trigger] configs@[p]).key_spec(),
                    ) == self.locks@.len(),
                forall|p: int, q: int|
                    0 <= p < q < i ==> lock_of(farm, #[trigger] configs@[p]).key_spec() != lock_of(
                        farm,
                        #[trigger] configs@[q],
                    ).key_spec(),
            decreases n - i,
        {
            let c = configs[i];
            let key_i = LockKey { farm, duration: c.duration, cooldown: c.cooldown };
            if self.find_lock(key_i).is_some() {
                proof {
                    assert(!locks_collision_free(self.locks@, farm, configs@)) by {
                        assert(lock_of(farm, configs@[i as int]).key_spec() == key_i);
                    }
                }
                return Err(Error::AlreadyExists);
            }
            let mut j: usize = 0;
            while j < i
                invariant
                    n == configs@.len(),
                    j <= i < n,
                    forall|q: int|
                        0 <= q < j ==> lock_of(farm, #[trigger] configs@[q]).key_spec() != lock_of(
                            farm,
                            configs@[i as int],
                        ).key_spec(),
                decreases i - j,
            {
                let d = configs[j];
                if d.duration == c.duration && d.cooldown == c.cooldown {
                    proof {
                        assert(!locks_collision_free(self.locks@, farm, configs@)) by {
                            assert(lock_of(farm, configs@[j as int]).key_spec() == lock_of(
                                farm,
                                configs@[i as int],
                            ).key_spec());
                        }
                    }
                    return Err(Error::AlreadyExists);
                }
                j += 1;
            }
            i += 1;
        }
        proof {
            assert(locks_collision_free(self.locks@, farm, configs@));
        }
        let ghost orig = self.locks@;
        let mut i: usize = 0;
        while i < n
            invariant
                n == configs@.len(),
                i <= n,
                self.locks@ == orig + Seq::new(i as nat, |p: int| lock_of(farm, configs@[p])),
                self.farms@ == old(self).farms@,
                self.managers@ == old(self).managers@,
                self.whitelists@ == old(self).whitelists@,
                self.farmers@ == old(self).farmers@,
                self.receipts@ == old(self).receipts@,
            decreases n - i,
        {
            let c = configs[i];
            self.locks.push(
                Lock { farm, duration: c.duration, cooldown: c.cooldown, bonus_factor: c.bonus_factor },
            );
            proof {
                assert(self.locks@ =~= orig + Seq::new(
                    (i + 1) as nat,
                    |p: int| lock_of(farm, configs@[p]),
                ));
            }
            i += 1;
        }
        proof {
            lemma_create_locks_wf(old(self)@, farm, manager, configs@);
            assert(self@ =~= create_locks_spec(old(self)@, farm, manager, configs@).unwrap());
        }
        Ok(())
    }

    /// All whitelist proofs of a farm, in registry order.
    pub fn get_farm_whitelists(&self, farm: FarmKey) -> (r: Vec<WhitelistProof>)
        ensures
            r@ == whitelists_of(self.whitelists@, farm),
    {
        let n = self.whitelists.len();
        let mut r: Vec<WhitelistProof> = Vec::new();
        let mut i: usize = 0;
        while i < n
            invariant
                n == self.whitelists@.len(),
                i <= n,
                r@ == whitelists_of(self.whitelists@.take(i as int), farm),
            decreases n - i,
        {
            let w = self.whitelists[i];
            if w.farm == farm {
                r.push(w);
            }
            proof {
                let taken = self.whitelists@.take(i + 1);
                assert(taken.drop_last() =~= self.whitelists@.take(i as int));
                assert(taken.last() == w);
            }
            i += 1;
        }
        proof {
            assert(self.whitelists@.take(n as int) =~= self.whitelists@);
        }
        r
    }

    /// All manager grants of a farm, in registry order.
    pub fn get_farm_managers(&self, farm: FarmKey) -> (r: Vec<FarmManager>)
        ensures
            r@ == managers_of(self.managers@, farm),
    {
        let n = self.managers.len();
        let mut r: Vec<FarmManager> = Vec::new();
        let mut i: usize = 0;
        while i < n
            invariant
                n == self.managers@.len(),
                i <= n,
                r@ == managers_of(self.managers@.take(i as int), farm),
            decreases n - i,
        {
            let m = self.managers[i];
            if m.farm == farm {
                r.push(m);
            }
            proof {
                let taken = self.managers@.take(i + 1);
                assert(taken.drop_last() =~= self.managers@.take(i as int));
                assert(taken.last() == m);
            }
            i += 1;
        }
        proof {
            assert(self.managers@.take(n as int) =~= self.managers@);
        }
        r
    }

    /// All locks of a farm, in registry order.
    pub fn list_locks(&self, farm: FarmKey) -> (r: Vec<Lock>)
        ensures
            r@ == locks_of(self.locks@, farm),
    {
        let n = self.locks.len();
        let mut r: Vec<Lock> = Vec::new();
        let mut i: usize = 0;
        while i < n
            invariant
                n == self.locks@.len(),
                i <= n,
                r@ == locks_of(self.locks@.take(i as int), farm),
            decreases n - i,
        {
            let l = self.locks[i];
            if l.farm == farm {
                r.push(l);
            }
            proof {
                let taken = self.locks@.take(i + 1);
                assert(taken.drop_last() =~= self.locks@.take(i as int));
                assert(taken.last() == l);
            }
            i += 1;
        }
        proof {
            assert(self.locks@.take(n as int) =~= self.locks@);
        }
        r
    }

    /// All stake receipts of a farm, open and historical, in registry order.
    pub fn get_farm_receipts(&self, farm: FarmKey) -> (r: Vec<StakeReceipt>)
        ensures
            r@ == receipts_of(self.receipts@, farm),
    {
        let n = self.receipts.len();
        let mut r: Vec<StakeReceipt> = Vec::new();
        let mut i: usize = 0;
        while i < n
            invariant
                n == self.receipts@.len(),
                i <= n,
                r@ == receipts_of(self.receipts@.take(i as int), farm),
            decreases n - i,
        {
            let rec = self.receipts[i];
            if rec.farmer.farm == farm {
                r.push(rec);
            }
            proof {
                let taken = self.receipts@.take(i + 1);
                assert(taken.drop_last() =~= self.receipts@.take(i as int));
                assert(taken.last() == rec);
            }
            i += 1;
        }
        proof {
            assert(self.receipts@.take(n as int) =~= self.receipts@);
        }
        r
    }

    /// All farms on which `owner` holds a manager grant, in registry order.
    pub fn get_manager_farms(&self, owner: u64) -> (r: Vec<Farm>)
        ensures
            r@ == manager_farms(self.farms@, self.managers@, owner),
    {
        let n = self.farms.len();
        let mut r: Vec<Farm> = Vec::new();
        let mut i: usize = 0;
        while i < n
            invariant
                n == self.farms@.len(),
                i <= n,
                r@ == manager_farms(self.farms@.take(i as int), self.managers@, owner),
            decreases n - i,
        {
            let f = self.farms[i];
            if self.find_manager(f.key(), owner).is_some() {
                r.push(f);
            }
            proof {
                let taken = self.farms@.take(i + 1);
                assert(taken.drop_last() =~= self.farms@.take(i as int));
                assert(taken.last() == f);
                lemma_manager_idx(self.managers@, f.key_spec(), owner);
            }
            i += 1;
        }
        proof {
            assert(self.farms@.take(n as int) =~= self.farms@);
        }
        r
    }
}

/// The whitelist proofs of `farm`, in registry order.
pub open spec fn whitelists_of(s: Seq<WhitelistProof>, farm: FarmKey) -> Seq<WhitelistProof>
    decreases s.len(),
{
    if s.len() == 0 {
        Seq::empty()
    } else if s.last().farm == farm {
        whitelists_of(s.drop_last(), farm).push(s.last())
    } else {
        whitelists_of(s.drop_last(), farm)
    }
}

/// The manager grants of `farm`, in registry order.
pub open spec fn managers_of(s: Seq<FarmManager>, farm: FarmKey) -> Seq<FarmManager>
    decreases s.len(),
{
    if s.len() == 0 {
        Seq::empty()
    } else if s.last().farm == farm {
        managers_of(s.drop_last(), farm).push(s.last())
    } else {
        managers_of(s.drop_last(), farm)
    }
}

/// The locks of `farm`, in registry order.
pub open spec fn locks_of(s: Seq<Lock>, farm: FarmKey) -> Seq<Lock>
    decreases s.len(),
{
    if s.len() == 0 {
        Seq::empty()
    } else if s.last().farm == farm {
        locks_of(s.drop_last(), farm).push(s.last())
    } else {
        locks_of(s.drop_last(), farm)
    }
}

/// The stake receipts of `farm`, in registry order.
pub open spec fn receipts_of(s: Seq<StakeReceipt>, farm: FarmKey) -> Seq<StakeReceipt>
    decreases s.len(),
{
    if s.len() == 0 {
        Seq::empty()
    } else if s.last().farmer.farm == farm {
        receipts_of(s.drop_last(), farm).push(s.last())
    } else {
        receipts_of(s.drop_last(), farm)
    }
}

/// The farms on which `owner` holds a manager grant, in registry order.
pub open spec fn manager_farms(farms: Seq<Farm>, managers: Seq<FarmManager>, owner: u64) -> Seq<
    Farm,
>
    decreases farms.len(),
{
    if farms.len() == 0 {
        Seq::empty()
    } else if manager_idx(managers, farms.last().key_spec(), owner) < managers.len() {
        manager_farms(farms.drop_last(), managers, owner).push(farms.last())
    } else {
        manager_farms(farms.drop_last(), managers, owner)
    }
}

} // verus!
