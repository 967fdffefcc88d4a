//! The mathematical model of the ledger: each registry is a sequence of
//! records with pairwise-distinct logical keys, looked up by first match,
//! and every operation of the protocol is a total function from one ledger
//! state to the next or to an error.  The executable [`crate::ledger::Ledger`]
//! proves that each of its operations takes exactly the step the
//! corresponding `*_spec` function here describes.

use vstd::prelude::*;

use crate::address::FarmKey;
use crate::address::FarmerKey;
use crate::address::LockKey;
use crate::error::Error;
use crate::rewards::calculate_reward_rate_spec;
use crate::state::Creator;
use crate::state::Farm;
use crate::state::FarmManager;
use crate::state::Farmer;
use crate::state::Lock;
use crate::state::LockConfig;
use crate::state::StakeReceipt;
use crate::state::WhitelistProof;
use crate::state::WhitelistType;
use crate::state::metadata_creator_spec;
use crate::state::settle_farmer;

verus! {

// ---------------------------------------------------------------------------
// Registry lookups: the index of the first record with a given logical key,
// or the registry's length when no record matches.
// ---------------------------------------------------------------------------

/// Index of the farm with key `k`, or `s.len()` if there is none.
pub open spec fn farm_idx(s: Seq<Farm>, k: FarmKey) -> int
    decreases s.len(),
{
    if s.len() == 0 {
        0
    } else if s[0].key_spec() == k {
        0
    } else {
        1 + farm_idx(s.drop_first(), k)
    }
}

/// Index of the manager record of `owner` on `farm`, or `s.len()`.
pub open spec fn manager_idx(s: Seq<FarmManager>, farm: FarmKey, owner: u64) -> int
    decreases s.len(),
{
    if s.len() == 0 {
        0
    } else if s[0].farm == farm && s[0].authority == owner {
        0
    } else {
        1 + manager_idx(s.drop_first(), farm, owner)
    }
}

/// Index of the whitelist proof for `target` on `farm`, or `s.len()`.
pub open spec fn whitelist_idx(s: Seq<WhitelistProof>, farm: FarmKey, target: u64) -> int
    decreases s.len(),
{
    if s.len() == 0 {
        0
    } else if s[0].farm == farm && s[0].whitelisted_address == target {
        0
    } else {
        1 + whitelist_idx(s.drop_first(), farm, target)
    }
}

/// Index of the lock with key `k`, or `s.len()`.
pub open spec fn lock_idx(s: Seq<Lock>, k: LockKey) -> int
    decreases s.len(),
{
    if s.len() == 0 {
        0
    } else if s[0].key_spec() == k {
        0
    } else {
        1 + lock_idx(s.drop_first(), k)
    }
}

/// Index of the farmer with key `k`, or `s.len()`.
pub open spec fn farmer_idx(s: Seq<Farmer>, k: FarmerKey) -> int
    decreases s.len(),
{
    if s.len() == 0 {
        0
    } else if s[0].key_spec() == k {
        0
    } else {
        1 + farmer_idx(s.drop_first(), k)
    }
}

/// Index of the stake receipt of `farmer` for `mint`, or `s.len()`.
pub open spec fn receipt_idx(s: Seq<StakeReceipt>, farmer: FarmerKey, mint: u64) -> int
    decreases s.len(),
{
    if s.len() == 0 {
        0
    } else if s[0].farmer == farmer && s[0].mint == mint {
        0
    } else {
        1 + receipt_idx(s.drop_first(), farmer, mint)
    }
}

/// Whether some farm in `s` has key `k`.
pub open spec fn contains_farm(s: Seq<Farm>, k: FarmKey) -> bool {
    exists|i: int| 0 <= i < s.len() && (#[trigger] s[i]).key_spec() == k
}

/// Whether some farmer in `s` has key `k`.
pub open spec fn contains_farmer(s: Seq<Farmer>, k: FarmerKey) -> bool {
    exists|i: int| 0 <= i < s.len() && (#[trigger] s[i]).key_spec() == k
}

/// Characterization of `farm_idx`: it stays in bounds, points at the key it
/// was asked for, is the first such index, and lies strictly inside the
/// registry exactly when the key is present.
pub proof fn lemma_farm_idx(s: Seq<Farm>, k: FarmKey)
    ensures
        0 <= farm_idx(s, k) <= s.len(),
        farm_idx(s, k) < s.len() ==> s[farm_idx(s, k)].key_spec() == k,
        forall|j: int| 0 <= j < farm_idx(s, k) ==> (#[trigger] s[j]).key_spec() != k,
        farm_idx(s, k) < s.len() <==> contains_farm(s, k),
    decreases s.len(),
{
    if s.len() > 0 && s[0].key_spec() != k {
        lemma_farm_idx(s.drop_first(), k);
        assert forall|j: int| 0 <= j < farm_idx(s, k) implies (#[trigger] s[j]).key_spec() != k by {
            if j > 0 {
                assert(s.drop_first()[j - 1] == s[j]);
                assert(s.drop_first()[j - 1].key_spec() != k);
            }
        }
        if farm_idx(s, k) < s.len() {
            assert(contains_farm(s, k)) by {
                assert(s[farm_idx(s, k)].key_spec() == k);
            }
        }
        if contains_farm(s, k) {
            let w = choose|i: int| 0 <= i < s.len() && (#[trigger] s[i]).key_spec() == k;
            assert(w > 0);
            assert(s.drop_first()[w - 1].key_spec() == k);
            assert(contains_farm(s.drop_first(), k));
        }
    }
}

/// Characterization of `manager_idx`; see `lemma_farm_idx`.
pub proof fn lemma_manager_idx(s: Seq<FarmManager>, farm: FarmKey, owner: u64)
    ensures
        0 <= manager_idx(s, farm, owner) <= s.len(),
        manager_idx(s, farm, owner) < s.len() ==> s[manager_idx(s, farm, owner)].farm == farm
            && s[manager_idx(s, farm, owner)].authority == owner,
        forall|j: int| 0 <= j < manager_idx(s, farm, owner) ==> !((#[trigger] s[j]).farm == farm
            && s[j].authority == owner),
    decreases s.len(),
{
    if s.len() > 0 && !(s[0].farm == farm && s[0].authority == owner) {
        lemma_manager_idx(s.drop_first(), farm, owner);
        assert forall|j: int| 0 <= j < manager_idx(s, farm, owner) implies !((#[trigger] s[j]).farm
            == farm && s[j].authority == owner) by {
            if j > 0 {
                assert(s.drop_first()[j - 1] == s[j]);
                assert(!(s.drop_first()[j - 1].farm == farm && s.drop_first()[j - 1].authority
                    == owner));
            }
        }
    }
}

/// Characterization of `whitelist_idx`; see `lemma_farm_idx`.
pub proof fn lemma_whitelist_idx(s: Seq<WhitelistProof>, farm: FarmKey, target: u64)
    ensures
        0 <= whitelist_idx(s, farm, target) <= s.len(),
        whitelist_idx(s, farm, target) < s.len() ==> s[whitelist_idx(s, farm, target)].farm == farm
            && s[whitelist_idx(s, farm, target)].whitelisted_address == target,
        forall|j: int| 0 <= j < whitelist_idx(s, farm, target) ==> !((#[trigger] s[j]).farm == farm
            && s[j].whitelisted_address == target),
    decreases s.len(),
{
    if s.len() > 0 && !(s[0].farm == farm && s[0].whitelisted_address == target) {
        lemma_whitelist_idx(s.drop_first(), farm, target);
        assert forall|j: int| 0 <= j < whitelist_idx(s, farm, target) implies !((
        #[trigger] s[j]).farm == farm && s[j].whitelisted_address == target) by {
            if j > 0 {
                assert(s.drop_first()[j - 1] == s[j]);
                assert(!(s.drop_first()[j - 1].farm == farm && s.drop_first()[
                    j - 1].whitelisted_address == target));
            }
        }
    }
}

/// Characterization of `lock_idx`; see `lemma_farm_idx`.
pub proof fn lemma_lock_idx(s: Seq<Lock>, k: LockKey)
    ensures
        0 <= lock_idx(s, k) <= s.len(),
        lock_idx(s, k) < s.len() ==> s[lock_idx(s, k)].key_spec() == k,
        forall|j: int| 0 <= j < lock_idx(s, k) ==> (#[trigger] s[j]).key_spec() != k,
    decreases s.len(),
{
    if s.len() > 0 && s[0].key_spec() != k {
        lemma_lock_idx(s.drop_first(), k);
        assert forall|j: int| 0 <= j < lock_idx(s, k) implies (#[trigger] s[j]).key_spec() != k by {
            if j > 0 {
                assert(s.drop_first()[j - 1] == s[j]);
                assert(s.drop_first()[j - 1].key_spec() != k);
            }
        }
    }
}

/// Characterization of `farmer_idx`; see `lemma_farm_idx`.
pub proof fn lemma_farmer_idx(s: Seq<Farmer>, k: FarmerKey)
    ensures
        0 <= farmer_idx(s, k) <= s.len(),
        farmer_idx(s, k) < s.len() ==> s[farmer_idx(s, k)].key_spec() == k,
        forall|j: int| 0 <= j < farmer_idx(s, k) ==> (#[trigger] s[j]).key_spec() != k,
        farmer_idx(s, k) < s.len() <==> contains_farmer(s, k),
    decreases s.len(),
{
    if s.len() > 0 && s[0].key_spec() != k {
        lemma_farmer_idx(s.drop_first(), k);
        assert forall|j: int| 0 <= j < farmer_idx(s, k) implies (#[trigger] s[j]).key_spec()
            != k by {
            if j > 0 {
                assert(s.drop_first()[j - 1] == s[j]);
                assert(s.drop_first()[j - 1].key_spec() != k);
            }
        }
        if farmer_idx(s, k) < s.len() {
            assert(contains_farmer(s, k)) by {
                assert(s[farmer_idx(s, k)].key_spec() == k);
            }
        }
        if contains_farmer(s, k) {
            let w = choose|i: int| 0 <= i < s.len() && (#[trigger] s[i]).key_spec() == k;
            assert(w > 0);
            assert(s.drop_first()[w - 1].key_spec() == k);
            assert(contains_farmer(s.drop_first(), k));
        }
    }
}

/// Characterization of `receipt_idx`; see `lemma_farm_idx`.
pub proof fn lemma_receipt_idx(s: Seq<StakeReceipt>, farmer: FarmerKey, mint: u64)
    ensures
        0 <= receipt_idx(s, farmer, mint) <= s.len(),
        receipt_idx(s, farmer, mint) < s.len() ==> s[receipt_idx(s, farmer, mint)].farmer == farmer
            && s[receipt_idx(s, farmer, mint)].mint == mint,
        forall|j: int| 0 <= j < receipt_idx(s, farmer, mint) ==> !((#[trigger] s[j]).farmer
            == farmer && s[j].mint == mint),
    decreases s.len(),
{
    if s.len() > 0 && !(s[0].farmer == farmer && s[0].mint == mint) {
        lemma_receipt_idx(s.drop_first(), farmer, mint);
        assert forall|j: int| 0 <= j < receipt_idx(s, farmer, mint) implies !((
        #[trigger] s[j]).farmer == farmer && s[j].mint == mint) by {
            if j > 0 {
                assert(s.drop_first()[j - 1] == s[j]);
                assert(!(s.drop_first()[j - 1].farmer == farmer && s.drop_first()[j - 1].mint
                    == mint));
            }
        }
    }
}

// ---------------------------------------------------------------------------
// The aggregate reward rate of a farmer is the sum of the rates of its open
// positions.
// ---------------------------------------------------------------------------

/// What one receipt contributes to a farmer's aggregate rate: its effective
/// rate while the position is open, nothing once it is closed.
pub open spec fn rate_share(r: StakeReceipt, fk: FarmerKey) -> int {
    if r.farmer == fk && r.end_ts is None {
        r.reward_rate as int
    } else {
        0
    }
}

/// Sum of the effective rates of the farmer's open positions.
pub open spec fn sum_open_rates(s: Seq<StakeReceipt>, fk: FarmerKey) -> int
    decreases s.len(),
{
    if s.len() == 0 {
        0
    } else {
        sum_open_rates(s.drop_last(), fk) + rate_share(s.last(), fk)
    }
}

/// Appending a receipt adds exactly its contribution to the sum.
pub proof fn lemma_sum_push(s: Seq<StakeReceipt>, r: StakeReceipt, fk: FarmerKey)
    ensures
        sum_open_rates(s.push(r), fk) == sum_open_rates(s, fk) + rate_share(r, fk),
{
    assert(s.push(r).drop_last() =~= s);
}

/// Replacing the receipt at `i` swaps its contribution in the sum.
pub proof fn lemma_sum_update(s: Seq<StakeReceipt>, i: int, r: StakeReceipt, fk: FarmerKey)
    requires
        0 <= i < s.len(),
    ensures
        sum_open_rates(s.update(i, r), fk) == sum_open_rates(s, fk) - rate_share(s[i], fk) + rate_share(
            r,
            fk,
        ),
    decreases s.len(),
{
    if i == s.len() - 1 {
        assert(s.update(i, r).drop_last() =~= s.drop_last());
    } else {
        assert(s.update(i, r).drop_last() =~= s.drop_last().update(i, r));
        lemma_sum_update(s.drop_last(), i, r, fk);
    }
}

/// The sum of open rates is never negative.
pub proof fn lemma_sum_nonneg(s: Seq<StakeReceipt>, fk: FarmerKey)
    ensures
        sum_open_rates(s, fk) >= 0,
    decreases s.len(),
{
    if s.len() > 0 {
        lemma_sum_nonneg(s.drop_last(), fk);
    }
}

/// Each open position's rate is at most the farmer's aggregate rate.
pub proof fn lemma_share_le_sum(s: Seq<StakeReceipt>, i: int, fk: FarmerKey)
    requires
        0 <= i < s.len(),
    ensures
        rate_share(s[i], fk) <= sum_open_rates(s, fk),
    decreases s.len(),
{
    if i == s.len() - 1 {
        lemma_sum_nonneg(s.drop_last(), fk);
    } else {
        lemma_share_le_sum(s.drop_last(), i, fk);
        assert(rate_share(s.last(), fk) >= 0);
    }
}

/// A farmer with no receipts at all has aggregate rate zero.
pub proof fn lemma_sum_zero(s: Seq<StakeReceipt>, fk: FarmerKey)
    requires
        forall|i: int| 0 <= i < s.len() ==> (#[trigger] s[i]).farmer != fk,
    ensures
        sum_open_rates(s, fk) == 0,
    decreases s.len(),
{
    if s.len() > 0 {
        lemma_sum_zero(s.drop_last(), fk);
    }
}

// ---------------------------------------------------------------------------
// The ledger state and its well-formedness invariant.
// ---------------------------------------------------------------------------

/// Abstract state of the whole protocol: one sequence per record kind.
#[verifier::ext_equal]
pub struct LedgerView {
    /// All farms, keyed by (authority, reward mint).
    pub farms: Seq<Farm>,
    /// All manager grants, keyed by (farm, manager identity).
    pub managers: Seq<FarmManager>,
    /// All whitelist proofs, keyed by (farm, whitelisted identity).
    pub whitelists: Seq<WhitelistProof>,
    /// All locks, keyed by (farm, duration, cooldown).
    pub locks: Seq<Lock>,
    /// All farmers, keyed by (farm, owner).
    pub farmers: Seq<Farmer>,
    /// All stake receipts, keyed by (farmer, mint).
    pub receipts: Seq<StakeReceipt>,
}

impl LedgerView {
    /// At most one record per logical key, in every registry.
    pub open spec fn keys_unique(self) -> bool {
        &&& forall|i: int, j: int|
            0 <= i < j < self.farms.len() ==> (#[trigger] self.farms[i]).key_spec() != (
            #[trigger] self.farms[j]).key_spec()
        &&& forall|i: int, j: int|
            0 <= i < j < self.managers.len() ==> !((#[trigger] self.managers[i]).farm == (
            #[trigger] self.managers[j]).farm && self.managers[i].authority
                == self.managers[j].authority)
        &&& forall|i: int, j: int|
            0 <= i < j < self.whitelists.len() ==> !((#[trigger] self.whitelists[i]).farm == (
            #[trigger] self.whitelists[j]).farm && self.whitelists[i].whitelisted_address
                == self.whitelists[j].whitelisted_address)
        &&& forall|i: int, j: int|
            0 <= i < j < self.locks.len() ==> (#[trigger] self.locks[i]).key_spec() != (
            #[trigger] self.locks[j]).key_spec()
        &&& forall|i: int, j: int|
            0 <= i < j < self.farmers.len() ==> (#[trigger] self.farmers[i]).key_spec() != (
            #[trigger] self.farmers[j]).key_spec()
        &&& forall|i: int, j: int|
            0 <= i < j < self.receipts.len() ==> !((#[trigger] self.receipts[i]).farmer == (
            #[trigger] self.receipts[j]).farmer && self.receipts[i].mint == self.receipts[j].mint)
    }

    /// Every record that names a farm names one that exists, and every
    /// receipt belongs to a farmer that exists.
    pub open spec fn references_hold(self) -> bool {
        &&& forall|i: int|
            0 <= i < self.managers.len() ==> contains_farm(
                self.farms,
                (#[trigger] self.managers[i]).farm,
            )
        &&& forall|i: int|
            0 <= i < self.whitelists.len() ==> contains_farm(
                self.farms,
                (#[trigger] self.whitelists[i]).farm,
            )
        &&& forall|i: int|
            0 <= i < self.locks.len() ==> contains_farm(
                self.farms,
                (#[trigger] self.locks[i]).farm,
            )
        &&& forall|i: int|
            0 <= i < self.farmers.len() ==> contains_farm(
                self.farms,
                (#[trigger] self.farmers[i]).farm,
            )
        &&& forall|i: int|
            0 <= i < self.receipts.len() ==> contains_farmer(
                self.farmers,
                (#[trigger] self.receipts[i]).farmer,
            )
    }

    /// Each farmer's aggregate rate equals the sum of the effective rates of
    /// its open positions, and each open position's custody vault holds at
    /// least the staked amount.
    pub open spec fn accounting_holds(self) -> bool {
        &&& forall|i: int|
            0 <= i < self.farmers.len() ==> (#[trigger] self.farmers[i]).reward_rate
                == sum_open_rates(self.receipts, self.farmers[i].key_spec())
        &&& forall|i: int|
            0 <= i < self.receipts.len() && (#[trigger] self.receipts[i]).end_ts is None
                ==> self.receipts[i].vault_balance >= self.receipts[i].amount
    }

    /// The ledger invariant every operation preserves.
    pub open spec fn wf(self) -> bool {
        &&& self.keys_unique()
        &&& self.references_hold()
        &&& self.accounting_holds()
    }
}

// ---------------------------------------------------------------------------
// The operations, as total functions from ledger state to ledger state or
// error.  Every operation is atomic: an error leaves the state untouched.
// ---------------------------------------------------------------------------

/// The empty ledger.
pub open spec fn empty_ledger() -> LedgerView {
    LedgerView {
        farms: Seq::empty(),
        managers: Seq::empty(),
        whitelists: Seq::empty(),
        locks: Seq::empty(),
        farmers: Seq::empty(),
        receipts: Seq::empty(),
    }
}

/// Creating a farm records it under its derived key and makes its authority
/// the first manager; a farm with the same authority and reward mint must
/// not already exist.
pub open spec fn create_farm_spec(v: LedgerView, authority: u64, reward_mint: u64) -> Result<
    LedgerView,
    Error,
> {
    let key = FarmKey { authority, reward_mint };
    if farm_idx(v.farms, key) < v.farms.len() {
        Err(Error::AlreadyExists)
    } else {
        Ok(
            LedgerView {
                farms: v.farms.push(Farm { authority, reward_mint, vault_balance: 0 }),
                managers: v.managers.push(FarmManager { farm: key, authority }),
                ..v
            },
        )
    }
}

/// Adding a manager requires the requester to be the farm authority or an
/// existing manager; a grant for the same owner must not already exist.
pub open spec fn add_manager_spec(
    v: LedgerView,
    farm: FarmKey,
    requester: u64,
    manager_owner: u64,
) -> Result<LedgerView, Error> {
    let fi = farm_idx(v.farms, farm);
    if fi >= v.farms.len() {
        Err(Error::NotFound)
    } else if !(v.farms[fi].authority == requester || manager_idx(v.managers, farm, requester)
        < v.managers.len()) {
        Err(Error::NotAuthorized)
    } else if manager_idx(v.managers, farm, manager_owner) < v.managers.len() {
        Err(Error::AlreadyExists)
    } else {
        Ok(
            LedgerView {
                managers: v.managers.push(FarmManager { farm, authority: manager_owner }),
                ..v
            },
        )
    }
}

/// Whitelisting an identity requires a manager grant and records the proof
/// under (farm, identity); a proof for the same identity must not exist.
pub open spec fn add_to_whitelist_spec(
    v: LedgerView,
    farm: FarmKey,
    manager: u64,
    target: u64,
    ty: WhitelistType,
    reward_rate: u64,
) -> Result<LedgerView, Error> {
    if manager_idx(v.managers, farm, manager) >= v.managers.len() {
        Err(Error::NotAuthorized)
    } else if whitelist_idx(v.whitelists, farm, target) < v.whitelists.len() {
        Err(Error::AlreadyExists)
    } else {
        Ok(
            LedgerView {
                whitelists: v.whitelists.push(
                    WhitelistProof { farm, whitelisted_address: target, ty, reward_rate },
                ),
                ..v
            },
        )
    }
}

/// Removing a whitelist entry requires a manager grant and deletes the
/// proof's storage; stakes already made against it stay valid.
pub open spec fn remove_from_whitelist_spec(
    v: LedgerView,
    farm: FarmKey,
    manager: u64,
    target: u64,
) -> Result<LedgerView, Error> {
    let wi = whitelist_idx(v.whitelists, farm, target);
    if manager_idx(v.managers, farm, manager) >= v.managers.len() {
        Err(Error::NotAuthorized)
    } else if wi >= v.whitelists.len() {
        Err(Error::NotFound)
    } else {
        Ok(LedgerView { whitelists: v.whitelists.remove(wi), ..v })
    }
}

/// The lock record a config describes on a farm.
pub open spec fn lock_of(farm: FarmKey, c: LockConfig) -> Lock {
    Lock { farm, duration: c.duration, cooldown: c.cooldown, bonus_factor: c.bonus_factor }
}

/// Whether a batch of lock configs is free of address collisions on `farm`:
/// no config's (duration, cooldown) pair may match an existing lock nor
/// another config of the batch.  The bonus factor takes no part in the
/// address, so two configs that differ only in it do collide.
pub open spec fn locks_collision_free(ls: Seq<Lock>, farm: FarmKey, cs: Seq<LockConfig>) -> bool {
    &&& forall|i: int|
        0 <= i < cs.len() ==> lock_idx(ls, lock_of(farm, #[trigger] cs[i]).key_spec()) >= ls.len()
    &&& forall|i: int, j: int|
        0 <= i < j < cs.len() ==> lock_of(farm, #[trigger] cs[i]).key_spec() != lock_of(
            farm,
            #[trigger] cs[j],
        ).key_spec()
}

/// Creating locks requires a manager grant and records one lock per config,
/// all or nothing: any address collision rejects the whole batch.
pub open spec fn create_locks_spec(
    v: LedgerView,
    farm: FarmKey,
    manager: u64,
    cs: Seq<LockConfig>,
) -> Result<LedgerView, Error> {
    if manager_idx(v.managers, farm, manager) >= v.managers.len() {
        Err(Error::NotAuthorized)
    } else if !locks_collision_free(v.locks, farm, cs) {
        Err(Error::AlreadyExists)
    } else {
        Ok(LedgerView { locks: v.locks + Seq::new(cs.len(), |i: int| lock_of(farm, cs[i])), ..v })
    }
}

/// Funding the reward vault requires a manager grant and raises the vault
/// balance by the deposited amount.
pub open spec fn fund_reward_spec(v: LedgerView, farm: FarmKey, manager: u64, amount: u64) -> Result<
    LedgerView,
    Error,
> {
    let fi = farm_idx(v.farms, farm);
    if manager_idx(v.managers, farm, manager) >= v.managers.len() {
        Err(Error::NotAuthorized)
    } else if fi >= v.farms.len() {
        Err(Error::NotFound)
    } else if v.farms[fi].vault_balance + amount > u64::MAX {
        Err(Error::ArithmeticError)
    } else {
        Ok(
            LedgerView {
                farms: v.farms.update(
                    fi,
                    Farm {
                        vault_balance: (v.farms[fi].vault_balance + amount) as u64,
                        ..v.farms[fi]
                    },
                ),
                ..v
            },
        )
    }
}

/// Initializing a farmer records one per (farm, owner), starting with rate
/// zero, nothing accrued, and settlement anchored at `now`.
pub open spec fn initialize_farmer_spec(v: LedgerView, farm: FarmKey, owner: u64, now: u64) -> Result<
    LedgerView,
    Error,
> {
    if farm_idx(v.farms, farm) >= v.farms.len() {
        Err(Error::NotFound)
    } else if farmer_idx(v.farmers, FarmerKey { farm, owner }) < v.farmers.len() {
        Err(Error::AlreadyExists)
    } else {
        Ok(
            LedgerView {
                farmers: v.farmers.push(
                    Farmer { farm, owner, reward_rate: 0, accrued_rewards: 0, last_update: now },
                ),
                ..v
            },
        )
    }
}

/// The base reward rate a staked asset is entitled to: the rate of a
/// mint-kind proof matching the asset's mint directly, or else the rate of
/// a creator-kind proof matching the verified creator recovered from the
/// asset's metadata.
pub open spec fn resolve_base_rate(
    ws: Seq<WhitelistProof>,
    farm: FarmKey,
    mint: u64,
    meta: Option<Seq<Creator>>,
) -> Result<u64, Error> {
    let mi = whitelist_idx(ws, farm, mint);
    if mi < ws.len() && ws[mi].ty == WhitelistType::Mint {
        Ok(ws[mi].reward_rate)
    } else {
        match metadata_creator_spec(meta) {
            Err(e) => Err(e),
            Ok(creator) => {
                let ci = whitelist_idx(ws, farm, creator);
                if ci < ws.len() && ws[ci].ty == WhitelistType::Creator {
                    Ok(ws[ci].reward_rate)
                } else {
                    Err(Error::NotWhitelisted)
                }
            },
        }
    }
}

/// The bonus factor of the lock a staker selected: zero without a lock, the
/// registered lock's bonus otherwise.  The lock must belong to the farm and
/// exist in its registry.
pub open spec fn resolve_bonus_factor(ls: Seq<Lock>, farm: FarmKey, lock: Option<LockKey>) -> Result<
    u64,
    Error,
> {
    match lock {
        None => Ok(0u64),
        Some(lk) => {
            if lk.farm != farm {
                Err(Error::NotFound)
            } else {
                let li = lock_idx(ls, lk);
                if li < ls.len() {
                    Ok(ls[li].bonus_factor as u64)
                } else {
                    Err(Error::NotFound)
                }
            }
        },
    }
}

/// Whether a closed receipt's lock still blocks re-staking the asset: the
/// cooldown runs from the moment the position was closed.
pub open spec fn cooldown_blocks(r: StakeReceipt, now: u64) -> bool {
    match r.end_ts {
        None => false,
        Some(end) => match r.lock {
            None => false,
            Some(lk) => now < end + lk.cooldown,
        },
    }
}

/// Staking an eligible asset settles the farmer at the pre-stake rate,
/// opens a receipt at the effective rate, moves the asset into the custody
/// vault, and raises the farmer's aggregate rate by the effective rate.
pub open spec fn stake_spec(
    v: LedgerView,
    farm: FarmKey,
    owner: u64,
    mint: u64,
    amount: u64,
    lock: Option<LockKey>,
    meta: Option<Seq<Creator>>,
    now: u64,
) -> Result<LedgerView, Error> {
    let fk = FarmerKey { farm, owner };
    let fi = farmer_idx(v.farmers, fk);
    if fi >= v.farmers.len() {
        Err(Error::NotFound)
    } else {
        match resolve_base_rate(v.whitelists, farm, mint, meta) {
            Err(e) => Err(e),
            Ok(base) => match resolve_bonus_factor(v.locks, farm, lock) {
                Err(e) => Err(e),
                Ok(factor) => match calculate_reward_rate_spec(base, factor) {
                    Err(e) => Err(e),
                    Ok(eff) => {
                        let ri = receipt_idx(v.receipts, fk, mint);
                        let restake = ri < v.receipts.len();
                        if restake && v.receipts[ri].end_ts is None {
                            Err(Error::AlreadyStaked)
                        } else if restake && cooldown_blocks(v.receipts[ri], now) {
                            Err(Error::CooldownNotExpired)
                        } else if restake && v.receipts[ri].vault_balance + amount > u64::MAX {
                            Err(Error::ArithmeticError)
                        } else {
                            match settle_farmer(v.farmers[fi], now) {
                                Err(e) => Err(e),
                                Ok(settled) => {
                                    if settled.reward_rate + eff > u64::MAX {
                                        Err(Error::ArithmeticError)
                                    } else {
                                        let vault = if restake {
                                            (v.receipts[ri].vault_balance + amount) as u64
                                        } else {
                                            amount
                                        };
                                        let receipt = StakeReceipt {
                                            farmer: fk,
                                            mint,
                                            lock,
                                            start_ts: now,
                                            end_ts: None,
                                            amount,
                                            reward_rate: eff,
                                            vault_balance: vault,
                                        };
                                        let farmer = Farmer {
                                            reward_rate: (settled.reward_rate + eff) as u64,
                                            ..settled
                                        };
                                        Ok(
                                            LedgerView {
                                                farmers: v.farmers.update(fi, farmer),
                                                receipts: if restake {
                                                    v.receipts.update(ri, receipt)
                                                } else {
                                                    v.receipts.push(receipt)
                                                },
                                                ..v
                                            },
                                        )
                                    }
                                },
                            }
                        }
                    },
                },
            },
        }
    }
}

/// Closing a position: settles the farmer at the pre-close rate, lowers the
/// aggregate rate by the receipt's effective rate, marks the receipt closed
/// at `now`, and returns the staked tokens from the custody vault, which is
/// closed exactly when its balance reaches zero.  With `enforce_duration`
/// the referenced lock's staking duration must have elapsed.
pub open spec fn close_position_spec(
    v: LedgerView,
    fk: FarmerKey,
    mint: u64,
    now: u64,
    enforce_duration: bool,
) -> Result<LedgerView, Error> {
    let fi = farmer_idx(v.farmers, fk);
    let ri = receipt_idx(v.receipts, fk, mint);
    if fi >= v.farmers.len() {
        Err(Error::NotFound)
    } else if ri >= v.receipts.len() {
        Err(Error::NotFound)
    } else if v.receipts[ri].end_ts is Some {
        Err(Error::AlreadyUnstaked)
    } else if enforce_duration && (match v.receipts[ri].lock {
        None => false,
        Some(lk) => now < v.receipts[ri].start_ts + lk.duration,
    }) {
        Err(Error::LockNotExpired)
    } else {
        match settle_farmer(v.farmers[fi], now) {
            Err(e) => Err(e),
            Ok(settled) => {
                let r = v.receipts[ri];
                if settled.reward_rate < r.reward_rate {
                    Err(Error::ArithmeticError)
                } else if r.vault_balance < r.amount {
                    Err(Error::ArithmeticError)
                } else {
                    Ok(
                        LedgerView {
                            farmers: v.farmers.update(
                                fi,
                                Farmer {
                                    reward_rate: (settled.reward_rate - r.reward_rate) as u64,
                                    ..settled
                                },
                            ),
                            receipts: v.receipts.update(
                                ri,
                                StakeReceipt {
                                    end_ts: Some(now),
                                    vault_balance: (r.vault_balance - r.amount) as u64,
                                    ..r
                                },
                            ),
                            ..v
                        },
                    )
                }
            },
        }
    }
}

/// Unstaking is closing one's own position once the lock's duration has
/// elapsed.
pub open spec fn unstake_spec(v: LedgerView, farm: FarmKey, owner: u64, mint: u64, now: u64) -> Result<
    LedgerView,
    Error,
> {
    close_position_spec(v, FarmerKey { farm, owner }, mint, now, true)
}

/// Force-unstaking is a manager overriding the time lock: the same closing
/// step, settlement and rate decrement included, without the duration
/// check.
pub open spec fn force_unstake_spec(
    v: LedgerView,
    farm: FarmKey,
    manager: u64,
    owner: u64,
    mint: u64,
    now: u64,
) -> Result<LedgerView, Error> {
    if manager_idx(v.managers, farm, manager) >= v.managers.len() {
        Err(Error::NotAuthorized)
    } else {
        close_position_spec(v, FarmerKey { farm, owner }, mint, now, false)
    }
}

/// Claiming settles the farmer and pays the whole accrued reward out of the
/// farm's vault; a vault holding less than the accrued reward fails the
/// claim and leaves every balance as it was.
pub open spec fn claim_rewards_spec(v: LedgerView, farm: FarmKey, owner: u64, now: u64) -> Result<
    (LedgerView, u64),
    Error,
> {
    let fk = FarmerKey { farm, owner };
    let fi = farmer_idx(v.farmers, fk);
    let farm_i = farm_idx(v.farms, farm);
    if fi >= v.farmers.len() {
        Err(Error::NotFound)
    } else if farm_i >= v.farms.len() {
        Err(Error::NotFound)
    } else {
        match settle_farmer(v.farmers[fi], now) {
            Err(e) => Err(e),
            Ok(settled) => {
                if v.farms[farm_i].vault_balance < settled.accrued_rewards {
                    Err(Error::InsufficientFunds)
                } else {
                    Ok(
                        (
                            LedgerView {
                                farms: v.farms.update(
                                    farm_i,
                                    Farm {
                                        vault_balance: (v.farms[farm_i].vault_balance
                                            - settled.accrued_rewards) as u64,
                                        ..v.farms[farm_i]
                                    },
                                ),
                                farmers: v.farmers.update(
                                    fi,
                                    Farmer { accrued_rewards: 0, ..settled },
                                ),
                                ..v
                            },
                            settled.accrued_rewards,
                        ),
                    )
                }
            },
        }
    }
}

// ---------------------------------------------------------------------------
// Every operation preserves the ledger invariant.
// ---------------------------------------------------------------------------

/// A farm key found in a registry is still found after records are appended
/// or replaced by records with the same keys.
pub proof fn lemma_contains_farm_mono(s1: Seq<Farm>, s2: Seq<Farm>, k: FarmKey)
    requires
        s1.len() <= s2.len(),
        forall|i: int| 0 <= i < s1.len() ==> (#[trigger] s2[i]).key_spec() == s1[i].key_spec(),
        contains_farm(s1, k),
    ensures
        contains_farm(s2, k),
{
    let w = choose|i: int| 0 <= i < s1.len() && (#[trigger] s1[i]).key_spec() == k;
    assert(s2[w].key_spec() == k);
}

/// A farmer key found in a registry is still found after records are
/// appended or replaced by records with the same keys.
pub proof fn lemma_contains_farmer_mono(s1: Seq<Farmer>, s2: Seq<Farmer>, k: FarmerKey)
    requires
        s1.len() <= s2.len(),
        forall|i: int| 0 <= i < s1.len() ==> (#[trigger] s2[i]).key_spec() == s1[i].key_spec(),
        contains_farmer(s1, k),
    ensures
        contains_farmer(s2, k),
{
    let w = choose|i: int| 0 <= i < s1.len() && (#[trigger] s1[i]).key_spec() == k;
    assert(s2[w].key_spec() == k);
}

/// Creating a farm preserves the invariant.
pub proof fn lemma_create_farm_wf(v: LedgerView, authority: u64, reward_mint: u64)
    requires
        v.wf(),
        create_farm_spec(v, authority, reward_mint) is Ok,
    ensures
        create_farm_spec(v, authority, reward_mint).unwrap().wf(),
{
    let key = FarmKey { authority, reward_mint };
    let post = create_farm_spec(v, authority, reward_mint).unwrap();
    lemma_farm_idx(v.farms, key);
    assert forall|i: int, j: int| 0 <= i < j < post.farms.len() implies (
    #[trigger] post.farms[i]).key_spec() != (#[trigger] post.farms[j]).key_spec() by {
        if j == v.farms.len() {
            assert(!contains_farm(v.farms, key));
            assert(post.farms[i] == v.farms[i]);
            if post.farms[i].key_spec() == key {
                assert(contains_farm(v.farms, key));
            }
        }
    }
    assert forall|i: int, j: int| 0 <= i < j < post.managers.len() implies !((
    #[trigger] post.managers[i]).farm == (#[trigger] post.managers[j]).farm
        && post.managers[i].authority == post.managers[j].authority) by {
        if j == v.managers.len() {
            if post.managers[i].farm == key {
                assert(contains_farm(v.farms, v.managers[i].farm));
            }
        }
    }
    assert forall|i: int| 0 <= i < post.managers.len() implies contains_farm(
        post.farms,
        (#[trigger] post.managers[i]).farm,
    ) by {
        if i < v.managers.len() {
            lemma_contains_farm_mono(v.farms, post.farms, v.managers[i].farm);
        } else {
            assert(post.farms[v.farms.len() as int].key_spec() == key);
        }
    }
    assert forall|i: int| 0 <= i < post.whitelists.len() implies contains_farm(
        post.farms,
        (#[trigger] post.whitelists[i]).farm,
    ) by {
        lemma_contains_farm_mono(v.farms, post.farms, v.whitelists[i].farm);
    }
    assert forall|i: int| 0 <= i < post.locks.len() implies contains_farm(
        post.farms,
        (#[trigger] post.locks[i]).farm,
    ) by {
        lemma_contains_farm_mono(v.farms, post.farms, v.locks[i].farm);
    }
    assert forall|i: int| 0 <= i < post.farmers.len() implies contains_farm(
        post.farms,
        (#[trigger] post.farmers[i]).farm,
    ) by {
        lemma_contains_farm_mono(v.farms, post.farms, v.farmers[i].farm);
    }
}

/// Adding a manager preserves the invariant.
pub proof fn lemma_add_manager_wf(v: LedgerView, farm: FarmKey, requester: u64, manager_owner: u64)
    requires
        v.wf(),
        add_manager_spec(v, farm, requester, manager_owner) is Ok,
    ensures
        add_manager_spec(v, farm, requester, manager_owner).unwrap().wf(),
{
    let post = add_manager_spec(v, farm, requester, manager_owner).unwrap();
    let fi = farm_idx(v.farms, farm);
    lemma_farm_idx(v.farms, farm);
    lemma_manager_idx(v.managers, farm, manager_owner);
    assert forall|i: int, j: int| 0 <= i < j < post.managers.len() implies !((
    #[trigger] post.managers[i]).farm == (#[trigger] post.managers[j]).farm
        && post.managers[i].authority == post.managers[j].authority) by {
        if j == v.managers.len() {
            assert(!(v.managers[i].farm == farm && v.managers[i].authority == manager_owner));
        }
    }
    assert forall|i: int| 0 <= i < post.managers.len() implies contains_farm(
        post.farms,
        (#[trigger] post.managers[i]).farm,
    ) by {
        if i == v.managers.len() {
            assert(post.farms[fi].key_spec() == farm);
        }
    }
}

/// Whitelisting an identity preserves the invariant.
pub proof fn lemma_add_to_whitelist_wf(
    v: LedgerView,
    farm: FarmKey,
    manager: u64,
    target: u64,
    ty: WhitelistType,
    reward_rate: u64,
)
    requires
        v.wf(),
        add_to_whitelist_spec(v, farm, manager, target, ty, reward_rate) is Ok,
    ensures
        add_to_whitelist_spec(v, farm, manager, target, ty, reward_rate).unwrap().wf(),
{
    let post = add_to_whitelist_spec(v, farm, manager, target, ty, reward_rate).unwrap();
    let mi = manager_idx(v.managers, farm, manager);
    lemma_manager_idx(v.managers, farm, manager);
    lemma_whitelist_idx(v.whitelists, farm, target);
    assert forall|i: int, j: int| 0 <= i < j < post.whitelists.len() implies !((
    #[trigger] post.whitelists[i]).farm == (#[trigger] post.whitelists[j]).farm
        && post.whitelists[i].whitelisted_address == post.whitelists[j].whitelisted_address) by {
        if j == v.whitelists.len() {
            assert(!(v.whitelists[i].farm == farm && v.whitelists[i].whitelisted_address
                == target));
        }
    }
    assert forall|i: int| 0 <= i < post.whitelists.len() implies contains_farm(
        post.farms,
        (#[trigger] post.whitelists[i]).farm,
    ) by {
        if i == v.whitelists.len() {
            assert(contains_farm(v.farms, v.managers[mi].farm));
        }
    }
}

/// Removing a whitelist entry preserves the invariant.
pub proof fn lemma_remove_from_whitelist_wf(v: LedgerView, farm: FarmKey, manager: u64, target: u64)
    requires
        v.wf(),
        remove_from_whitelist_spec(v, farm, manager, target) is Ok,
    ensures
        remove_from_whitelist_spec(v, farm, manager, target).unwrap().wf(),
{
    let post = remove_from_whitelist_spec(v, farm, manager, target).unwrap();
    let wi = whitelist_idx(v.whitelists, farm, target);
    lemma_whitelist_idx(v.whitelists, farm, target);
    assert forall|i: int, j: int| 0 <= i < j < post.whitelists.len() implies !((
    #[trigger] post.whitelists[i]).farm == (#[trigger] post.whitelists[j]).farm
        && post.whitelists[i].whitelisted_address == post.whitelists[j].whitelisted_address) by {
        let oi = if i < wi {
            i
        } else {
            i + 1
        };
        let oj = if j < wi {
            j
        } else {
            j + 1
        };
        assert(post.whitelists[i] == v.whitelists[oi]);
        assert(post.whitelists[j] == v.whitelists[oj]);
    }
    assert forall|i: int| 0 <= i < post.whitelists.len() implies contains_farm(
        post.farms,
        (#[trigger] post.whitelists[i]).farm,
    ) by {
        let oi = if i < wi {
            i
        } else {
            i + 1
        };
        assert(post.whitelists[i] == v.whitelists[oi]);
    }
}

/// Creating a batch of locks preserves the invariant.
pub proof fn lemma_create_locks_wf(v: LedgerView, farm: FarmKey, manager: u64, cs: Seq<LockConfig>)
    requires
        v.wf(),
        create_locks_spec(v, farm, manager, cs) is Ok,
    ensures
        create_locks_spec(v, farm, manager, cs).unwrap().wf(),
{
    let post = create_locks_spec(v, farm, manager, cs).unwrap();
    let mi = manager_idx(v.managers, farm, manager);
    lemma_manager_idx(v.managers, farm, manager);
    assert forall|i: int, j: int| 0 <= i < j < post.locks.len() implies (
    #[trigger] post.locks[i]).key_spec() != (#[trigger] post.locks[j]).key_spec() by {
        let n = v.locks.len() as int;
        if j >= n {
            lemma_lock_idx(v.locks, lock_of(farm, cs[j - n]).key_spec());
            assert(post.locks[j] == lock_of(farm, cs[j - n]));
            if i < n {
                assert(v.locks[i].key_spec() != lock_of(farm, cs[j - n]).key_spec());
            } else {
                assert(post.locks[i] == lock_of(farm, cs[i - n]));
            }
        }
    }
    assert forall|i: int| 0 <= i < post.locks.len() implies contains_farm(
        post.farms,
        (#[trigger] post.locks[i]).farm,
    ) by {
        if i >= v.locks.len() {
            assert(post.locks[i] == lock_of(farm, cs[i - v.locks.len()]));
            assert(contains_farm(v.farms, v.managers[mi].farm));
        }
    }
}

/// Funding the reward vault preserves the invariant.
pub proof fn lemma_fund_reward_wf(v: LedgerView, farm: FarmKey, manager: u64, amount: u64)
    requires
        v.wf(),
        fund_reward_spec(v, farm, manager, amount) is Ok,
    ensures
        fund_reward_spec(v, farm, manager, amount).unwrap().wf(),
{
    let post = fund_reward_spec(v, farm, manager, amount).unwrap();
    lemma_farm_idx(v.farms, farm);
    assert(forall|i: int| 0 <= i < v.farms.len() ==> (#[trigger] post.farms[i]).key_spec()
        == v.farms[i].key_spec());
    assert forall|i: int| 0 <= i < post.managers.len() implies contains_farm(
        post.farms,
        (#[trigger] post.managers[i]).farm,
    ) by {
        lemma_contains_farm_mono(v.farms, post.farms, v.managers[i].farm);
    }
    assert forall|i: int| 0 <= i < post.whitelists.len() implies contains_farm(
        post.farms,
        (#[trigger] post.whitelists[i]).farm,
    ) by {
        lemma_contains_farm_mono(v.farms, post.farms, v.whitelists[i].farm);
    }
    assert forall|i: int| 0 <= i < post.locks.len() implies contains_farm(
        post.farms,
        (#[trigger] post.locks[i]).farm,
    ) by {
        lemma_contains_farm_mono(v.farms, post.farms, v.locks[i].farm);
    }
    assert forall|i: int| 0 <= i < post.farmers.len() implies contains_farm(
        post.farms,
        (#[trigger] post.farmers[i]).farm,
    ) by {
        lemma_contains_farm_mono(v.farms, post.farms, v.farmers[i].farm);
    }
}

/// Initializing a farmer preserves the invariant.
pub proof fn lemma_initialize_farmer_wf(v: LedgerView, farm: FarmKey, owner: u64, now: u64)
    requires
        v.wf(),
        initialize_farmer_spec(v, farm, owner, now) is Ok,
    ensures
        initialize_farmer_spec(v, farm, owner, now).unwrap().wf(),
{
    let post = initialize_farmer_spec(v, farm, owner, now).unwrap();
    let fk = FarmerKey { farm, owner };
    let fi = farm_idx(v.farms, farm);
    lemma_farm_idx(v.farms, farm);
    lemma_farmer_idx(v.farmers, fk);
    assert(!contains_farmer(v.farmers, fk));
    assert forall|i: int, j: int| 0 <= i < j < post.farmers.len() implies (
    #[trigger] post.farmers[i]).key_spec() != (#[trigger] post.farmers[j]).key_spec() by {
        if j == v.farmers.len() {
            if post.farmers[i].key_spec() == fk {
                assert(contains_farmer(v.farmers, fk));
            }
        }
    }
    assert forall|i: int| 0 <= i < post.farmers.len() implies contains_farm(
        post.farms,
        (#[trigger] post.farmers[i]).farm,
    ) by {
        if i == v.farmers.len() {
            assert(post.farms[fi].key_spec() == farm);
        }
    }
    assert forall|i: int| 0 <= i < post.receipts.len() implies contains_farmer(
        post.farmers,
        (#[trigger] post.receipts[i]).farmer,
    ) by {
        lemma_contains_farmer_mono(v.farmers, post.farmers, v.receipts[i].farmer);
    }
    assert forall|i: int| 0 <= i < post.farmers.len() implies (
    #[trigger] post.farmers[i]).reward_rate == sum_open_rates(
        post.receipts,
        post.farmers[i].key_spec(),
    ) by {
        if i == v.farmers.len() {
            assert forall|j: int| 0 <= j < v.receipts.len() implies (
            #[trigger] v.receipts[j]).farmer != fk by {
                if v.receipts[j].farmer == fk {
                    assert(contains_farmer(v.farmers, fk));
                }
            }
            lemma_sum_zero(v.receipts, fk);
        }
    }
}

/// Staking preserves the invariant: in particular the farmer's aggregate
/// rate keeps pace with the sum of its open positions' rates.
pub proof fn lemma_stake_wf(
    v: LedgerView,
    farm: FarmKey,
    owner: u64,
    mint: u64,
    amount: u64,
    lock: Option<LockKey>,
    meta: Option<Seq<Creator>>,
    now: u64,
)
    requires
        v.wf(),
        stake_spec(v, farm, owner, mint, amount, lock, meta, now) is Ok,
    ensures
        stake_spec(v, farm, owner, mint, amount, lock, meta, now).unwrap().wf(),
{
    let post = stake_spec(v, farm, owner, mint, amount, lock, meta, now).unwrap();
    let fk = FarmerKey { farm, owner };
    let fi = farmer_idx(v.farmers, fk);
    let ri = receipt_idx(v.receipts, fk, mint);
    let restake = ri < v.receipts.len();
    lemma_farmer_idx(v.farmers, fk);
    lemma_receipt_idx(v.receipts, fk, mint);
    let newr = if restake {
        post.receipts[ri]
    } else {
        post.receipts.last()
    };
    // Keys are unchanged in both registries.
    assert(forall|i: int| 0 <= i < v.farmers.len() ==> (#[trigger] post.farmers[i]).key_spec()
        == v.farmers[i].key_spec());
    assert forall|i: int, j: int| 0 <= i < j < post.receipts.len() implies !((
    #[trigger] post.receipts[i]).farmer == (#[trigger] post.receipts[j]).farmer
        && post.receipts[i].mint == post.receipts[j].mint) by {
        if !restake && j == v.receipts.len() {
            assert(!(v.receipts[i].farmer == fk && v.receipts[i].mint == mint));
        }
    }
    // References still hold.
    assert forall|i: int| 0 <= i < post.farmers.len() implies contains_farm(
        post.farms,
        (#[trigger] post.farmers[i]).farm,
    ) by {
        assert(post.farmers[i].farm == v.farmers[i].farm);
    }
    assert forall|i: int| 0 <= i < post.receipts.len() implies contains_farmer(
        post.farmers,
        (#[trigger] post.receipts[i]).farmer,
    ) by {
        if (restake && i == ri) || (!restake && i == v.receipts.len()) {
            assert(post.farmers[fi].key_spec() == fk);
        } else {
            lemma_contains_farmer_mono(v.farmers, post.farmers, v.receipts[i].farmer);
        }
    }
    // The aggregate rates stay consistent.
    assert forall|i: int| 0 <= i < post.farmers.len() implies (
    #[trigger] post.farmers[i]).reward_rate == sum_open_rates(
        post.receipts,
        post.farmers[i].key_spec(),
    ) by {
        let gk = post.farmers[i].key_spec();
        if restake {
            lemma_sum_update(v.receipts, ri, newr, gk);
            assert(v.receipts[ri].end_ts is Some);
        } else {
            lemma_sum_push(v.receipts, newr, gk);
        }
        if i != fi {
            assert(gk != fk);
            assert(rate_share(newr, gk) == 0);
        }
    }
}

/// Closing a position, by unstake or force-unstake, preserves the
/// invariant: the aggregate rate drops by exactly the closed position's
/// rate, which the sum loses at the same moment.
pub proof fn lemma_close_position_wf(
    v: LedgerView,
    fk: FarmerKey,
    mint: u64,
    now: u64,
    enforce_duration: bool,
)
    requires
        v.wf(),
        close_position_spec(v, fk, mint, now, enforce_duration) is Ok,
    ensures
        close_position_spec(v, fk, mint, now, enforce_duration).unwrap().wf(),
{
    let post = close_position_spec(v, fk, mint, now, enforce_duration).unwrap();
    let fi = farmer_idx(v.farmers, fk);
    let ri = receipt_idx(v.receipts, fk, mint);
    lemma_farmer_idx(v.farmers, fk);
    lemma_receipt_idx(v.receipts, fk, mint);
    let closed = post.receipts[ri];
    assert(forall|i: int| 0 <= i < v.farmers.len() ==> (#[trigger] post.farmers[i]).key_spec()
        == v.farmers[i].key_spec());
    assert forall|i: int| 0 <= i < post.farmers.len() implies contains_farm(
        post.farms,
        (#[trigger] post.farmers[i]).farm,
    ) by {
        assert(post.farmers[i].farm == v.farmers[i].farm);
    }
    assert forall|i: int| 0 <= i < post.receipts.len() implies contains_farmer(
        post.farmers,
        (#[trigger] post.receipts[i]).farmer,
    ) by {
        lemma_contains_farmer_mono(v.farmers, post.farmers, post.receipts[i].farmer);
    }
    assert forall|i: int| 0 <= i < post.farmers.len() implies (
    #[trigger] post.farmers[i]).reward_rate == sum_open_rates(
        post.receipts,
        post.farmers[i].key_spec(),
    ) by {
        let gk = post.farmers[i].key_spec();
        lemma_sum_update(v.receipts, ri, closed, gk);
        if i != fi {
            assert(gk != fk);
            assert(rate_share(v.receipts[ri], gk) == 0);
        }
    }
}

/// Claiming preserves the invariant: it moves value out of the reward
/// vault and zeroes the accrued counter, touching no rate and no receipt.
pub proof fn lemma_claim_rewards_wf(v: LedgerView, farm: FarmKey, owner: u64, now: u64)
    requires
        v.wf(),
        claim_rewards_spec(v, farm, owner, now) is Ok,
    ensures
        claim_rewards_spec(v, farm, owner, now).unwrap().0.wf(),
{
    let post = claim_rewards_spec(v, farm, owner, now).unwrap().0;
    let fk = FarmerKey { farm, owner };
    let fi = farmer_idx(v.farmers, fk);
    let farm_i = farm_idx(v.farms, farm);
    lemma_farmer_idx(v.farmers, fk);
    lemma_farm_idx(v.farms, farm);
    assert(forall|i: int| 0 <= i < v.farms.len() ==> (#[trigger] post.farms[i]).key_spec()
        == v.farms[i].key_spec());
    assert(forall|i: int| 0 <= i < v.farmers.len() ==> (#[trigger] post.farmers[i]).key_spec()
        == v.farmers[i].key_spec());
    assert forall|i: int| 0 <= i < post.managers.len() implies contains_farm(
        post.farms,
        (#[trigger] post.managers[i]).farm,
    ) by {
        lemma_contains_farm_mono(v.farms, post.farms, v.managers[i].farm);
    }
    assert forall|i: int| 0 <= i < post.whitelists.len() implies contains_farm(
        post.farms,
        (#[trigger] post.whitelists[i]).farm,
    ) by {
        lemma_contains_farm_mono(v.farms, post.farms, v.whitelists[i].farm);
    }
    assert forall|i: int| 0 <= i < post.locks.len() implies contains_farm(
        post.farms,
        (#[trigger] post.locks[i]).farm,
    ) by {
        lemma_contains_farm_mono(v.farms, post.farms, v.locks[i].farm);
    }
    assert forall|i: int| 0 <= i < post.farmers.len() implies contains_farm(
        post.farms,
        (#[trigger] post.farmers[i]).farm,
    ) by {
        lemma_contains_farm_mono(v.farms, post.farms, v.farmers[i].farm);
    }
    assert forall|i: int| 0 <= i < post.receipts.len() implies contains_farmer(
        post.farmers,
        (#[trigger] post.receipts[i]).farmer,
    ) by {
        lemma_contains_farmer_mono(v.farmers, post.farmers, v.receipts[i].farmer);
    }
}

} // verus!
