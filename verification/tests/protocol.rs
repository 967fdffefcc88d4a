use staking_core::address::{FarmKey, FarmerKey, LockKey};
use staking_core::error::{Error, ErrorKind};
use staking_core::ledger::Ledger;
use staking_core::state::{AssetMetadata, Creator, LockConfig, WhitelistType};

const AUTHORITY: u64 = 7;
const REWARD_MINT: u64 = 9;
const OWNER: u64 = 21;
const GEM_MINT: u64 = 55;
const CREATOR: u64 = 77;

fn farm_key() -> FarmKey {
    FarmKey { authority: AUTHORITY, reward_mint: REWARD_MINT }
}

fn no_creators() -> AssetMetadata {
    AssetMetadata { creators: None }
}

fn verified_creator() -> AssetMetadata {
    AssetMetadata { creators: Some(vec![Creator { address: CREATOR, verified: true }]) }
}

/// A farm with the gem mint whitelisted at the given rate and a farmer ready
/// to stake, settled at time 0.
fn farm_with_farmer(rate: u64) -> Ledger {
    let mut l = Ledger::new();
    l.create_farm(AUTHORITY, REWARD_MINT).unwrap();
    l.add_to_whitelist(farm_key(), AUTHORITY, GEM_MINT, WhitelistType::Mint, rate)
        .unwrap();
    l.initialize_farmer(farm_key(), OWNER, 0).unwrap();
    l
}

#[test]
fn create_farm_records_farm_and_first_manager() {
    let mut l = Ledger::new();
    let key = l.create_farm(AUTHORITY, REWARD_MINT).unwrap();
    assert_eq!(key, farm_key());
    assert_eq!(l.farms.len(), 1);
    assert_eq!(l.farms[0].authority, AUTHORITY);
    assert_eq!(l.farms[0].reward_mint, REWARD_MINT);
    assert_eq!(l.farms[0].vault_balance, 0);
    assert_eq!(l.managers.len(), 1);
    assert_eq!(l.managers[0].authority, AUTHORITY);
}

#[test]
fn create_farm_twice_collides() {
    let mut l = Ledger::new();
    l.create_farm(AUTHORITY, REWARD_MINT).unwrap();
    assert_eq!(l.create_farm(AUTHORITY, REWARD_MINT), Err(Error::AlreadyExists));
    assert_eq!(l.farms.len(), 1);
}

#[test]
fn add_manager_requires_authority_or_manager() {
    let mut l = Ledger::new();
    l.create_farm(AUTHORITY, REWARD_MINT).unwrap();
    assert_eq!(
        l.add_manager(farm_key(), 999, 1000),
        Err(Error::NotAuthorized)
    );
    l.add_manager(farm_key(), AUTHORITY, 1000).unwrap();
    // An existing manager may add further managers.
    l.add_manager(farm_key(), 1000, 1001).unwrap();
    assert_eq!(l.managers.len(), 3);
    // A duplicate grant is rejected, not silently accepted.
    assert_eq!(
        l.add_manager(farm_key(), AUTHORITY, 1000),
        Err(Error::AlreadyExists)
    );
}

#[test]
fn add_manager_on_missing_farm_fails() {
    let mut l = Ledger::new();
    assert_eq!(l.add_manager(farm_key(), AUTHORITY, 1000), Err(Error::NotFound));
}

#[test]
fn whitelist_add_remove() {
    let mut l = Ledger::new();
    l.create_farm(AUTHORITY, REWARD_MINT).unwrap();
    l.add_to_whitelist(farm_key(), AUTHORITY, GEM_MINT, WhitelistType::Mint, 5)
        .unwrap();
    assert_eq!(
        l.add_to_whitelist(farm_key(), AUTHORITY, GEM_MINT, WhitelistType::Mint, 6),
        Err(Error::AlreadyExists)
    );
    assert_eq!(
        l.add_to_whitelist(farm_key(), 999, CREATOR, WhitelistType::Creator, 5),
        Err(Error::NotAuthorized)
    );
    let listed = l.get_farm_whitelists(farm_key());
    assert_eq!(listed.len(), 1);
    assert_eq!(listed[0].reward_rate, 5);
    l.remove_from_whitelist(farm_key(), AUTHORITY, GEM_MINT).unwrap();
    assert_eq!(l.get_farm_whitelists(farm_key()).len(), 0);
    assert_eq!(
        l.remove_from_whitelist(farm_key(), AUTHORITY, GEM_MINT),
        Err(Error::NotFound)
    );
}

#[test]
fn stake_unwhitelisted_fails_and_creates_no_receipt() {
    let mut l = Ledger::new();
    l.create_farm(AUTHORITY, REWARD_MINT).unwrap();
    l.initialize_farmer(farm_key(), OWNER, 0).unwrap();
    let err = l
        .stake(farm_key(), OWNER, GEM_MINT, 1, None, &no_creators(), 10)
        .unwrap_err();
    assert_eq!(err, Error::InvalidMetadata);
    assert_eq!(err.kind(), ErrorKind::Validation);
    let err = l
        .stake(farm_key(), OWNER, GEM_MINT, 1, None, &verified_creator(), 10)
        .unwrap_err();
    assert_eq!(err, Error::NotWhitelisted);
    assert_eq!(err.kind(), ErrorKind::Validation);
    assert_eq!(l.receipts.len(), 0);
    assert_eq!(l.farmers[0].reward_rate, 0);
}

#[test]
fn stake_by_verified_creator() {
    let mut l = Ledger::new();
    l.create_farm(AUTHORITY, REWARD_MINT).unwrap();
    l.add_to_whitelist(farm_key(), AUTHORITY, CREATOR, WhitelistType::Creator, 4)
        .unwrap();
    l.initialize_farmer(farm_key(), OWNER, 0).unwrap();
    // An unverified first creator is rejected.
    let unverified =
        AssetMetadata { creators: Some(vec![Creator { address: CREATOR, verified: false }]) };
    assert_eq!(
        l.stake(farm_key(), OWNER, GEM_MINT, 1, None, &unverified, 10),
        Err(Error::InvalidMetadata)
    );
    l.stake(farm_key(), OWNER, GEM_MINT, 1, None, &verified_creator(), 10)
        .unwrap();
    assert_eq!(l.receipts.len(), 1);
    assert_eq!(l.receipts[0].reward_rate, 4);
    assert_eq!(l.farmers[0].reward_rate, 4);
}

#[test]
fn stake_updates_rate_and_receipt() {
    let mut l = farm_with_farmer(10);
    l.stake(farm_key(), OWNER, GEM_MINT, 1, None, &no_creators(), 100)
        .unwrap();
    assert_eq!(l.farmers[0].reward_rate, 10);
    assert_eq!(l.farmers[0].accrued_rewards, 0);
    assert_eq!(l.farmers[0].last_update, 100);
    let r = &l.receipts[0];
    assert_eq!(r.farmer, FarmerKey { farm: farm_key(), owner: OWNER });
    assert_eq!(r.mint, GEM_MINT);
    assert_eq!(r.start_ts, 100);
    assert_eq!(r.end_ts, None);
    assert_eq!(r.amount, 1);
    assert_eq!(r.reward_rate, 10);
    assert_eq!(r.vault_balance, 1);
    assert!(r.is_running());
}

#[test]
fn stake_while_open_fails() {
    let mut l = farm_with_farmer(10);
    l.stake(farm_key(), OWNER, GEM_MINT, 1, None, &no_creators(), 100)
        .unwrap();
    assert_eq!(
        l.stake(farm_key(), OWNER, GEM_MINT, 1, None, &no_creators(), 200),
        Err(Error::AlreadyStaked)
    );
}

#[test]
fn accrual_settles_on_claim() {
    let mut l = farm_with_farmer(10);
    l.fund_reward(farm_key(), AUTHORITY, 5000).unwrap();
    l.stake(farm_key(), OWNER, GEM_MINT, 1, None, &no_creators(), 0)
        .unwrap();
    // 100 seconds at rate 10 accrue 1000.
    let claimed = l.claim_rewards(farm_key(), OWNER, 100).unwrap();
    assert_eq!(claimed, 1000);
    assert_eq!(l.farmers[0].accrued_rewards, 0);
    assert_eq!(l.farmers[0].last_update, 100);
    assert_eq!(l.farms[0].vault_balance, 4000);
    // A second claim with no elapsed time pays nothing.
    assert_eq!(l.claim_rewards(farm_key(), OWNER, 100), Ok(0));
}

#[test]
fn claim_against_underfunded_vault_changes_nothing() {
    let mut l = farm_with_farmer(10);
    l.fund_reward(farm_key(), AUTHORITY, 999).unwrap();
    l.stake(farm_key(), OWNER, GEM_MINT, 1, None, &no_creators(), 0)
        .unwrap();
    // Accrued 1000 against a vault of 999.
    let err = l.claim_rewards(farm_key(), OWNER, 100).unwrap_err();
    assert_eq!(err, Error::InsufficientFunds);
    assert_eq!(err.kind(), ErrorKind::InsufficientFunds);
    // The failed claim decremented nothing, not even partially.
    assert_eq!(l.farms[0].vault_balance, 999);
    assert_eq!(l.farmers[0].accrued_rewards, 0);
    assert_eq!(l.farmers[0].last_update, 0);
    // Funding the vault and retrying succeeds.
    l.fund_reward(farm_key(), AUTHORITY, 1).unwrap();
    assert_eq!(l.claim_rewards(farm_key(), OWNER, 100), Ok(1000));
}

#[test]
fn fund_reward_requires_manager() {
    let mut l = Ledger::new();
    l.create_farm(AUTHORITY, REWARD_MINT).unwrap();
    assert_eq!(l.fund_reward(farm_key(), 999, 10), Err(Error::NotAuthorized));
    l.fund_reward(farm_key(), AUTHORITY, 10).unwrap();
    assert_eq!(l.farms[0].vault_balance, 10);
    assert_eq!(
        l.fund_reward(farm_key(), AUTHORITY, u64::MAX),
        Err(Error::ArithmeticError)
    );
    assert_eq!(l.farms[0].vault_balance, 10);
}

#[test]
fn initialize_farmer_once_per_owner() {
    let mut l = Ledger::new();
    assert_eq!(l.initialize_farmer(farm_key(), OWNER, 0), Err(Error::NotFound));
    l.create_farm(AUTHORITY, REWARD_MINT).unwrap();
    l.initialize_farmer(farm_key(), OWNER, 0).unwrap();
    assert_eq!(
        l.initialize_farmer(farm_key(), OWNER, 5),
        Err(Error::AlreadyExists)
    );
    assert_eq!(l.farmers.len(), 1);
    assert_eq!(l.farmers[0].reward_rate, 0);
    assert_eq!(l.farmers[0].accrued_rewards, 0);
}

#[test]
fn unstake_round_trip_restores_rate_and_accrued() {
    let mut l = farm_with_farmer(10);
    l.stake(farm_key(), OWNER, GEM_MINT, 1, None, &no_creators(), 50)
        .unwrap();
    assert_eq!(l.farmers[0].reward_rate, 10);
    // Unstake with zero elapsed time: rate and accrued return to the start.
    l.unstake(farm_key(), OWNER, GEM_MINT, 50).unwrap();
    assert_eq!(l.farmers[0].reward_rate, 0);
    assert_eq!(l.farmers[0].accrued_rewards, 0);
    let r = &l.receipts[0];
    assert_eq!(r.end_ts, Some(50));
    assert_eq!(r.vault_balance, 0);
    assert!(!r.is_running());
}

#[test]
fn unstake_settles_before_rate_change() {
    let mut l = farm_with_farmer(10);
    l.stake(farm_key(), OWNER, GEM_MINT, 1, None, &no_creators(), 0)
        .unwrap();
    l.unstake(farm_key(), OWNER, GEM_MINT, 30).unwrap();
    // The 30 seconds before the unstake were credited at the full rate.
    assert_eq!(l.farmers[0].accrued_rewards, 300);
    assert_eq!(l.farmers[0].reward_rate, 0);
    // No further accrual after the position closed.
    assert_eq!(l.claim_rewards(farm_key(), OWNER, 1000), Err(Error::InsufficientFunds));
    l.fund_reward(farm_key(), AUTHORITY, 300).unwrap();
    assert_eq!(l.claim_rewards(farm_key(), OWNER, 1000), Ok(300));
}

#[test]
fn unstake_twice_fails() {
    let mut l = farm_with_farmer(10);
    l.stake(farm_key(), OWNER, GEM_MINT, 1, None, &no_creators(), 0)
        .unwrap();
    l.unstake(farm_key(), OWNER, GEM_MINT, 10).unwrap();
    let err = l.unstake(farm_key(), OWNER, GEM_MINT, 20).unwrap_err();
    assert_eq!(err, Error::AlreadyUnstaked);
    assert_eq!(err.kind(), ErrorKind::Validation);
}

#[test]
fn unstake_missing_receipt_fails() {
    let mut l = farm_with_farmer(10);
    assert_eq!(l.unstake(farm_key(), OWNER, GEM_MINT, 10), Err(Error::NotFound));
}

fn locked_farm(duration: u64, cooldown: u64, bonus: u8) -> (Ledger, LockKey) {
    let mut l = farm_with_farmer(10);
    l.create_locks(
        farm_key(),
        AUTHORITY,
        &vec![LockConfig { duration, cooldown, bonus_factor: bonus }],
    )
    .unwrap();
    (l, LockKey { farm: farm_key(), duration, cooldown })
}

#[test]
fn lock_boosts_effective_rate() {
    let (mut l, lock) = locked_farm(100, 0, 50);
    l.stake(farm_key(), OWNER, GEM_MINT, 1, Some(lock), &no_creators(), 0)
        .unwrap();
    // Base 10 with a 50% bonus: effective rate 15.
    assert_eq!(l.receipts[0].reward_rate, 15);
    assert_eq!(l.farmers[0].reward_rate, 15);
}

#[test]
fn stake_with_unknown_lock_fails() {
    let mut l = farm_with_farmer(10);
    let lock = LockKey { farm: farm_key(), duration: 100, cooldown: 0 };
    assert_eq!(
        l.stake(farm_key(), OWNER, GEM_MINT, 1, Some(lock), &no_creators(), 0),
        Err(Error::NotFound)
    );
}

#[test]
fn unstake_before_lock_expires_fails_at_boundary_succeeds() {
    let (mut l, lock) = locked_farm(100, 0, 0);
    l.stake(farm_key(), OWNER, GEM_MINT, 1, Some(lock), &no_creators(), 1000)
        .unwrap();
    let err = l.unstake(farm_key(), OWNER, GEM_MINT, 1099).unwrap_err();
    assert_eq!(err, Error::LockNotExpired);
    assert_eq!(err.kind(), ErrorKind::Timing);
    // The position is untouched by the failed attempt.
    assert!(l.receipts[0].is_running());
    // At exactly start_ts + duration the unstake succeeds.
    l.unstake(farm_key(), OWNER, GEM_MINT, 1100).unwrap();
    assert_eq!(l.receipts[0].end_ts, Some(1100));
}

#[test]
fn lock_collision_same_terms_different_bonus() {
    let (mut l, _) = locked_farm(100, 50, 10);
    // Identical (duration, cooldown) with another bonus factor derives the
    // same address: the creation is rejected, not overwritten.
    let err = l
        .create_locks(
            farm_key(),
            AUTHORITY,
            &vec![LockConfig { duration: 100, cooldown: 50, bonus_factor: 20 }],
        )
        .unwrap_err();
    assert_eq!(err, Error::AlreadyExists);
    assert_eq!(l.locks.len(), 1);
    assert_eq!(l.locks[0].bonus_factor, 10);
}

#[test]
fn lock_collision_inside_one_batch() {
    let mut l = farm_with_farmer(10);
    let err = l
        .create_locks(
            farm_key(),
            AUTHORITY,
            &vec![
                LockConfig { duration: 100, cooldown: 50, bonus_factor: 10 },
                LockConfig { duration: 100, cooldown: 50, bonus_factor: 20 },
            ],
        )
        .unwrap_err();
    // The whole batch is rejected: all or nothing.
    assert_eq!(err, Error::AlreadyExists);
    assert_eq!(l.locks.len(), 0);
}

#[test]
fn create_locks_batch_and_listing() {
    let mut l = farm_with_farmer(10);
    assert_eq!(
        l.create_locks(
            farm_key(),
            999,
            &vec![LockConfig { duration: 1, cooldown: 0, bonus_factor: 0 }]
        ),
        Err(Error::NotAuthorized)
    );
    l.create_locks(
        farm_key(),
        AUTHORITY,
        &vec![
            LockConfig { duration: 100, cooldown: 50, bonus_factor: 10 },
            LockConfig { duration: 200, cooldown: 50, bonus_factor: 20 },
        ],
    )
    .unwrap();
    let locks = l.list_locks(farm_key());
    assert_eq!(locks.len(), 2);
    assert_eq!(locks[0].duration, 100);
    assert_eq!(locks[1].duration, 200);
    assert_eq!(locks[1].bonus_factor, 20);
}

#[test]
fn cooldown_gates_restake() {
    let (mut l, lock) = locked_farm(0, 100, 0);
    l.stake(farm_key(), OWNER, GEM_MINT, 1, Some(lock), &no_creators(), 0)
        .unwrap();
    l.unstake(farm_key(), OWNER, GEM_MINT, 10).unwrap();
    // Before end_ts + cooldown the asset cannot be staked again.
    let err = l
        .stake(farm_key(), OWNER, GEM_MINT, 1, None, &no_creators(), 109)
        .unwrap_err();
    assert_eq!(err, Error::CooldownNotExpired);
    assert_eq!(err.kind(), ErrorKind::Timing);
    // From end_ts + cooldown on it can.
    l.stake(farm_key(), OWNER, GEM_MINT, 1, None, &no_creators(), 110)
        .unwrap();
    assert_eq!(l.receipts.len(), 1);
    assert!(l.receipts[0].is_running());
    assert_eq!(l.receipts[0].start_ts, 110);
}

#[test]
fn force_unstake_overrides_lock_but_not_authorization() {
    let (mut l, lock) = locked_farm(1000, 0, 0);
    l.stake(farm_key(), OWNER, GEM_MINT, 1, Some(lock), &no_creators(), 0)
        .unwrap();
    // The staker cannot force; a non-manager cannot force.
    assert_eq!(
        l.force_unstake(farm_key(), OWNER, OWNER, GEM_MINT, 10),
        Err(Error::NotAuthorized)
    );
    // The owner cannot unstake early either.
    assert_eq!(
        l.unstake(farm_key(), OWNER, GEM_MINT, 10),
        Err(Error::LockNotExpired)
    );
    // A manager overrides the time lock; settlement and the rate decrement
    // happen exactly as in a normal unstake.
    l.force_unstake(farm_key(), AUTHORITY, OWNER, GEM_MINT, 10).unwrap();
    assert_eq!(l.receipts[0].end_ts, Some(10));
    assert_eq!(l.farmers[0].reward_rate, 0);
    assert_eq!(l.farmers[0].accrued_rewards, 100);
}

#[test]
fn settlement_is_independent_of_claim_points() {
    // Two histories, same integral: claiming in the middle changes nothing
    // about what is owed in total.
    let mut a = farm_with_farmer(10);
    a.fund_reward(farm_key(), AUTHORITY, 10_000).unwrap();
    a.stake(farm_key(), OWNER, GEM_MINT, 1, None, &no_creators(), 0)
        .unwrap();
    let first = a.claim_rewards(farm_key(), OWNER, 40).unwrap();
    let second = a.claim_rewards(farm_key(), OWNER, 100).unwrap();

    let mut b = farm_with_farmer(10);
    b.fund_reward(farm_key(), AUTHORITY, 10_000).unwrap();
    b.stake(farm_key(), OWNER, GEM_MINT, 1, None, &no_creators(), 0)
        .unwrap();
    let single = b.claim_rewards(farm_key(), OWNER, 100).unwrap();

    assert_eq!(first + second, single);
    assert_eq!(single, 1000);
}

#[test]
fn clock_running_backwards_is_fatal() {
    let mut l = farm_with_farmer(10);
    l.stake(farm_key(), OWNER, GEM_MINT, 1, None, &no_creators(), 100)
        .unwrap();
    let err = l.claim_rewards(farm_key(), OWNER, 99).unwrap_err();
    assert_eq!(err, Error::ArithmeticError);
    assert_eq!(err.kind(), ErrorKind::Arithmetic);
}

#[test]
fn accrual_overflow_is_an_arithmetic_error() {
    let mut l = farm_with_farmer(u64::MAX);
    l.stake(farm_key(), OWNER, GEM_MINT, 1, None, &no_creators(), 0)
        .unwrap();
    assert_eq!(
        l.claim_rewards(farm_key(), OWNER, 2),
        Err(Error::ArithmeticError)
    );
}

#[test]
fn manager_farm_listing() {
    let mut l = Ledger::new();
    l.create_farm(AUTHORITY, REWARD_MINT).unwrap();
    l.create_farm(AUTHORITY, 10).unwrap();
    l.create_farm(3, 4).unwrap();
    l.add_manager(FarmKey { authority: 3, reward_mint: 4 }, 3, AUTHORITY)
        .unwrap();
    let farms = l.get_manager_farms(AUTHORITY);
    assert_eq!(farms.len(), 3);
    let farms = l.get_manager_farms(3);
    assert_eq!(farms.len(), 1);
    assert_eq!(farms[0].authority, 3);
    let managers = l.get_farm_managers(farm_key());
    assert_eq!(managers.len(), 1);
    assert_eq!(managers[0].authority, AUTHORITY);
}

#[test]
fn farm_receipt_listing() {
    let mut l = farm_with_farmer(10);
    l.stake(farm_key(), OWNER, GEM_MINT, 1, None, &no_creators(), 0)
        .unwrap();
    l.unstake(farm_key(), OWNER, GEM_MINT, 5).unwrap();
    l.stake(farm_key(), OWNER, 56, 1, None, &no_creators(), 6)
        .unwrap_err();
    l.add_to_whitelist(farm_key(), AUTHORITY, 56, WhitelistType::Mint, 2)
        .unwrap();
    l.stake(farm_key(), OWNER, 56, 1, None, &no_creators(), 7)
        .unwrap();
    let receipts = l.get_farm_receipts(farm_key());
    assert_eq!(receipts.len(), 2);
    assert_eq!(receipts[0].mint, GEM_MINT);
    assert_eq!(receipts[0].end_ts, Some(5));
    assert_eq!(receipts[1].mint, 56);
    assert!(receipts[1].is_running());
    let other = FarmKey { authority: 1, reward_mint: 2 };
    assert_eq!(l.get_farm_receipts(other).len(), 0);
}
