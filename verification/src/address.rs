//! Deterministic account addressing.
//!
//! Every record of the protocol lives at a storage location derived from a
//! fixed tag and the record's logical key components.  Here an address is
//! modelled as exactly that tuple, so derivation is pure and total, two
//! parties holding the same inputs derive the same address, and distinct
//! logical keys can never collide.  The lock address deliberately excludes
//! the bonus factor, so one farm can hold at most one lock per
//! (duration, cooldown) pair.

use vstd::prelude::*;

verus! {

/// Logical key of a farm: its creator and its reward-token identity.
#[derive(Clone, Copy, Debug, PartialEq, Eq, Structural)]
pub struct FarmKey {
    /// Identity of the farm's creator.
    pub authority: u64,
    /// Identity of the token the farm pays rewards in.
    pub reward_mint: u64,
}

/// Logical key of a farmer: the farm and the participant's identity.
#[derive(Clone, Copy, Debug, PartialEq, Eq, Structural)]
pub struct FarmerKey {
    /// The farm the farmer participates in.
    pub farm: FarmKey,
    /// Identity of the participant.
    pub owner: u64,
}

/// Logical key of a lock: farm plus staking terms, without the bonus factor.
#[derive(Clone, Copy, Debug, PartialEq, Eq, Structural)]
pub struct LockKey {
    /// The farm the lock belongs to.
    pub farm: FarmKey,
    /// Seconds a position must stay staked.
    pub duration: u64,
    /// Seconds after unstaking before the asset may be staked again.
    pub cooldown: u64,
}

/// A derived storage address: the tag of the record kind together with the
/// record's logical key components.
#[derive(Clone, Copy, Debug, PartialEq, Eq, Structural)]
pub enum Address {
    /// Tag "farm" + (authority identity, reward-token identity).
    Farm(FarmKey),
    /// Tag "farm_manager" + (farm address, manager identity).
    FarmManager(FarmKey, u64),
    /// Tag "collection_data" + (farm address, whitelisted identity).
    WhitelistProof(FarmKey, u64),
    /// Tag "lock" + (farm address, duration, cooldown).
    Lock(LockKey),
    /// Tag "farmer" + (farm address, owner identity).
    Farmer(FarmerKey),
    /// Tag "stake_receipt" + (farmer address, staked-asset mint).
    StakeReceipt(FarmerKey, u64),
}

/// Derives the address of a farm from its authority and reward mint.
pub fn find_farm_address(farm_authority: u64, reward_mint: u64) -> (a: Address)
    ensures
        a == Address::Farm(FarmKey { authority: farm_authority, reward_mint }),
{
    Address::Farm(FarmKey { authority: farm_authority, reward_mint })
}

/// Derives the address of a farm-manager record from the farm and the
/// manager's identity.
pub fn find_farm_manager_address(farm: FarmKey, authority: u64) -> (a: Address)
    ensures
        a == Address::FarmManager(farm, authority),
{
    Address::FarmManager(farm, authority)
}

/// Derives the address of a whitelist proof from the farm and the
/// whitelisted creator or mint identity.
pub fn find_whitelist_proof_address(farm: FarmKey, address: u64) -> (a: Address)
    ensures
        a == Address::WhitelistProof(farm, address),
{
    Address::WhitelistProof(farm, address)
}

/// Derives the address of a lock from the farm and the lock's timing terms.
/// The bonus factor takes no part in the address.
pub fn find_lock_address(farm: FarmKey, duration: u64, cooldown: u64) -> (a: Address)
    ensures
        a == Address::Lock(LockKey { farm, duration, cooldown }),
{
    Address::Lock(LockKey { farm, duration, cooldown })
}

/// Derives the address of a farmer record from the farm and the owner.
pub fn find_farmer_address(farm: FarmKey, owner: u64) -> (a: Address)
    ensures
        a == Address::Farmer(FarmerKey { farm, owner }),
{
    Address::Farmer(FarmerKey { farm, owner })
}

/// Derives the address of a stake receipt from the farmer and the asset mint.
pub fn find_stake_receipt_address(farmer: FarmerKey, mint: u64) -> (a: Address)
    ensures
        a == Address::StakeReceipt(farmer, mint),
{
    Address::StakeReceipt(farmer, mint)
}

/// Derivation is collision-resistant: equal addresses can only come from the
/// same record kind with the same logical key components.  In particular an
/// adversary who controls some components cannot forge the address of
/// another record.
pub proof fn lemma_address_injective(a: Address, b: Address)
    requires
        a == b,
    ensures
        a matches Address::Farm(k1) ==> b matches Address::Farm(k2) && k1 == k2,
        a matches Address::FarmManager(f1, o1) ==> b matches Address::FarmManager(f2, o2)
            && f1 == f2 && o1 == o2,
        a matches Address::WhitelistProof(f1, t1) ==> b matches Address::WhitelistProof(f2, t2)
            && f1 == f2 && t1 == t2,
        a matches Address::Lock(k1) ==> b matches Address::Lock(k2) && k1 == k2,
        a matches Address::Farmer(k1) ==> b matches Address::Farmer(k2) && k1 == k2,
        a matches Address::StakeReceipt(f1, m1) ==> b matches Address::StakeReceipt(f2, m2)
            && f1 == f2 && m1 == m2,
{
}

} // verus!
