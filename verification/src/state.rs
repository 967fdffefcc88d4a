//! The ledger-resident records of the protocol and their per-record
//! operations: farms, managers, whitelist proofs, locks, farmers and stake
//! receipts.

use vstd::prelude::*;

use crate::address::FarmKey;
use crate::address::FarmerKey;
use crate::address::LockKey;
use crate::error::Error;

verus! {

/// Whether a whitelist proof names a collection's verified creator or a
/// specific token mint.
#[derive(Clone, Copy, Debug, PartialEq, Eq, Structural)]
pub enum WhitelistType {
    /// The whitelisted identity is a collection's verified creator.
    Creator,
    /// The whitelisted identity is a token mint.
    Mint,
}

/// Top-level configuration and reward vault of one staking pool.
#[derive(Clone, Copy, Debug, PartialEq, Eq, Structural)]
pub struct Farm {
    /// Identity of the farm's creator; immutable after creation.
    pub authority: u64,
    /// Identity of the reward token; immutable after creation.
    pub reward_mint: u64,
    /// Balance of the farm's reward vault.
    pub vault_balance: u64,
}

impl Farm {
    /// The farm's logical key, which its address is derived from.
    pub open spec fn key_spec(&self) -> FarmKey {
        FarmKey { authority: self.authority, reward_mint: self.reward_mint }
    }

    /// The farm's logical key, which its address is derived from.
    #[verifier::when_used_as_spec(key_spec)]
    pub fn key(&self) -> (k: FarmKey)
        ensures
            k == self.key_spec(),
    {
        FarmKey { authority: self.authority, reward_mint: self.reward_mint }
    }
}

/// Grant of the right to mutate a farm's configuration.
#[derive(Clone, Copy, Debug, PartialEq, Eq, Structural)]
pub struct FarmManager {
    /// The farm the grant applies to.
    pub farm: FarmKey,
    /// Identity of the manager.
    pub authority: u64,
}

/// Authorization for one creator or mint to be staked on a farm, with the
/// base reward rate its positions earn.
#[derive(Clone, Copy, Debug, PartialEq, Eq, Structural)]
pub struct WhitelistProof {
    /// The farm the proof belongs to.
    pub farm: FarmKey,
    /// The whitelisted creator or mint identity.
    pub whitelisted_address: u64,
    /// How the whitelisted identity is matched against a staked asset.
    pub ty: WhitelistType,
    /// Reward tokens per second per staked unit.
    pub reward_rate: u64,
}

/// A farm-scoped staking-term preset; immutable once created.
#[derive(Clone, Copy, Debug, PartialEq, Eq, Structural)]
pub struct Lock {
    /// The farm the lock belongs to.
    pub farm: FarmKey,
    /// Seconds a position must stay staked before it may be unstaked.
    pub duration: u64,
    /// Seconds after unstaking before the asset may be staked again.
    pub cooldown: u64,
    /// Bonus percentage points added to the base reward rate.
    pub bonus_factor: u8,
}

impl Lock {
    /// The lock's logical key; the bonus factor takes no part in it.
    pub open spec fn key_spec(&self) -> LockKey {
        LockKey { farm: self.farm, duration: self.duration, cooldown: self.cooldown }
    }

    /// The lock's logical key; the bonus factor takes no part in it.
    #[verifier::when_used_as_spec(key_spec)]
    pub fn key(&self) -> (k: LockKey)
        ensures
            k == self.key_spec(),
    {
        LockKey { farm: self.farm, duration: self.duration, cooldown: self.cooldown }
    }
}

/// Staking terms requested when creating a lock.
#[derive(Clone, Copy, Debug, PartialEq, Eq, Structural)]
pub struct LockConfig {
    /// Seconds a position must stay staked before it may be unstaked.
    pub duration: u64,
    /// Seconds after unstaking before the asset may be staked again.
    pub cooldown: u64,
    /// Bonus percentage points added to the base reward rate.
    pub bonus_factor: u8,
}

/// Per-participant record of one farm: the aggregate reward rate over all
/// open positions, the accrued-but-unclaimed reward, and the timestamp of
/// the last settlement.
#[derive(Clone, Copy, Debug, PartialEq, Eq, Structural)]
pub struct Farmer {
    /// The farm the farmer participates in.
    pub farm: FarmKey,
    /// Identity of the participant.
    pub owner: u64,
    /// Sum of the effective rates of all open stake receipts.
    pub reward_rate: u64,
    /// Reward accrued and not yet claimed.
    pub accrued_rewards: u64,
    /// Timestamp of the last settlement.
    pub last_update: u64,
}

/// The reward a farmer has accrued by time `now`, before clamping to the
/// machine word: the reward accrued so far plus the elapsed time since the
/// last settlement multiplied by the aggregate rate.
pub open spec fn accrued_at(f: Farmer, now: u64) -> int {
    f.accrued_rewards + (now - f.last_update) * f.reward_rate
}

/// The outcome of settling a farmer at time `now`: the accrued reward is
/// credited for the elapsed interval at the current aggregate rate and the
/// settlement timestamp moves to `now`.  Settlement fails if the clock ran
/// backwards or the accrued reward overflows.
pub open spec fn settle_farmer(f: Farmer, now: u64) -> Result<Farmer, Error> {
    if now < f.last_update {
        Err(Error::ArithmeticError)
    } else if accrued_at(f, now) > u64::MAX {
        Err(Error::ArithmeticError)
    } else {
        Ok(
            Farmer {
                accrued_rewards: accrued_at(f, now) as u64,
                last_update: now,
                ..f
            },
        )
    }
}

impl Farmer {
    /// The farmer's logical key, which its address is derived from.
    pub open spec fn key_spec(&self) -> FarmerKey {
        FarmerKey { farm: self.farm, owner: self.owner }
    }

    /// The farmer's logical key, which its address is derived from.
    #[verifier::when_used_as_spec(key_spec)]
    pub fn key(&self) -> (k: FarmerKey)
        ensures
            k == self.key_spec(),
    {
        FarmerKey { farm: self.farm, owner: self.owner }
    }

    /// Settles the reward accrued since the last settlement at the current
    /// aggregate rate, so that a rate change that follows is never
    /// retroactive.  On error the farmer is unchanged.
    pub fn update_accrued_rewards(&mut self, now: u64) -> (r: Result<(), Error>)
        ensures
            match r {
                Ok(()) => settle_farmer(*old(self), now) == Ok::<Farmer, Error>(*final(self)),
                Err(e) => settle_farmer(*old(self), now) == Err::<Farmer, Error>(e)
                    && *final(self) == *old(self),
            },
    {
        let Some(elapsed) = now.checked_sub(self.last_update) else {
            return Err(Error::ArithmeticError);
        };
        let Some(earned) = elapsed.checked_mul(self.reward_rate) else {
            return Err(Error::ArithmeticError);
        };
        let Some(total) = self.accrued_rewards.checked_add(earned) else {
            return Err(Error::ArithmeticError);
        };
        self.accrued_rewards = total;
        self.last_update = now;
        Ok(())
    }

    /// Raises the aggregate rate by a newly opened position's effective
    /// rate.  On overflow the farmer is unchanged.
    pub fn increase_reward_rate(&mut self, rate: u64) -> (r: Result<(), Error>)
        ensures
            match r {
                Ok(()) => old(self).reward_rate + rate <= u64::MAX
                    && *final(self) == (Farmer { reward_rate: (old(self).reward_rate + rate) as u64, ..*old(self) }),
                Err(e) => e == Error::ArithmeticError
                    && old(self).reward_rate + rate > u64::MAX
                    && *final(self) == *old(self),
            },
    {
        let Some(new_rate) = self.reward_rate.checked_add(rate) else {
            return Err(Error::ArithmeticError);
        };
        self.reward_rate = new_rate;
        Ok(())
    }

    /// Lowers the aggregate rate by a closing position's effective rate.
    /// On underflow the farmer is unchanged.
    pub fn decrease_reward_rate(&mut self, rate: u64) -> (r: Result<(), Error>)
        ensures
            match r {
                Ok(()) => old(self).reward_rate >= rate
                    && *final(self) == (Farmer { reward_rate: (old(self).reward_rate - rate) as u64, ..*old(self) }),
                Err(e) => e == Error::ArithmeticError
                    && old(self).reward_rate < rate
                    && *final(self) == *old(self),
            },
    {
        let Some(new_rate) = self.reward_rate.checked_sub(rate) else {
            return Err(Error::ArithmeticError);
        };
        self.reward_rate = new_rate;
        Ok(())
    }
}

/// One creator entry of a staked asset's attached metadata.
#[derive(Clone, Copy, Debug, PartialEq, Eq, Structural)]
pub struct Creator {
    /// The creator's identity.
    pub address: u64,
    /// Whether the creator has verified the asset.
    pub verified: bool,
}

/// What the protocol reads from a staked asset's attached metadata: the
/// list of creators, if the asset carries one.
#[derive(Clone, Debug, PartialEq, Eq)]
pub struct AssetMetadata {
    /// The asset's creators, in metadata order.
    pub creators: Option<Vec<Creator>>,
}

impl View for AssetMetadata {
    type V = Option<Seq<Creator>>;

    open spec fn view(&self) -> Option<Seq<Creator>> {
        if self.creators is Some {
            Some(self.creators->Some_0@)
        } else {
            None
        }
    }
}

/// The verified creator of an asset: the first creator of its metadata,
/// provided the metadata names one and that creator has verified the asset.
pub open spec fn metadata_creator_spec(m: Option<Seq<Creator>>) -> Result<u64, Error> {
    match m {
        None => Err(Error::InvalidMetadata),
        Some(cs) => if cs.len() == 0 {
            Err(Error::InvalidMetadata)
        } else if cs[0].verified {
            Ok(cs[0].address)
        } else {
            Err(Error::InvalidMetadata)
        },
    }
}

/// Recovers the verified creator from an asset's metadata: the first listed
/// creator, and only if that creator has verified the asset.
pub fn metadata_creator(metadata: &AssetMetadata) -> (r: Result<u64, Error>)
    ensures
        r == metadata_creator_spec(metadata@),
{
    match &metadata.creators {
        None => Err(Error::InvalidMetadata),
        Some(cs) => {
            if cs.len() == 0 {
                Err(Error::InvalidMetadata)
            } else {
                let first = cs[0];
                if first.verified {
                    Ok(first.address)
                } else {
                    Err(Error::InvalidMetadata)
                }
            }
        },
    }
}

/// Record of one staked asset's position, open while `end_ts` is `None` and
/// closed, terminally, once it is set.  The custody vault that holds the
/// staked tokens is modelled by `vault_balance`; a closed vault is one whose
/// balance has reached zero.
#[derive(Clone, Copy, Debug, PartialEq, Eq, Structural)]
pub struct StakeReceipt {
    /// The farmer that owns the position.
    pub farmer: FarmerKey,
    /// Mint identity of the staked asset.
    pub mint: u64,
    /// The lock the position was opened under, if any.
    pub lock: Option<LockKey>,
    /// When the position was opened.
    pub start_ts: u64,
    /// When the position was closed, or `None` while it is open.
    pub end_ts: Option<u64>,
    /// How many units of the asset are staked.
    pub amount: u64,
    /// The position's effective reward rate.
    pub reward_rate: u64,
    /// Balance of the custody vault holding the staked tokens.
    pub vault_balance: u64,
}

impl StakeReceipt {
    /// A freshly opened position: it starts at `start_ts`, is open, and its
    /// custody vault holds exactly the staked amount.
    pub fn new(
        farmer: FarmerKey,
        mint: u64,
        lock: Option<LockKey>,
        start_ts: u64,
        amount: u64,
        reward_rate: u64,
    ) -> (r: StakeReceipt)
        ensures
            r == (StakeReceipt {
                farmer,
                mint,
                lock,
                start_ts,
                end_ts: None,
                amount,
                reward_rate,
                vault_balance: amount,
            }),
    {
        StakeReceipt {
            farmer,
            mint,
            lock,
            start_ts,
            end_ts: None,
            amount,
            reward_rate,
            vault_balance: amount,
        }
    }

    /// Whether the position is still open and accruing reward.
    pub open spec fn is_running_spec(&self) -> bool {
        self.end_ts is None
    }

    /// Whether the position is still open and accruing reward.
    #[verifier::when_used_as_spec(is_running_spec)]
    pub fn is_running(&self) -> (r: bool)
        ensures
            r == self.is_running_spec(),
    {
        self.end_ts.is_none()
    }
}

} // verus!
