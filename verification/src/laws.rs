//! Global laws of the protocol, proved against the operation specifications
//! of [`crate::model`]: rate deltas on stake and unstake, the stake/unstake
//! round trip, claims not bending the accrual integral, and the guarantee
//! that a well-formed ledger never trips the defensive arithmetic guards of
//! unstaking.

use vstd::prelude::*;

use crate::address::FarmKey;
use crate::address::FarmerKey;
use crate::address::LockKey;
use crate::model::LedgerView;
use crate::model::claim_rewards_spec;
use crate::model::farmer_idx;
use crate::model::lemma_farmer_idx;
use crate::model::lemma_receipt_idx;
use crate::model::lemma_share_le_sum;
use crate::model::lemma_stake_wf;
use crate::model::receipt_idx;
use crate::model::resolve_base_rate;
use crate::model::resolve_bonus_factor;
use crate::model::stake_spec;
use crate::model::unstake_spec;
use crate::rewards::calculate_reward_rate_spec;
use crate::state::Creator;
use crate::state::accrued_at;
use crate::state::settle_farmer;

verus! {

/// The effective rate a successful stake applies, read off the inputs.
pub open spec fn staked_rate(
    v: LedgerView,
    farm: FarmKey,
    mint: u64,
    lock: Option<LockKey>,
    meta: Option<Seq<Creator>>,
) -> u64 {
    calculate_reward_rate_spec(
        resolve_base_rate(v.whitelists, farm, mint, meta).unwrap(),
        resolve_bonus_factor(v.locks, farm, lock).unwrap(),
    ).unwrap()
}

/// Staking raises the farmer's aggregate rate by exactly the newly computed
/// effective rate, and records that same rate on the new receipt.
pub proof fn lemma_stake_rate_delta(
    v: LedgerView,
    farm: FarmKey,
    owner: u64,
    mint: u64,
    amount: u64,
    lock: Option<LockKey>,
    meta: Option<Seq<Creator>>,
    now: u64,
)
    requires
        v.wf(),
        stake_spec(v, farm, owner, mint, amount, lock, meta, now) is Ok,
    ensures
        ({
            let post = stake_spec(v, farm, owner, mint, amount, lock, meta, now).unwrap();
            let fk = FarmerKey { farm, owner };
            let fi = farmer_idx(v.farmers, fk);
            let eff = staked_rate(v, farm, mint, lock, meta);
            &&& post.farmers[fi].reward_rate == v.farmers[fi].reward_rate + eff
            &&& post.receipts[receipt_idx(post.receipts, fk, mint)].reward_rate == eff
        }),
{
    let post = stake_spec(v, farm, owner, mint, amount, lock, meta, now).unwrap();
    let fk = FarmerKey { farm, owner };
    let fi = farmer_idx(v.farmers, fk);
    let ri = receipt_idx(v.receipts, fk, mint);
    lemma_farmer_idx(v.farmers, fk);
    lemma_receipt_idx(v.receipts, fk, mint);
    lemma_receipt_idx(post.receipts, fk, mint);
    assert(post.receipts[receipt_idx(post.receipts, fk, mint)] == post.receipts[ri]);
}

/// Unstaking lowers the farmer's aggregate rate by exactly the closed
/// position's effective rate.
pub proof fn lemma_unstake_rate_delta(
    v: LedgerView,
    farm: FarmKey,
    owner: u64,
    mint: u64,
    now: u64,
)
    requires
        v.wf(),
        unstake_spec(v, farm, owner, mint, now) is Ok,
    ensures
        ({
            let post = unstake_spec(v, farm, owner, mint, now).unwrap();
            let fk = FarmerKey { farm, owner };
            let fi = farmer_idx(v.farmers, fk);
            let ri = receipt_idx(v.receipts, fk, mint);
            post.farmers[fi].reward_rate == v.farmers[fi].reward_rate
                - v.receipts[ri].reward_rate
        }),
{
    let fk = FarmerKey { farm, owner };
    lemma_farmer_idx(v.farmers, fk);
    lemma_receipt_idx(v.receipts, fk, mint);
    let fi = farmer_idx(v.farmers, fk);
    assert(settle_farmer(v.farmers[fi], now).unwrap().reward_rate == v.farmers[fi].reward_rate);
}

/// On a well-formed ledger the defensive arithmetic guards of closing a
/// position can never fire: whenever the farmer and an open receipt exist,
/// the lock's duration has elapsed, and settlement itself succeeds, the
/// unstake is owed to succeed.  The aggregate rate covers the receipt's
/// rate because it is the sum of the open positions' rates, and the custody
/// vault covers the staked amount.
pub proof fn lemma_unstake_success(v: LedgerView, farm: FarmKey, owner: u64, mint: u64, now: u64)
    requires
        v.wf(),
        ({
            let fk = FarmerKey { farm, owner };
            let fi = farmer_idx(v.farmers, fk);
            let ri = receipt_idx(v.receipts, fk, mint);
            &&& fi < v.farmers.len()
            &&& ri < v.receipts.len()
            &&& v.receipts[ri].end_ts is None
            &&& (match v.receipts[ri].lock {
                None => true,
                Some(lk) => now >= v.receipts[ri].start_ts + lk.duration,
            })
            &&& settle_farmer(v.farmers[fi], now) is Ok
        }),
    ensures
        unstake_spec(v, farm, owner, mint, now) is Ok,
{
    let fk = FarmerKey { farm, owner };
    let fi = farmer_idx(v.farmers, fk);
    let ri = receipt_idx(v.receipts, fk, mint);
    lemma_farmer_idx(v.farmers, fk);
    lemma_receipt_idx(v.receipts, fk, mint);
    lemma_share_le_sum(v.receipts, ri, fk);
    assert(v.farmers[fi].reward_rate == crate::model::sum_open_rates(v.receipts, fk));
    assert(v.receipts[ri].reward_rate <= v.farmers[fi].reward_rate);
    assert(settle_farmer(v.farmers[fi], now).unwrap().reward_rate == v.farmers[fi].reward_rate);
}

/// Staking and immediately unstaking with zero elapsed time is a no-op on
/// the farmer's accounting: the aggregate rate and the accrued reward end
/// exactly where they started.  The position must carry no minimum staking
/// duration for the immediate exit to be allowed.
pub proof fn lemma_stake_unstake_round_trip(
    v: LedgerView,
    farm: FarmKey,
    owner: u64,
    mint: u64,
    amount: u64,
    lock: Option<LockKey>,
    meta: Option<Seq<Creator>>,
    now: u64,
)
    requires
        v.wf(),
        stake_spec(v, farm, owner, mint, amount, lock, meta, now) is Ok,
        (match lock {
            None => true,
            Some(lk) => lk.duration == 0,
        }),
        now == v.farmers[farmer_idx(v.farmers, FarmerKey { farm, owner })].last_update,
    ensures
        ({
            let mid = stake_spec(v, farm, owner, mint, amount, lock, meta, now).unwrap();
            let fk = FarmerKey { farm, owner };
            let fi = farmer_idx(v.farmers, fk);
            &&& unstake_spec(mid, farm, owner, mint, now) is Ok
            &&& unstake_spec(mid, farm, owner, mint, now).unwrap().farmers[fi].reward_rate
                == v.farmers[fi].reward_rate
            &&& unstake_spec(mid, farm, owner, mint, now).unwrap().farmers[fi].accrued_rewards
                == v.farmers[fi].accrued_rewards
        }),
{
    let mid = stake_spec(v, farm, owner, mint, amount, lock, meta, now).unwrap();
    let fk = FarmerKey { farm, owner };
    let fi = farmer_idx(v.farmers, fk);
    let ri = receipt_idx(v.receipts, fk, mint);
    lemma_stake_wf(v, farm, owner, mint, amount, lock, meta, now);
    lemma_farmer_idx(v.farmers, fk);
    lemma_farmer_idx(mid.farmers, fk);
    lemma_receipt_idx(v.receipts, fk, mint);
    lemma_receipt_idx(mid.receipts, fk, mint);
    assert(farmer_idx(mid.farmers, fk) == fi);
    let mi = receipt_idx(mid.receipts, fk, mint);
    assert(mid.receipts[ri].farmer == fk && mid.receipts[ri].mint == mint);
    assert(mi == ri);
    let eff = staked_rate(v, farm, mint, lock, meta);
    let settled = settle_farmer(v.farmers[fi], now).unwrap();
    assert(mid.farmers[fi].reward_rate == v.farmers[fi].reward_rate + eff);
    assert(mid.farmers[fi].accrued_rewards == v.farmers[fi].accrued_rewards);
    assert(mid.farmers[fi].last_update == now);
    assert(mid.receipts[mi].reward_rate == eff);
    assert(mid.receipts[mi].end_ts is None);
    assert(settle_farmer(mid.farmers[fi], now) is Ok);
    lemma_unstake_success(mid, farm, owner, mint, now);
    lemma_unstake_rate_delta(mid, farm, owner, mint, now);
    let post = unstake_spec(mid, farm, owner, mint, now).unwrap();
    assert(post.farmers[fi].accrued_rewards == settle_farmer(
        mid.farmers[fi],
        now,
    ).unwrap().accrued_rewards);
}

/// A rate change is never retroactive: staking settles the farmer first, so
/// everything accrued up to the stake was earned at the old aggregate rate,
/// and the raised rate only applies from `now` on.
pub proof fn lemma_stake_settles_first(
    v: LedgerView,
    farm: FarmKey,
    owner: u64,
    mint: u64,
    amount: u64,
    lock: Option<LockKey>,
    meta: Option<Seq<Creator>>,
    now: u64,
)
    requires
        v.wf(),
        stake_spec(v, farm, owner, mint, amount, lock, meta, now) is Ok,
    ensures
        ({
            let post = stake_spec(v, farm, owner, mint, amount, lock, meta, now).unwrap();
            let fi = farmer_idx(v.farmers, FarmerKey { farm, owner });
            &&& post.farmers[fi].accrued_rewards == accrued_at(v.farmers[fi], now)
            &&& post.farmers[fi].last_update == now
        }),
{
    lemma_farmer_idx(v.farmers, FarmerKey { farm, owner });
}

/// A rate change is never retroactive on the way out either: unstaking
/// settles the farmer at the full pre-unstake rate before the closed
/// position's rate is removed.
pub proof fn lemma_unstake_settles_first(
    v: LedgerView,
    farm: FarmKey,
    owner: u64,
    mint: u64,
    now: u64,
)
    requires
        v.wf(),
        unstake_spec(v, farm, owner, mint, now) is Ok,
    ensures
        ({
            let post = unstake_spec(v, farm, owner, mint, now).unwrap();
            let fi = farmer_idx(v.farmers, FarmerKey { farm, owner });
            &&& post.farmers[fi].accrued_rewards == accrued_at(v.farmers[fi], now)
            &&& post.farmers[fi].last_update == now
        }),
{
    lemma_farmer_idx(v.farmers, FarmerKey { farm, owner });
    lemma_receipt_idx(v.receipts, FarmerKey { farm, owner }, mint);
}

/// A claim never bends the accrual integral: what it pays out now plus what
/// the farmer goes on to accrue by any later time equals what the farmer
/// would have accrued by that time without the claim.  Claims only zero the
/// accrued counter; the rate and the settlement point carry on unchanged.
pub proof fn lemma_claim_preserves_integral(
    v: LedgerView,
    farm: FarmKey,
    owner: u64,
    now: u64,
    later: u64,
)
    requires
        v.wf(),
        claim_rewards_spec(v, farm, owner, now) is Ok,
        now <= later,
    ensures
        ({
            let (post, claimed) = claim_rewards_spec(v, farm, owner, now).unwrap();
            let fi = farmer_idx(v.farmers, FarmerKey { farm, owner });
            claimed + accrued_at(post.farmers[fi], later) == accrued_at(v.farmers[fi], later)
        }),
{
    let (post, claimed) = claim_rewards_spec(v, farm, owner, now).unwrap();
    let fk = FarmerKey { farm, owner };
    let fi = farmer_idx(v.farmers, fk);
    let f = v.farmers[fi];
    lemma_farmer_idx(v.farmers, fk);
    assert((now - f.last_update) * f.reward_rate + (later - now) * f.reward_rate == (later
        - f.last_update) * f.reward_rate) by (nonlinear_arith);
}

} // verus!
