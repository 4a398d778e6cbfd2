//! The constants of the miner actor's pledge, deposit and penalty rules.

use vstd::prelude::*;
use crate::policy::{ChainEpoch, TokenAmount, EPOCHS_IN_DAY, FILECOIN_PRECISION};

verus! {

/// Days of expected sector block reward held as pre-commit deposit; lost if the
/// pre-commitment is not followed by a proof in time.
pub const PRE_COMMIT_DEPOSIT_FACTOR: u64 = 20;

/// Days of expected sector block reward held as storage pledge; lost if the sector is
/// terminated before its committed lifetime.
pub const INITIAL_PLEDGE_FACTOR: u64 = 20;

/// Projection period of the pre-commit deposit, in epochs.
pub const PRE_COMMIT_DEPOSIT_PROJECTION_PERIOD: ChainEpoch = 20 * EPOCHS_IN_DAY;

/// Projection period of the initial pledge, in epochs.
pub const INITIAL_PLEDGE_PROJECTION_PERIOD: ChainEpoch = 20 * EPOCHS_IN_DAY;

/// Numerator of the share of the termination fee paid as reward.
pub const TERMINATION_REWARD_FACTOR_NUM: u32 = 1;

/// Denominator of the share of the termination fee paid as reward.
pub const TERMINATION_REWARD_FACTOR_DENOM: u32 = 2;

/// Numerator of the projection factor of the continued fault fee.
pub const CONTINUED_FAULT_FACTOR_NUM: i64 = 351;

/// Denominator of the projection factor of the continued fault fee.
pub const CONTINUED_FAULT_FACTOR_DENOM: i64 = 100;

/// Projection period of the expected daily block reward charged for a continued fault:
/// 3.51 days, rounded down to whole epochs.
pub fn continued_fault_projection_period() -> (res: ChainEpoch)
    ensures
        res == (EPOCHS_IN_DAY * CONTINUED_FAULT_FACTOR_NUM) / (CONTINUED_FAULT_FACTOR_DENOM as int),
        res == 10_108,
{
    (EPOCHS_IN_DAY * CONTINUED_FAULT_FACTOR_NUM) / CONTINUED_FAULT_FACTOR_DENOM
}

/// Most lifetime days penalized when a sector is terminated.
pub const TERMINATION_LIFETIME_CAP: ChainEpoch = 140;

/// Cap on the initial pledge per byte of sector: 1 FIL per 32 GiB, rounded down.
pub fn initial_pledge_max_per_byte() -> (res: TokenAmount)
    ensures
        res == FILECOIN_PRECISION / 34_359_738_368,
{
    let bytes_per_32_gib: i128 = 32 * 1024 * 1024 * 1024;
    FILECOIN_PRECISION / bytes_per_32_gib
}

/// Base reward for successfully disputing a Window PoSt: 4 FIL.
pub fn base_reward_for_disputed_window_post() -> (res: TokenAmount)
    ensures
        res == 4 * FILECOIN_PRECISION,
{
    4 * FILECOIN_PRECISION
}

/// Base penalty for a successfully disputed Window PoSt: 20 FIL.
pub fn base_penalty_for_disputed_window_post() -> (res: TokenAmount)
    ensures
        res == 20 * FILECOIN_PRECISION,
{
    20 * FILECOIN_PRECISION
}

} // verus!
