//! Network policy parameters that the actors' rules read.

use vstd::prelude::*;

verus! {

/// Chain epoch (one per block round).
pub type ChainEpoch = i64;

/// A token amount in attoFIL (10^-18 FIL).
pub type TokenAmount = i128;

/// Epochs in one day (30-second epochs).
pub const EPOCHS_IN_DAY: i64 = 2880;

/// Epochs in one hour.
pub const EPOCHS_IN_HOUR: i64 = 120;

/// Units of attoFIL per FIL.
pub const FILECOIN_PRECISION: i128 = 1_000_000_000_000_000_000;

/// Total FIL ever to exist, in attoFIL.
pub const TOTAL_FILECOIN_ATTO: i128 = 2_000_000_000_000_000_000_000_000_000;

/// The policy values that the miner, market and verified-registry rules consult.
#[derive(Clone, Copy, Debug)]
pub struct Policy {
    /// Length of a Window PoSt proving period, in epochs.
    pub wpost_proving_period: i64,
    /// Length of one Window PoSt challenge window (one deadline), in epochs.
    pub wpost_challenge_window: i64,
    /// Number of deadlines in a proving period.
    pub wpost_period_deadlines: u64,
    /// Minimum lifetime of a sector after activation, in epochs.
    pub min_sector_expiration: i64,
    /// Furthest a sector expiration may be set after the current epoch.
    pub max_sector_expiration_extension: i64,
    /// Maximum length of a libp2p peer ID.
    pub max_peer_id_length: usize,
    /// Maximum total size of a miner's multiaddresses.
    pub max_multiaddr_data: usize,
    /// Maximum number of control addresses.
    pub max_control_addresses: usize,
    /// Delay between pre-commit and the earliest interactive challenge.
    pub pre_commit_challenge_delay: i64,
    /// Numerator of the share of circulating supply locked as provider collateral.
    pub prov_collateral_percent_supply_num: i64,
    /// Denominator of that share.
    pub prov_collateral_percent_supply_denom: i64,
    /// How far back a non-interactive seal challenge epoch may lie.
    pub max_prove_commit_ni_randomness_lookback: i64,
    /// Maximum number of replica updates in one message.
    pub prove_replica_updates_max_size: usize,
    /// Fewest sectors in an interactive aggregate seal proof.
    pub min_aggregated_sectors: u64,
    /// Most sectors in an interactive aggregate seal proof.
    pub max_aggregated_sectors: u64,
    /// Fewest sectors in a non-interactive aggregate seal proof.
    pub min_aggregated_sectors_ni: u64,
    /// Most sectors in a non-interactive aggregate seal proof.
    pub max_aggregated_sectors_ni: u64,
    /// Largest aggregate seal proof, in bytes.
    pub max_aggregated_proof_size: usize,
    /// How close to its expiration a sector must be for verified claims to be dropped
    /// when it is extended.
    pub end_of_life_claim_drop_period: i64,
}

} // verus!
