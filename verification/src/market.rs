//! Storage deal proposals and the market's provider collateral bounds.

use vstd::prelude::*;
use vstd::utf8::encode_utf8;
use crate::address::Address;
use crate::miner_state::fits_i128;
use crate::policy::{ChainEpoch, Policy, TokenAmount, TOTAL_FILECOIN_ATTO};

verus! {

/// Maximum length of a deal label.
pub const DEAL_MAX_LABEL_SIZE: usize = 256;

/// A deal label: a UTF-8 string or raw bytes.
#[derive(Debug)]
pub enum Label {
    String(String),
    Bytes(Vec<u8>),
}

impl Label {
    /// Length in bytes (UTF-8 bytes for a string).
    pub fn len(&self) -> (res: usize)
        ensures
            res == match self {
                Label::String(s) => encode_utf8(s@).len() as usize as int,
                Label::Bytes(b) => b@.len() as int,
            },
    {
        match self {
            Label::String(s) => s.as_str().len(),
            Label::Bytes(b) => b.len(),
        }
    }

    /// Whether the label is empty.
    pub fn is_empty(&self) -> (res: bool)
        ensures
            res == match self {
                Label::String(s) => s@.len() == 0,
                Label::Bytes(b) => b@.len() == 0,
            },
    {
        match self {
            Label::String(s) => s.as_str().is_empty(),
            Label::Bytes(b) => b.len() == 0,
        }
    }
}

/// A storage deal proposal.
#[derive(Debug)]
pub struct DealProposal {
    /// CID of the piece, as bytes.
    pub piece_cid: Vec<u8>,
    /// Padded piece size.
    pub piece_size: u64,
    pub verified_deal: bool,
    pub client: Address,
    pub provider: Address,
    pub label: Label,
    /// Nominal start epoch; payment is linear from start to end.
    pub start_epoch: ChainEpoch,
    pub end_epoch: ChainEpoch,
    pub storage_price_per_epoch: TokenAmount,
    pub provider_collateral: TokenAmount,
    pub client_collateral: TokenAmount,
}

/// The epochs a deal records for its sector, updates and slashing (-1 when unset).
#[derive(Clone, Copy, Debug, PartialEq, Eq, Structural)]
pub struct DealState {
    pub sector_start_epoch: ChainEpoch,
    pub last_updated_epoch: ChainEpoch,
    pub slash_epoch: ChainEpoch,
}

impl DealProposal {
    /// `end_epoch - start_epoch`.
    pub fn duration(&self) -> (res: ChainEpoch)
        requires
            i64::MIN <= self.end_epoch - self.start_epoch <= i64::MAX,
        ensures
            res == self.end_epoch - self.start_epoch,
    {
        self.end_epoch - self.start_epoch
    }

    /// Deal weight: duration times piece size.
    pub fn weight(&self) -> (res: i128)
        requires
            i64::MIN <= self.end_epoch - self.start_epoch <= i64::MAX,
        ensures
            res == (self.end_epoch - self.start_epoch) * self.piece_size,
    {
        let d = self.duration() as i128;
        let s = self.piece_size as i128;
        assert(-0x8000_0000_0000_0000 * 0x1_0000_0000_0000_0000 <= d * s <= 0x7fff_ffff_ffff_ffff * 0xffff_ffff_ffff_ffff) by (nonlinear_arith)
            requires -0x8000_0000_0000_0000 <= d <= 0x7fff_ffff_ffff_ffff, 0 <= s <= 0xffff_ffff_ffff_ffff;
        d * s
    }

    /// Total storage fee: price per epoch times the duration read as an unsigned number.
    pub fn total_storage_fee(&self) -> (res: TokenAmount)
        requires
            i64::MIN <= self.end_epoch - self.start_epoch <= i64::MAX,
            fits_i128(self.storage_price_per_epoch * ((self.end_epoch - self.start_epoch) as u64)),
        ensures
            res == self.storage_price_per_epoch * ((self.end_epoch - self.start_epoch) as u64),
    {
        let d = self.duration();
        #[verifier::truncate]
        let du = d as u64;
        self.storage_price_per_epoch * (du as i128)
    }

    /// Client collateral plus the total storage fee.
    pub fn client_balance_requirement(&self) -> (res: TokenAmount)
        requires
            i64::MIN <= self.end_epoch - self.start_epoch <= i64::MAX,
            fits_i128(self.storage_price_per_epoch * ((self.end_epoch - self.start_epoch) as u64)),
            fits_i128(self.client_collateral + self.storage_price_per_epoch * ((self.end_epoch - self.start_epoch) as u64)),
        ensures
            res == self.client_collateral + self.storage_price_per_epoch * ((self.end_epoch - self.start_epoch) as u64),
    {
        self.client_collateral + self.total_storage_fee()
    }

    /// The provider's collateral.
    pub fn provider_balance_requirement(&self) -> (res: TokenAmount)
        ensures
            res == self.provider_collateral,
    {
        self.provider_collateral
    }
}

/// `n / d` rounded toward negative infinity, for `d != 0`.
pub open spec fn floor_div(n: int, d: int) -> int {
    if d > 0 { n / d } else { (-n) / (-d) }
}

/// Floor division of i128 values.
pub(crate) fn floor_div_i128(n: i128, d: i128) -> (res: i128)
    requires
        d != 0,
        n > i128::MIN,
        d > i128::MIN,
    ensures
        res == floor_div(n as int, d as int),
{
    let (nn, dd): (i128, i128) = if d > 0 { (n, d) } else { (-n, -d) };
    if nn >= 0 {
        assert(nn / dd <= nn) by (nonlinear_arith) requires nn >= 0, dd > 0 {
            vstd::arithmetic::div_mod::lemma_div_is_ordered_by_denominator(nn as int, 1, dd as int);
        }
        nn / dd
    } else {
        // floor(nn / dd) for nn < 0, dd > 0: -ceil(-nn / dd)
        let pos: i128 = -nn;
        let q: i128 = (pos - 1) / dd;
        assert(0 <= q <= pos - 1) by (nonlinear_arith) requires pos - 1 >= 0, dd > 0, q as int == (pos - 1) as int / (dd as int) {
            vstd::arithmetic::div_mod::lemma_div_is_ordered_by_denominator((pos - 1) as int, 1, dd as int);
        }
        proof {
            vstd::arithmetic::div_mod::lemma_fundamental_div_mod((pos - 1) as int, dd as int);
            let qi = q as int;
            let r = (pos - 1) as int % (dd as int);
            assert(nn == (-qi - 1) * dd + (dd - 1 - r)) by (nonlinear_arith)
                requires pos - 1 == dd * qi + r, nn == -pos;
            vstd::arithmetic::div_mod::lemma_fundamental_div_mod_converse(nn as int, dd as int, -qi - 1, dd - 1 - r);
        }
        -q - 1
    }
}

/// The lower and upper bounds of provider collateral for a deal of `size` bytes:
/// the lower is the deal's power share of the collateral target share of circulating
/// supply, `floor(size * supply * num / (max(raw, baseline, size) * denom))`; the upper is
/// all FIL.
pub fn deal_provider_collateral_bounds(
    policy: &Policy,
    size: u64,
    network_raw_power: i128,
    baseline_power: i128,
    network_circulating_supply: TokenAmount,
) -> (res: (TokenAmount, TokenAmount))
    requires
        fits_i128(network_circulating_supply * policy.prov_collateral_percent_supply_num),
        fits_i128(size * (network_circulating_supply * policy.prov_collateral_percent_supply_num)),
        size * (network_circulating_supply * policy.prov_collateral_percent_supply_num) > i128::MIN,
        fits_i128(collateral_denominator(policy, size, network_raw_power, baseline_power)),
        collateral_denominator(policy, size, network_raw_power, baseline_power) != 0,
        collateral_denominator(policy, size, network_raw_power, baseline_power) > i128::MIN,
    ensures
        res.0 == floor_div(size * (network_circulating_supply * policy.prov_collateral_percent_supply_num),
            collateral_denominator(policy, size, network_raw_power, baseline_power)),
        res.1 == TOTAL_FILECOIN_ATTO,
{
    let lock_target_num: i128 = network_circulating_supply * (policy.prov_collateral_percent_supply_num as i128);
    let power_share_num: i128 = size as i128;
    let m1: i128 = if network_raw_power > baseline_power { network_raw_power } else { baseline_power };
    let power_share_denom: i128 = if m1 > power_share_num { m1 } else { power_share_num };
    let num: i128 = power_share_num * lock_target_num;
    let denom: i128 = power_share_denom * (policy.prov_collateral_percent_supply_denom as i128);
    (floor_div_i128(num, denom), TOTAL_FILECOIN_ATTO)
}

/// The denominator of the collateral share:
/// `max(max(raw, baseline), size) * prov_collateral_percent_supply_denom`.
pub open spec fn collateral_denominator(policy: &Policy, size: u64, network_raw_power: i128, baseline_power: i128) -> int {
    let m1 = if network_raw_power > baseline_power { network_raw_power as int } else { baseline_power as int };
    let m = if m1 > size { m1 } else { size as int };
    m * policy.prov_collateral_percent_supply_denom
}

/// The penalty on provider collateral when a deal is not activated in time: all of it.
pub fn collateral_penalty_for_deal_activation_missed(provider_collateral: TokenAmount) -> (res: TokenAmount)
    ensures
        res == provider_collateral,
{
    provider_collateral
}


/// Law: the collateral denominator treats the network's raw power and the baseline power
/// alike: swapping them changes nothing.
pub proof fn lemma_collateral_denominator_symmetric(policy: &Policy, size: u64, network_raw_power: i128, baseline_power: i128)
    ensures
        collateral_denominator(policy, size, network_raw_power, baseline_power)
            == collateral_denominator(policy, size, baseline_power, network_raw_power),
{
}

/// Law: when the network's raw power is at least the baseline power and the deal size, the
/// minimum provider collateral is the deal's share `size / network_raw_power` of the
/// collateral target `supply * num / denom`, rounded down:
/// `min * (raw * denom) <= size * supply * num < (min + 1) * (raw * denom)`.
/// So the baseline power then plays no part.
pub proof fn lemma_min_collateral_uses_largest_power(policy: &Policy, size: u64, network_raw_power: i128, baseline_power: i128, supply: TokenAmount)
    requires
        network_raw_power >= baseline_power,
        network_raw_power >= size,
        network_raw_power > 0,
        policy.prov_collateral_percent_supply_denom > 0,
    ensures
        ({
            let min = floor_div(size * (supply * policy.prov_collateral_percent_supply_num),
                collateral_denominator(policy, size, network_raw_power, baseline_power));
            let d = network_raw_power * policy.prov_collateral_percent_supply_denom;
            &&& min * d <= size * (supply * policy.prov_collateral_percent_supply_num)
            &&& size * (supply * policy.prov_collateral_percent_supply_num) < (min + 1) * d
        }),
{
    let n = size * (supply * policy.prov_collateral_percent_supply_num);
    let d = network_raw_power * policy.prov_collateral_percent_supply_denom;
    assert(collateral_denominator(policy, size, network_raw_power, baseline_power) == d);
    assert(d > 0) by (nonlinear_arith)
        requires network_raw_power > 0, policy.prov_collateral_percent_supply_denom > 0, d == network_raw_power * policy.prov_collateral_percent_supply_denom;
    vstd::arithmetic::div_mod::lemma_fundamental_div_mod(n, d);
    let q = n / d;
    assert(q * d == d * q) by (nonlinear_arith);
    assert((q + 1) * d == d * q + d) by (nonlinear_arith);
}

/// Law: a larger network raw power never raises the minimum provider collateral of a deal
/// (for a non-negative collateral target and a positive denominator).
pub proof fn lemma_min_collateral_non_increasing_in_power(policy: &Policy, size: u64, p1: i128, p2: i128, baseline_power: i128, supply: TokenAmount)
    requires
        p1 <= p2,
        p1 > 0,
        policy.prov_collateral_percent_supply_denom > 0,
        supply * policy.prov_collateral_percent_supply_num >= 0,
    ensures
        floor_div(size * (supply * policy.prov_collateral_percent_supply_num), collateral_denominator(policy, size, p2, baseline_power))
            <= floor_div(size * (supply * policy.prov_collateral_percent_supply_num), collateral_denominator(policy, size, p1, baseline_power)),
{
    let n = size * (supply * policy.prov_collateral_percent_supply_num);
    let d1 = collateral_denominator(policy, size, p1, baseline_power);
    let d2 = collateral_denominator(policy, size, p2, baseline_power);
    let den = policy.prov_collateral_percent_supply_denom as int;
    let m1a = if p1 > baseline_power { p1 as int } else { baseline_power as int };
    let m1 = if m1a > size { m1a } else { size as int };
    let m2a = if p2 > baseline_power { p2 as int } else { baseline_power as int };
    let m2 = if m2a > size { m2a } else { size as int };
    assert(0 < m1 <= m2);
    assert(d1 == m1 * den && d2 == m2 * den);
    assert(0 < d1 <= d2) by (nonlinear_arith) requires 0 < m1 <= m2, den > 0, d1 == m1 * den, d2 == m2 * den;
    assert(n >= 0) by (nonlinear_arith) requires supply * policy.prov_collateral_percent_supply_num >= 0, size >= 0,
        n == size * (supply * policy.prov_collateral_percent_supply_num);
    vstd::arithmetic::div_mod::lemma_div_is_ordered_by_denominator(n, d1, d2);
}

} // verus!
