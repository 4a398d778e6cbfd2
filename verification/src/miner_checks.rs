//! Parameter checks of the miner actor: sector expirations, control addresses, peer
//! information and seal proof sizes.

use vstd::prelude::*;
use fvm_ipld_bitfield::BitField;
use crate::address::Address;
use crate::bitfield::{bits_of, bitfield_contains_all};
use crate::error::{ActorError, USR_FORBIDDEN, USR_ILLEGAL_ARGUMENT, USR_ILLEGAL_STATE};
use crate::policy::{ChainEpoch, Policy};
use crate::proofs::{seal_proof_size, seal_proof_size_spec};

verus! {

/// Whether a sector that activates at `activation` may expire at `expiration`, judged at
/// `curr_epoch`: after activation, at least the minimum lifetime after it, no further than
/// the maximum extension from now, and within the seal proof's maximum lifetime (`None`
/// when the seal proof has none, which rejects every expiration).
pub open spec fn expiration_valid(policy: Policy, curr_epoch: int, activation: int, expiration: int, max_lifetime: Option<i64>) -> bool {
    &&& expiration > activation
    &&& expiration - activation >= policy.min_sector_expiration
    &&& expiration <= curr_epoch + policy.max_sector_expiration_extension
    &&& max_lifetime is Some
    &&& expiration - activation <= max_lifetime->0
}

/// Checks a sector expiration; every rejection is an illegal argument.
pub fn validate_expiration(policy: &Policy, curr_epoch: ChainEpoch, activation: ChainEpoch, expiration: ChainEpoch, max_lifetime: Option<i64>) -> (res: Result<(), ActorError>)
    ensures
        res is Ok <==> expiration_valid(*policy, curr_epoch as int, activation as int, expiration as int, max_lifetime),
        res is Err ==> res->Err_0.exit_code == USR_ILLEGAL_ARGUMENT,
{
    if expiration <= activation {
        return Err(ActorError::illegal_argument());
    }
    let lifetime: i128 = expiration as i128 - activation as i128;
    if lifetime < policy.min_sector_expiration as i128 {
        return Err(ActorError::illegal_argument());
    }
    if expiration as i128 > curr_epoch as i128 + policy.max_sector_expiration_extension as i128 {
        return Err(ActorError::illegal_argument());
    }
    match max_lifetime {
        None => Err(ActorError::illegal_argument()),
        Some(max) => {
            if lifetime > max as i128 {
                Err(ActorError::illegal_argument())
            } else {
                Ok(())
            }
        },
    }
}

/// The fields of a sector's on-chain record that expiration extensions read.
#[derive(Clone, Copy, Debug)]
pub struct SectorExpiry {
    pub sector_number: u64,
    pub seal_proof: i64,
    pub activation: ChainEpoch,
    pub expiration: ChainEpoch,
}

/// The error, if any, that `validate_extended_expiration` returns.
pub open spec fn extended_expiration_error(policy: Policy, curr_epoch: int, new_expiration: int, sector: SectorExpiry, can_extend: bool, max_lifetime: Option<i64>) -> Option<u32> {
    if !can_extend {
        Some(USR_FORBIDDEN)
    } else if sector.expiration < curr_epoch {
        Some(USR_FORBIDDEN)
    } else if new_expiration < sector.expiration {
        Some(USR_ILLEGAL_ARGUMENT)
    } else if !expiration_valid(policy, curr_epoch, sector.activation as int, new_expiration, max_lifetime) {
        Some(USR_ILLEGAL_ARGUMENT)
    } else {
        None
    }
}

/// Checks that a sector's expiration may be extended to `new_expiration`: its seal proof
/// must allow extension (`can_extend`), it must not have expired, the new expiration must
/// not be earlier, and the new expiration must pass `validate_expiration`.
pub fn validate_extended_expiration(policy: &Policy, curr_epoch: ChainEpoch, new_expiration: ChainEpoch, sector: &SectorExpiry, can_extend: bool, max_lifetime: Option<i64>) -> (res: Result<(), ActorError>)
    ensures
        match extended_expiration_error(*policy, curr_epoch as int, new_expiration as int, *sector, can_extend, max_lifetime) {
            None => res is Ok,
            Some(code) => res is Err && res->Err_0.exit_code == code,
        },
{
    if !can_extend {
        return Err(ActorError::forbidden());
    }
    if sector.expiration < curr_epoch {
        return Err(ActorError::forbidden());
    }
    if new_expiration < sector.expiration {
        return Err(ActorError::illegal_argument());
    }
    validate_expiration(policy, curr_epoch, sector.activation, new_expiration, max_lifetime)
}

/// Rejects more control addresses than the policy allows.
pub fn check_control_addresses(policy: &Policy, control_addrs: &[Address]) -> (res: Result<(), ActorError>)
    ensures
        res is Ok <==> control_addrs@.len() <= policy.max_control_addresses,
        res is Err ==> res->Err_0.exit_code == USR_ILLEGAL_ARGUMENT,
{
    if control_addrs.len() > policy.max_control_addresses {
        return Err(ActorError::illegal_argument());
    }
    Ok(())
}

/// The total length of a list of byte strings.
pub open spec fn total_len(s: Seq<Vec<u8>>) -> int
    decreases s.len(),
{
    if s.len() == 0 {
        0
    } else {
        total_len(s.drop_last()) + s.last()@.len()
    }
}

proof fn lemma_total_len_nonneg(s: Seq<Vec<u8>>)
    ensures
        total_len(s) >= 0,
    decreases s.len(),
{
    if s.len() > 0 {
        lemma_total_len_nonneg(s.drop_last());
    }
}

/// Whether a peer ID and multiaddresses fit the policy: the peer ID within its maximum
/// length, no empty multiaddress, and all multiaddresses together within their maximum size.
pub open spec fn peer_info_valid(policy: Policy, peer_id: Seq<u8>, multiaddrs: Seq<Vec<u8>>) -> bool {
    &&& peer_id.len() <= policy.max_peer_id_length
    &&& forall|i: int| 0 <= i < multiaddrs.len() ==> #[trigger] multiaddrs[i]@.len() > 0
    &&& total_len(multiaddrs) <= policy.max_multiaddr_data
}

/// Checks a peer ID and multiaddresses against the policy; every rejection is an illegal
/// argument.
pub fn check_peer_info(policy: &Policy, peer_id: &[u8], multiaddrs: &[Vec<u8>]) -> (res: Result<(), ActorError>)
    ensures
        res is Ok <==> peer_info_valid(*policy, peer_id@, multiaddrs@),
        res is Err ==> res->Err_0.exit_code == USR_ILLEGAL_ARGUMENT,
{
    if peer_id.len() > policy.max_peer_id_length {
        return Err(ActorError::illegal_argument());
    }
    let mut total_size: u128 = 0;
    let mut i: usize = 0;
    while i < multiaddrs.len()
        invariant
            i <= multiaddrs@.len(),
            total_size == total_len(multiaddrs@.subrange(0, i as int)),
            total_size <= i * 0x1_0000_0000_0000_0000,
            forall|j: int| 0 <= j < i ==> #[trigger] multiaddrs@[j]@.len() > 0,
        decreases multiaddrs@.len() - i,
    {
        if multiaddrs[i].len() == 0 {
            return Err(ActorError::illegal_argument());
        }
        assert(multiaddrs@.subrange(0, (i + 1) as int).drop_last() =~= multiaddrs@.subrange(0, i as int));
        assert(i < 0x1_0000_0000_0000_0000);
        assert((i + 1) * 0x1_0000_0000_0000_0000 == i * 0x1_0000_0000_0000_0000 + 0x1_0000_0000_0000_0000) by (nonlinear_arith);
        assert(i * 0x1_0000_0000_0000_0000 <= 0xffff_ffff_ffff_ffff * 0x1_0000_0000_0000_0000) by (nonlinear_arith)
            requires
                i < 0x1_0000_0000_0000_0000,
        ;
        total_size = total_size + multiaddrs[i].len() as u128;
        i = i + 1;
    }
    assert(multiaddrs@.subrange(0, multiaddrs@.len() as int) =~= multiaddrs@);
    if total_size > policy.max_multiaddr_data as u128 {
        return Err(ActorError::illegal_argument());
    }
    Ok(())
}

/// The smallest and largest number of sectors an aggregate seal proof may cover, as the
/// check reads them: the interactive bounds when `interactive` is false, the
/// non-interactive ones when it is true.
pub open spec fn aggregate_bounds(policy: Policy, interactive: bool) -> (u64, u64) {
    if interactive {
        (policy.min_aggregated_sectors_ni, policy.max_aggregated_sectors_ni)
    } else {
        (policy.min_aggregated_sectors, policy.max_aggregated_sectors)
    }
}

/// Checks an aggregate seal proof: the number of sectors within the bounds and the proof
/// within the maximum size; every rejection is an illegal argument.
pub fn validate_seal_aggregate_proof(proof: &[u8], sector_count: u64, policy: &Policy, interactive: bool) -> (res: Result<(), ActorError>)
    ensures
        res is Ok <==> ({
            let (min, max) = aggregate_bounds(*policy, interactive);
            &&& min <= sector_count <= max
            &&& proof@.len() <= policy.max_aggregated_proof_size
        }),
        res is Err ==> res->Err_0.exit_code == USR_ILLEGAL_ARGUMENT,
{
    let (min, max) = if interactive {
        (policy.min_aggregated_sectors_ni, policy.max_aggregated_sectors_ni)
    } else {
        (policy.min_aggregated_sectors, policy.max_aggregated_sectors)
    };
    if sector_count > max {
        return Err(ActorError::illegal_argument());
    } else if sector_count < min {
        return Err(ActorError::illegal_argument());
    }
    if proof.len() > policy.max_aggregated_proof_size {
        return Err(ActorError::illegal_argument());
    }
    Ok(())
}

/// Checks each seal proof against the largest size for its proof type: an unknown proof
/// type is an illegal state, a proof that is too large an illegal argument.
pub fn validate_seal_proofs(seal_proof_type: i64, proofs: &[Vec<u8>]) -> (res: Result<(), ActorError>)
    ensures
        match seal_proof_size_spec(seal_proof_type) {
            None => res is Err && res->Err_0.exit_code == USR_ILLEGAL_STATE,
            Some(max) => {
                &&& res is Ok <==> (forall|i: int| 0 <= i < proofs@.len() ==> #[trigger] proofs@[i]@.len() <= max)
                &&& res is Err ==> res->Err_0.exit_code == USR_ILLEGAL_ARGUMENT
            },
        },
{
    let max_proof_size = match seal_proof_size(seal_proof_type) {
        None => {
            return Err(ActorError::illegal_state());
        },
        Some(size) => size,
    };
    let mut i: usize = 0;
    while i < proofs.len()
        invariant
            i <= proofs@.len(),
            seal_proof_size_spec(seal_proof_type) == Some(max_proof_size),
            forall|j: int| 0 <= j < i ==> #[trigger] proofs@[j]@.len() <= max_proof_size,
        decreases proofs@.len() - i,
    {
        if proofs[i].len() > max_proof_size {
            return Err(ActorError::illegal_argument());
        }
        i = i + 1;
    }
    Ok(())
}

/// Accepts a Window PoSt proof type only if it is among the ones the policy allows for new
/// miners; otherwise an illegal argument.
pub fn check_valid_post_proof_type(valid_post_proof_types: &[i64], proof_type: i64) -> (res: Result<(), ActorError>)
    ensures
        res is Ok <==> valid_post_proof_types@.contains(proof_type),
        res is Err ==> res->Err_0.exit_code == USR_ILLEGAL_ARGUMENT,
{
    let mut i: usize = 0;
    while i < valid_post_proof_types.len()
        invariant
            i <= valid_post_proof_types@.len(),
            forall|j: int| 0 <= j < i ==> valid_post_proof_types@[j] != proof_type,
        decreases valid_post_proof_types@.len() - i,
    {
        if valid_post_proof_types[i] == proof_type {
            assert(valid_post_proof_types@[i as int] == proof_type);
            return Ok(());
        }
        i = i + 1;
    }
    Err(ActorError::illegal_argument())
}

/// Checks that the declared sectors all belong to the partition (whose sectors are
/// `partition_sectors`); otherwise an illegal argument.
pub fn validate_partition_contains_sectors(partition_sectors: &BitField, sectors: &BitField) -> (res: Result<(), ActorError>)
    ensures
        res is Ok <==> bits_of(*sectors).subset_of(bits_of(*partition_sectors)),
        res is Err ==> res->Err_0.exit_code == USR_ILLEGAL_ARGUMENT,
{
    if bitfield_contains_all(partition_sectors, sectors) {
        Ok(())
    } else {
        Err(ActorError::illegal_argument())
    }
}

} // verus!
