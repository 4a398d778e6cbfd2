//! The static information of a miner actor: owner, worker, control addresses, peer
//! information, proof type and beneficiary.

use vstd::prelude::*;
use crate::address::{id_address, Address};
use crate::error::{ActorError, USR_ILLEGAL_ARGUMENT};
use crate::policy::{ChainEpoch, TokenAmount};
use crate::proofs::{post_partition_sectors, post_proof_known, post_partition_sectors_spec, post_sector_size, post_sector_size_spec};

verus! {

/// The epoch value that stands for "not set".
pub const EPOCH_UNDEFINED: ChainEpoch = -1;

/// A worker key change that takes effect at an epoch.
#[derive(Debug)]
pub struct WorkerKeyChange {
    /// Must be an ID address.
    pub new_worker: Address,
    pub effective_at: ChainEpoch,
}

/// The beneficiary's total quota, how much of it has been withdrawn, and when the
/// beneficiary expires.
#[derive(Clone, Copy, Debug, PartialEq, Eq, Structural)]
pub struct BeneficiaryTerm {
    pub quota: TokenAmount,
    pub used_quota: TokenAmount,
    pub expiration: ChainEpoch,
}

/// A proposed change of beneficiary and who has approved it.
#[derive(Debug)]
pub struct PendingBeneficiaryChange {
    pub new_beneficiary: Address,
    pub new_quota: TokenAmount,
    pub new_expiration: ChainEpoch,
    pub approved_by_beneficiary: bool,
    pub approved_by_nominee: bool,
}

/// Parameters of a beneficiary change proposal.
#[derive(Debug)]
pub struct ChangeBeneficiaryParams {
    pub new_beneficiary: Address,
    pub new_quota: TokenAmount,
    pub new_expiration: ChainEpoch,
}

impl ChangeBeneficiaryParams {
    /// The proposal of `beneficiary` with `quota` until `expiration`.
    pub fn new(beneficiary: Address, quota: TokenAmount, expiration: ChainEpoch) -> (res: ChangeBeneficiaryParams)
        ensures
            res.new_beneficiary == beneficiary,
            res.new_quota == quota,
            res.new_expiration == expiration,
    {
        ChangeBeneficiaryParams { new_beneficiary: beneficiary, new_quota: quota, new_expiration: expiration }
    }
}

/// Static information about a miner.
#[derive(Debug)]
pub struct MinerInfo {
    /// Account that owns the miner; receives income and returned collateral.
    pub owner: Address,
    /// Account that signs blocks and day-to-day messages for the miner.
    pub worker: Address,
    /// Further addresses allowed to control the miner; all ID addresses.
    pub control_addresses: Vec<Address>,
    /// A worker key change waiting for its epoch.
    pub pending_worker_key: Option<WorkerKeyChange>,
    /// Libp2p identity of the miner.
    pub peer_id: Vec<u8>,
    /// Libp2p multiaddresses of the miner.
    pub multi_address: Vec<Vec<u8>>,
    /// Code of the Window PoSt proof type.
    pub window_post_proof_type: i64,
    /// Size of each sector, in bytes.
    pub sector_size: u64,
    /// Number of sectors in each Window PoSt partition.
    pub window_post_partition_sectors: u64,
    /// Next epoch at which the miner is eligible again after a consensus fault.
    pub consensus_fault_elapsed: ChainEpoch,
    /// A proposed new owner, waiting for its confirmation.
    pub pending_owner_address: Option<Address>,
    /// Account that receives the miner's withdrawals.
    pub beneficiary: Address,
    /// The beneficiary's quota and expiration.
    pub beneficiary_term: BeneficiaryTerm,
    /// A proposed beneficiary change.
    pub pending_beneficiary_term: Option<PendingBeneficiaryChange>,
}

impl MinerInfo {
    /// The information of a new miner: owner, worker and control addresses as ID addresses,
    /// the owner as beneficiary with an empty term, and the sector size and partition size
    /// of the Window PoSt proof type. An unknown proof type is an illegal argument.
    pub fn new(owner: u64, worker: u64, control_addresses: Vec<u64>, peer_id: Vec<u8>, multi_address: Vec<Vec<u8>>, window_post_proof_type: i64) -> (res: Result<MinerInfo, ActorError>)
        ensures
            res is Err <==> !post_proof_known(window_post_proof_type),
            res is Err ==> res->Err_0.exit_code == USR_ILLEGAL_ARGUMENT,
            res is Ok ==> {
                let info = res->Ok_0;
                &&& info.owner@ == id_address(owner)
                &&& info.worker@ == id_address(worker)
                &&& info.control_addresses@.len() == control_addresses@.len()
                &&& forall|i: int| 0 <= i < control_addresses@.len() ==>
                    (#[trigger] info.control_addresses@[i])@ == id_address(control_addresses@[i])
                &&& info.pending_worker_key is None
                &&& info.peer_id == peer_id
                &&& info.multi_address == multi_address
                &&& info.window_post_proof_type == window_post_proof_type
                &&& Some(info.sector_size) == post_sector_size_spec(window_post_proof_type)
                &&& Some(info.window_post_partition_sectors) == post_partition_sectors_spec(window_post_proof_type)
                &&& info.consensus_fault_elapsed == EPOCH_UNDEFINED
                &&& info.pending_owner_address is None
                &&& info.beneficiary@ == id_address(owner)
                &&& info.beneficiary_term == BeneficiaryTerm { quota: 0, used_quota: 0, expiration: 0 }
                &&& info.pending_beneficiary_term is None
            },
    {
        let sector_size = match post_sector_size(window_post_proof_type) {
            None => {
                return Err(ActorError::illegal_argument());
            },
            Some(size) => size,
        };
        let window_post_partition_sectors = match post_partition_sectors(window_post_proof_type) {
            None => {
                return Err(ActorError::illegal_argument());
            },
            Some(n) => n,
        };
        let mut controls: Vec<Address> = Vec::new();
        let mut i: usize = 0;
        while i < control_addresses.len()
            invariant
                i <= control_addresses@.len(),
                controls@.len() == i,
                forall|j: int| 0 <= j < i ==> (#[trigger] controls@[j])@ == id_address(control_addresses@[j]),
            decreases control_addresses@.len() - i,
        {
            controls.push(Address::new_id(control_addresses[i]));
            i = i + 1;
        }
        Ok(MinerInfo {
            owner: Address::new_id(owner),
            worker: Address::new_id(worker),
            control_addresses: controls,
            pending_worker_key: None,
            beneficiary: Address::new_id(owner),
            beneficiary_term: BeneficiaryTerm { quota: 0, used_quota: 0, expiration: 0 },
            pending_beneficiary_term: None,
            peer_id,
            multi_address,
            window_post_proof_type,
            sector_size,
            window_post_partition_sectors,
            consensus_fault_elapsed: EPOCH_UNDEFINED,
            pending_owner_address: None,
        })
    }
}

/// Whether a consensus fault still restricts the miner at `curr_epoch`: until the epoch
/// passes the recorded end of the fault's effect.
pub fn consensus_fault_active(info: &MinerInfo, curr_epoch: ChainEpoch) -> (res: bool)
    ensures
        res == (curr_epoch <= info.consensus_fault_elapsed),
{
    curr_epoch <= info.consensus_fault_elapsed
}


/// Applies a pending worker key change that has taken effect by `curr_epoch`: the new
/// worker replaces the old and the change is cleared. Returns whether the information
/// changed, and so must be stored again.
pub fn process_pending_worker(info: &mut MinerInfo, curr_epoch: ChainEpoch) -> (res: bool)
    ensures
        res == (old(info).pending_worker_key matches Some(k) && curr_epoch >= k.effective_at),
        res ==> final(info).worker@ == old(info).pending_worker_key->0.new_worker@
            && final(info).pending_worker_key is None,
        !res ==> final(info).worker@ == old(info).worker@
            && final(info).pending_worker_key == old(info).pending_worker_key,
        final(info).owner == old(info).owner,
        final(info).control_addresses == old(info).control_addresses,
        final(info).peer_id == old(info).peer_id,
        final(info).multi_address == old(info).multi_address,
        final(info).window_post_proof_type == old(info).window_post_proof_type,
        final(info).sector_size == old(info).sector_size,
        final(info).window_post_partition_sectors == old(info).window_post_partition_sectors,
        final(info).consensus_fault_elapsed == old(info).consensus_fault_elapsed,
        final(info).beneficiary == old(info).beneficiary,
        final(info).beneficiary_term == old(info).beneficiary_term,
        final(info).pending_owner_address == old(info).pending_owner_address,
        final(info).pending_beneficiary_term == old(info).pending_beneficiary_term,
{
    let due = match &info.pending_worker_key {
        Some(k) => curr_epoch >= k.effective_at,
        None => false,
    };
    if !due {
        return false;
    }
    let change = info.pending_worker_key.take();
    match change {
        Some(k) => {
            info.worker = k.new_worker;
            true
        },
        None => false,
    }
}

} // verus!
