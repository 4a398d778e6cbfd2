//! Batch validation of the miner actor's sector commitments: interactive pre-commits,
//! non-interactive sector activations and replica updates. Each item is judged on the
//! facts about it that the actor gathers; the verdicts form a `BatchReturn`, and a
//! condition that aborts the whole message gives an error.

use vstd::prelude::*;
use std::collections::BTreeSet;
use crate::batch::{records, BatchReturn};
use crate::miner_sectors::{copy_bytes, SectorOnChainInfo};
use crate::bitfield::{bits_of, bitfield_get, bitfield_new, bitfield_set};
use crate::error::{ActorError, USR_FORBIDDEN, USR_ILLEGAL_ARGUMENT, USR_ILLEGAL_STATE};
use crate::miner_checks::{expiration_valid, validate_expiration};
use crate::policy::{ChainEpoch, Policy};
use crate::proofs::{seal_update_proof, seal_update_proof_spec};

verus! {

broadcast use vstd::laws_cmp::group_laws_cmp;

/// The largest sector number, `2^63 - 1`.
pub const MAX_SECTOR_NUMBER: u64 = 9_223_372_036_854_775_807;

/// Largest replica-update proof accepted, in bytes.
pub const MAX_REPLICA_PROOF_SIZE: usize = 4096;

// ---------------------------------------------------------------------------------------
// Interactive pre-commits.

/// What proving a sector's seal needs: the inputs of its seal verification, which an
/// aggregate proof needs for every sector it covers.
#[derive(Clone, Debug)]
pub struct SectorSealProofInput {
    /// Code of the seal proof type.
    pub registered_proof: i64,
    pub sector_number: u64,
    /// The seal randomness.
    pub randomness: Vec<u8>,
    /// The interactive seal challenge randomness.
    pub interactive_randomness: Vec<u8>,
    /// CID of the sealed replica (CommR), as bytes.
    pub sealed_cid: Vec<u8>,
    /// CID of the unsealed data (CommD), as bytes.
    pub unsealed_cid: Vec<u8>,
}

/// A proof input as plain values, field by field.
pub open spec fn proof_input_view(p: SectorSealProofInput) -> (i64, u64, Seq<u8>, Seq<u8>, Seq<u8>, Seq<u8>) {
    (p.registered_proof, p.sector_number, p.randomness@, p.interactive_randomness@, p.sealed_cid@, p.unsealed_cid@)
}

/// What the pre-commit check reads of one pre-committed sector.
#[derive(Clone, Debug)]
pub struct PrecommitFacts {
    pub sector_number: u64,
    /// Whether the pre-commit names deals.
    pub has_deal_ids: bool,
    /// Epoch of the pre-commit.
    pub pre_commit_epoch: ChainEpoch,
    /// Code of the seal proof type.
    pub seal_proof: i64,
    /// The policy's longest delay between pre-commit and prove-commit for the seal proof,
    /// `None` when the policy has none for it.
    pub max_prove_commit_duration: Option<i64>,
    /// The sealed CID the pre-commit declares, as bytes.
    pub sealed_cid: Vec<u8>,
    /// The unsealed CID of the pre-commit's data for its seal proof, as bytes.
    pub unsealed_cid: Vec<u8>,
    /// The seal randomness drawn at the pre-commit's seal randomness epoch.
    pub randomness: Vec<u8>,
    /// The interactive randomness drawn at the pre-commit epoch plus the challenge delay.
    pub interactive_randomness: Vec<u8>,
}

/// The proof input a pre-commit gives.
pub open spec fn precommit_input(p: PrecommitFacts) -> (i64, u64, Seq<u8>, Seq<u8>, Seq<u8>, Seq<u8>) {
    (p.seal_proof, p.sector_number, p.randomness@, p.interactive_randomness@, p.sealed_cid@, p.unsealed_cid@)
}

fn precommit_proof_input(p: &PrecommitFacts) -> (res: SectorSealProofInput)
    ensures
        proof_input_view(res) == precommit_input(*p),
{
    SectorSealProofInput {
        registered_proof: p.seal_proof,
        sector_number: p.sector_number,
        randomness: copy_bytes(&p.randomness),
        interactive_randomness: copy_bytes(&p.interactive_randomness),
        sealed_cid: copy_bytes(&p.sealed_cid),
        unsealed_cid: copy_bytes(&p.unsealed_cid),
    }
}

/// Whether a pre-commit is rejected on its own: it names deals where they are not allowed,
/// or the prove-commit comes after its due epoch.
pub open spec fn precommit_fails(p: PrecommitFacts, curr_epoch: int, allow_deal_ids: bool) -> bool {
    ||| (!allow_deal_ids && p.has_deal_ids)
    ||| curr_epoch > p.pre_commit_epoch + p.max_prove_commit_duration->0
}

/// The exit code with which pre-commit `i` aborts the whole batch, if it does: no maximum
/// prove-commit duration for its proof, a seal proof that differs from the one before it,
/// a proof before the interactive challenge epoch, or (when all must succeed) a rejection.
pub open spec fn precommit_fatal(ps: Seq<PrecommitFacts>, i: int, curr_epoch: int, challenge_delay: int, allow_deal_ids: bool, all_or_nothing: bool) -> Option<u32> {
    let p = ps[i];
    if p.max_prove_commit_duration is None {
        Some(USR_ILLEGAL_STATE)
    } else if i >= 1 && ps[i - 1].seal_proof != p.seal_proof {
        Some(USR_ILLEGAL_STATE)
    } else if curr_epoch <= p.pre_commit_epoch + challenge_delay {
        Some(USR_FORBIDDEN)
    } else if all_or_nothing && precommit_fails(p, curr_epoch, allow_deal_ids) {
        Some(USR_ILLEGAL_ARGUMENT)
    } else {
        None
    }
}

/// The verdicts on a list of pre-commits: illegal argument where one is rejected,
/// success elsewhere.
pub open spec fn precommit_codes(ps: Seq<PrecommitFacts>, curr_epoch: int, allow_deal_ids: bool) -> Seq<u32> {
    Seq::new(ps.len(), |i: int| if precommit_fails(ps[i], curr_epoch, allow_deal_ids) { USR_ILLEGAL_ARGUMENT } else { 0u32 })
}

/// Validates pre-committed sectors that are to be proven at `curr_epoch`. Rejected
/// pre-commits are recorded in the batch outcome; the first pre-commit that aborts the
/// batch (see `precommit_fatal`) gives the error. Returns, with the outcome, the seal proof
/// input of every pre-commit, rejected ones included: an aggregate proof needs them all as
/// witnesses.
pub fn validate_precommits(policy: &Policy, curr_epoch: ChainEpoch, precommits: &[PrecommitFacts], allow_deal_ids: bool, all_or_nothing: bool) -> (res: Result<(BatchReturn, Vec<SectorSealProofInput>), ActorError>)
    requires
        precommits@.len() <= u32::MAX,
    ensures
        match res {
            Ok((batch, inputs)) => {
                &&& forall|i: int| 0 <= i < precommits@.len() ==>
                    (#[trigger] precommit_fatal(precommits@, i, curr_epoch as int, policy.pre_commit_challenge_delay as int, allow_deal_ids, all_or_nothing)) is None
                &&& records(batch, precommit_codes(precommits@, curr_epoch as int, allow_deal_ids))
                &&& inputs@.len() == precommits@.len()
                &&& forall|i: int| 0 <= i < precommits@.len() ==>
                    proof_input_view(#[trigger] inputs@[i]) == precommit_input(precommits@[i])
            },
            Err(e) => exists|i: int| {
                &&& 0 <= i < precommits@.len()
                &&& precommit_fatal(precommits@, i, curr_epoch as int, policy.pre_commit_challenge_delay as int, allow_deal_ids, all_or_nothing) == Some(e.exit_code)
                &&& forall|j: int| 0 <= j < i ==>
                    (#[trigger] precommit_fatal(precommits@, j, curr_epoch as int, policy.pre_commit_challenge_delay as int, allow_deal_ids, all_or_nothing)) is None
            },
        },
{
    let ghost ps = precommits@;
    let ghost delay = policy.pre_commit_challenge_delay as int;
    if precommits.len() == 0 {
        let res = BatchReturn::empty();
        assert(Seq::<u32>::empty() =~= precommit_codes(ps, curr_epoch as int, allow_deal_ids));
        return Ok((res, Vec::new()));
    }
    let mut codes: Vec<u32> = Vec::new();
    let mut inputs: Vec<SectorSealProofInput> = Vec::new();
    let mut i: usize = 0;
    while i < precommits.len()
        invariant
            i <= ps.len(),
            ps == precommits@,
            delay == policy.pre_commit_challenge_delay,
            forall|j: int| 0 <= j < i ==>
                (#[trigger] precommit_fatal(ps, j, curr_epoch as int, delay, allow_deal_ids, all_or_nothing)) is None,
            codes@ == precommit_codes(ps, curr_epoch as int, allow_deal_ids).subrange(0, i as int),
            inputs@.len() == i,
            forall|j: int| 0 <= j < i ==> proof_input_view(#[trigger] inputs@[j]) == precommit_input(ps[j]),
        decreases ps.len() - i,
    {
        let p = &precommits[i];
        let mut fail_validation = false;
        if !(allow_deal_ids || !p.has_deal_ids) {
            fail_validation = true;
        }
        let msd = match p.max_prove_commit_duration {
            None => {
                assert(precommit_fatal(ps, i as int, curr_epoch as int, delay, allow_deal_ids, all_or_nothing) == Some(USR_ILLEGAL_STATE));
                return Err(ActorError::illegal_state());
            },
            Some(d) => d,
        };
        let prove_commit_due: i128 = p.pre_commit_epoch as i128 + msd as i128;
        if curr_epoch as i128 > prove_commit_due {
            fail_validation = true;
        }
        if i >= 1 {
            let prev_seal_proof = precommits[i - 1].seal_proof;
            if prev_seal_proof != p.seal_proof {
                assert(precommit_fatal(ps, i as int, curr_epoch as int, delay, allow_deal_ids, all_or_nothing) == Some(USR_ILLEGAL_STATE));
                return Err(ActorError::illegal_state());
            }
        }
        let interactive_epoch: i128 = p.pre_commit_epoch as i128 + policy.pre_commit_challenge_delay as i128;
        if curr_epoch as i128 <= interactive_epoch {
            assert(precommit_fatal(ps, i as int, curr_epoch as int, delay, allow_deal_ids, all_or_nothing) == Some(USR_FORBIDDEN));
            return Err(ActorError::forbidden());
        }
        inputs.push(precommit_proof_input(p));
        assert(fail_validation == precommit_fails(ps[i as int], curr_epoch as int, allow_deal_ids));
        if fail_validation {
            if all_or_nothing {
                assert(precommit_fatal(ps, i as int, curr_epoch as int, delay, allow_deal_ids, all_or_nothing) == Some(USR_ILLEGAL_ARGUMENT));
                return Err(ActorError::illegal_argument());
            }
            codes.push(USR_ILLEGAL_ARGUMENT);
        } else {
            codes.push(0);
        }
        assert(precommit_fatal(ps, i as int, curr_epoch as int, delay, allow_deal_ids, all_or_nothing) is None);
        assert(codes@ =~= precommit_codes(ps, curr_epoch as int, allow_deal_ids).subrange(0, i + 1));
        i = i + 1;
    }
    assert(codes@ =~= precommit_codes(ps, curr_epoch as int, allow_deal_ids));
    let batch = BatchReturn::of(codes.as_slice());
    Ok((batch, inputs))
}

// ---------------------------------------------------------------------------------------
// Non-interactive sector activations.

/// What the non-interactive activation check reads of one sector.
#[derive(Clone, Debug)]
pub struct NiSectorFacts {
    pub sector_number: u64,
    pub sealing_number: u64,
    /// The actor that sealed the sector.
    pub sealer_id: u64,
    pub expiration: ChainEpoch,
    /// The epoch of the seal randomness.
    pub seal_rand_epoch: ChainEpoch,
    /// Whether the sealed CID carries the sealed-sector prefix.
    pub sealed_cid_ok: bool,
    /// The sealed CID, as bytes.
    pub sealed_cid: Vec<u8>,
    /// The seal randomness drawn at `seal_rand_epoch`.
    pub randomness: Vec<u8>,
}

/// The interactive randomness of a non-interactive proof: thirty-two bytes of one.
pub open spec fn ni_interactive_randomness() -> Seq<u8> {
    Seq::new(32, |i: int| 1u8)
}

/// The proof input of a non-interactive sector sealed with `seal_proof_type`, whose data
/// has the unsealed CID `unsealed_cid`.
pub open spec fn ni_input(x: NiSectorFacts, seal_proof_type: i64, unsealed_cid: Seq<u8>) -> (i64, u64, Seq<u8>, Seq<u8>, Seq<u8>, Seq<u8>) {
    (seal_proof_type, x.sealing_number, x.randomness@, ni_interactive_randomness(), x.sealed_cid@, unsealed_cid)
}

fn ni_proof_input(x: &NiSectorFacts, seal_proof_type: i64, unsealed_cid: &[u8]) -> (res: SectorSealProofInput)
    ensures
        proof_input_view(res) == ni_input(*x, seal_proof_type, unsealed_cid@),
{
    let mut ones: Vec<u8> = Vec::new();
    let mut k: usize = 0;
    while k < 32
        invariant
            k <= 32,
            ones@ == Seq::new(k as nat, |i: int| 1u8),
        decreases 32 - k,
    {
        ones.push(1);
        k = k + 1;
        assert(ones@ =~= Seq::new(k as nat, |i: int| 1u8));
    }
    let mut unsealed: Vec<u8> = Vec::new();
    unsealed.extend_from_slice(unsealed_cid);
    assert(unsealed@ =~= unsealed_cid@);
    SectorSealProofInput {
        registered_proof: seal_proof_type,
        sector_number: x.sealing_number,
        randomness: copy_bytes(&x.randomness),
        interactive_randomness: ones,
        sealed_cid: copy_bytes(&x.sealed_cid),
        unsealed_cid: unsealed,
    }
}

/// Whether sector `i` repeats the number of an earlier sector in the list.
pub open spec fn ni_duplicate(s: Seq<NiSectorFacts>, i: int) -> bool {
    exists|j: int| 0 <= j < i && s[j].sector_number == s[i].sector_number
}

/// Whether non-interactive sector `i` is rejected: a repeated or out-of-range number, an
/// invalid expiration (activating now), another sealer, a sealing number that differs from
/// the sector number, a sealed CID of the wrong kind, or a seal randomness epoch that is
/// not in the past or lies beyond the lookback.
pub open spec fn ni_sector_fails(s: Seq<NiSectorFacts>, i: int, policy: Policy, curr_epoch: int, miner_id: u64, max_lifetime: Option<i64>) -> bool {
    let x = s[i];
    ||| ni_duplicate(s, i)
    ||| x.sector_number > MAX_SECTOR_NUMBER
    ||| !expiration_valid(policy, curr_epoch, curr_epoch, x.expiration as int, max_lifetime)
    ||| x.sealer_id != miner_id
    ||| x.sector_number != x.sealing_number
    ||| !x.sealed_cid_ok
    ||| x.seal_rand_epoch >= curr_epoch
    ||| x.seal_rand_epoch < curr_epoch - policy.max_prove_commit_ni_randomness_lookback
}

/// The verdicts on a list of non-interactive sectors.
pub open spec fn ni_codes(s: Seq<NiSectorFacts>, policy: Policy, curr_epoch: int, miner_id: u64, max_lifetime: Option<i64>) -> Seq<u32> {
    Seq::new(s.len(), |i: int| if ni_sector_fails(s, i, policy, curr_epoch, miner_id, max_lifetime) { USR_ILLEGAL_ARGUMENT } else { 0u32 })
}

/// The sector numbers of the first `n` sectors of a list.
pub open spec fn ni_numbers_before(s: Seq<NiSectorFacts>, n: int) -> Set<u64> {
    Set::new(|k: u64| exists|j: int| 0 <= j < n && s[j].sector_number == k)
}

/// Validates sectors to activate without interaction at `curr_epoch` for miner
/// `miner_id`, sealed with `seal_proof_type`, which allows `max_lifetime`, and whose empty
/// data has the unsealed CID `unsealed_cid`. Rejected sectors are recorded in the batch
/// outcome; when all must succeed, any rejection is an illegal argument. Returns, with the
/// outcome, the seal proof input of every sector, rejected ones included. (A sector number
/// of `u64::MAX` cannot be held in the bitfield of seen numbers: it is left out.)
pub fn validate_ni_sectors(policy: &Policy, curr_epoch: ChainEpoch, miner_id: u64, sectors: &[NiSectorFacts], seal_proof_type: i64, unsealed_cid: &[u8], max_lifetime: Option<i64>, all_or_nothing: bool) -> (res: Result<(BatchReturn, Vec<SectorSealProofInput>), ActorError>)
    requires
        sectors@.len() <= u32::MAX,
        forall|i: int| 0 <= i < sectors@.len() ==> (#[trigger] sectors@[i]).sector_number != u64::MAX,
    ensures
        match res {
            Ok((batch, inputs)) => {
                &&& all_or_nothing ==> forall|i: int| 0 <= i < sectors@.len() ==>
                    !#[trigger] ni_sector_fails(sectors@, i, *policy, curr_epoch as int, miner_id, max_lifetime)
                &&& records(batch, ni_codes(sectors@, *policy, curr_epoch as int, miner_id, max_lifetime))
                &&& inputs@.len() == sectors@.len()
                &&& forall|i: int| 0 <= i < sectors@.len() ==>
                    proof_input_view(#[trigger] inputs@[i]) == ni_input(sectors@[i], seal_proof_type, unsealed_cid@)
            },
            Err(e) => {
                &&& all_or_nothing
                &&& e.exit_code == USR_ILLEGAL_ARGUMENT
                &&& exists|i: int| 0 <= i < sectors@.len() && #[trigger] ni_sector_fails(sectors@, i, *policy, curr_epoch as int, miner_id, max_lifetime)
            },
        },
{
    let ghost s = sectors@;
    let ghost pol = *policy;
    if sectors.len() == 0 {
        let res = BatchReturn::empty();
        assert(Seq::<u32>::empty() =~= ni_codes(s, pol, curr_epoch as int, miner_id, max_lifetime));
        return Ok((res, Vec::new()));
    }
    let challenge_earliest: i128 = curr_epoch as i128 - policy.max_prove_commit_ni_randomness_lookback as i128;
    let mut codes: Vec<u32> = Vec::new();
    let mut inputs: Vec<SectorSealProofInput> = Vec::new();
    let mut sector_numbers = bitfield_new();
    assert(bits_of(sector_numbers) =~= ni_numbers_before(s, 0));
    let mut i: usize = 0;
    while i < sectors.len()
        invariant
            i <= s.len(),
            s == sectors@,
            pol == *policy,
            challenge_earliest == curr_epoch - policy.max_prove_commit_ni_randomness_lookback,
            forall|k: int| 0 <= k < s.len() ==> (#[trigger] s[k]).sector_number != u64::MAX,
            bits_of(sector_numbers) == ni_numbers_before(s, i as int),
            all_or_nothing ==> forall|j: int| 0 <= j < i ==>
                !#[trigger] ni_sector_fails(s, j, pol, curr_epoch as int, miner_id, max_lifetime),
            codes@ == ni_codes(s, pol, curr_epoch as int, miner_id, max_lifetime).subrange(0, i as int),
            inputs@.len() == i,
            forall|j: int| 0 <= j < i ==> proof_input_view(#[trigger] inputs@[j]) == ni_input(s[j], seal_proof_type, unsealed_cid@),
        decreases s.len() - i,
    {
        let x = &sectors[i];
        let mut fail_validation = false;
        let set = bitfield_get(&sector_numbers, x.sector_number);
        if set {
            fail_validation = true;
        }
        assert(set == ni_duplicate(s, i as int));
        if x.sector_number > MAX_SECTOR_NUMBER {
            fail_validation = true;
        }
        bitfield_set(&mut sector_numbers, x.sector_number);
        assert(bits_of(sector_numbers) =~= ni_numbers_before(s, i + 1)) by {
            assert forall|k: u64| ni_numbers_before(s, i + 1).contains(k) implies ni_numbers_before(s, i as int).insert(x.sector_number).contains(k) by {
                let j = choose|j: int| 0 <= j < i + 1 && s[j].sector_number == k;
                if j < i {
                    assert(ni_numbers_before(s, i as int).contains(k));
                }
            }
            assert forall|k: u64| ni_numbers_before(s, i as int).insert(x.sector_number).contains(k) implies ni_numbers_before(s, i + 1).contains(k) by {
                if k == x.sector_number {
                    assert(s[i as int].sector_number == k);
                } else {
                    let j = choose|j: int| 0 <= j < i && s[j].sector_number == k;
                    assert(0 <= j < i + 1 && s[j].sector_number == k);
                }
            }
        }
        let expiration = validate_expiration(policy, curr_epoch, curr_epoch, x.expiration, max_lifetime);
        if expiration.is_err() {
            fail_validation = true;
        }
        if x.sealer_id != miner_id {
            fail_validation = true;
        }
        if x.sector_number != x.sealing_number {
            fail_validation = true;
        }
        if !x.sealed_cid_ok {
            fail_validation = true;
        }
        if x.seal_rand_epoch >= curr_epoch {
            fail_validation = true;
        }
        if (x.seal_rand_epoch as i128) < challenge_earliest {
            fail_validation = true;
        }
        inputs.push(ni_proof_input(x, seal_proof_type, unsealed_cid));
        assert(fail_validation == ni_sector_fails(s, i as int, pol, curr_epoch as int, miner_id, max_lifetime));
        if fail_validation {
            if all_or_nothing {
                return Err(ActorError::illegal_argument());
            }
            codes.push(USR_ILLEGAL_ARGUMENT);
        } else {
            codes.push(0);
        }
        assert(codes@ =~= ni_codes(s, pol, curr_epoch as int, miner_id, max_lifetime).subrange(0, i + 1));
        i = i + 1;
    }
    assert(codes@ =~= ni_codes(s, pol, curr_epoch as int, miner_id, max_lifetime));
    let batch = BatchReturn::of(codes.as_slice());
    Ok((batch, inputs))
}

// ---------------------------------------------------------------------------------------
// Replica updates.

/// What the replica-update check reads of one update and the sector it updates.
#[derive(Clone, Copy, Debug)]
pub struct ReplicaUpdateFacts {
    pub sector_number: u64,
    pub deadline: u64,
    /// Number of deals the update names.
    pub deals_len: usize,
    /// Size of the replica proof, in bytes.
    pub replica_proof_len: usize,
    /// Code of the update proof type the update declares.
    pub update_proof_type: i64,
    /// Whether the new sealed CID carries the sealed-sector prefix.
    pub new_sealed_cid_ok: bool,
    /// Whether the update's deadline may be changed at the current epoch.
    pub deadline_mutable: bool,
    /// Whether the sector is active in its deadline and partition, or the error met
    /// looking it up.
    pub sector_active: Result<bool, ActorError>,
}

/// An update with the on-chain record of the sector it updates.
#[derive(Debug)]
pub struct UpdateAndSectorInfo<'a> {
    pub update: &'a ReplicaUpdateFacts,
    pub sector_info: &'a SectorOnChainInfo,
}

/// Whether update `i` names the same sector as an earlier update.
pub open spec fn replica_duplicate(u: Seq<ReplicaUpdateFacts>, i: int) -> bool {
    exists|j: int| 0 <= j < i && u[j].sector_number == u[i].sector_number
}

/// The exit code of the first check that update `i` fails, in the order the checks run.
pub open spec fn replica_update_error(u: Seq<ReplicaUpdateFacts>, si: Seq<SectorOnChainInfo>, i: int, policy: Policy, sector_deals_max: u64, require_deals: bool) -> Option<u32> {
    let x = u[i];
    let sector = si[i];
    if replica_duplicate(u, i) {
        Some(USR_ILLEGAL_ARGUMENT)
    } else if x.replica_proof_len > MAX_REPLICA_PROOF_SIZE {
        Some(USR_ILLEGAL_ARGUMENT)
    } else if require_deals && x.deals_len == 0 {
        Some(USR_ILLEGAL_ARGUMENT)
    } else if x.deals_len > sector_deals_max {
        Some(USR_ILLEGAL_ARGUMENT)
    } else if x.deadline >= policy.wpost_period_deadlines {
        Some(USR_ILLEGAL_ARGUMENT)
    } else if !x.new_sealed_cid_ok {
        Some(USR_ILLEGAL_ARGUMENT)
    } else if !x.deadline_mutable {
        Some(USR_ILLEGAL_ARGUMENT)
    } else if x.sector_active is Err {
        Some(x.sector_active->Err_0.exit_code)
    } else if !x.sector_active->Ok_0 {
        Some(USR_ILLEGAL_ARGUMENT)
    } else if sector.deal_weight + sector.verified_deal_weight != 0 {
        Some(USR_ILLEGAL_ARGUMENT)
    } else if seal_update_proof_spec(sector.seal_proof) is None {
        Some(USR_ILLEGAL_STATE)
    } else if x.update_proof_type != seal_update_proof_spec(sector.seal_proof)->0 {
        Some(USR_ILLEGAL_ARGUMENT)
    } else {
        None
    }
}

/// The verdicts on a list of replica updates: illegal argument for each update that fails
/// a check, whatever the check's own code.
pub open spec fn replica_codes(u: Seq<ReplicaUpdateFacts>, si: Seq<SectorOnChainInfo>, policy: Policy, sector_deals_max: u64, require_deals: bool) -> Seq<u32> {
    Seq::new(u.len(), |i: int| if replica_update_error(u, si, i, policy, sector_deals_max, require_deals) is Some { USR_ILLEGAL_ARGUMENT } else { 0u32 })
}

/// Checks one update against the sectors seen before it, in the order of the checks of
/// `replica_update_error`, and records its sector as seen.
fn validate_one_replica_update(x: &ReplicaUpdateFacts, sector: &SectorOnChainInfo, seen: &mut BTreeSet<u64>, policy: &Policy, sector_deals_max: u64, require_deals: bool, Ghost(u): Ghost<Seq<ReplicaUpdateFacts>>, Ghost(si): Ghost<Seq<SectorOnChainInfo>>, Ghost(i): Ghost<int>) -> (res: Result<(), ActorError>)
    requires
        0 <= i < u.len(),
        i < si.len(),
        u[i] == *x,
        si[i] == *sector,
        old(seen)@ == Set::new(|k: u64| exists|j: int| 0 <= j < i && u[j].sector_number == k),
    ensures
        final(seen)@ == old(seen)@.insert(x.sector_number),
        match replica_update_error(u, si, i, *policy, sector_deals_max, require_deals) {
            None => res is Ok,
            Some(code) => res is Err && res->Err_0.exit_code == code,
        },
{
    let fresh = seen.insert(x.sector_number);
    if !fresh {
        proof {
            assert(old(seen)@.contains(x.sector_number));
            let j = choose|j: int| 0 <= j < i && u[j].sector_number == x.sector_number;
            assert(replica_duplicate(u, i));
        }
        return Err(ActorError::illegal_argument());
    }
    proof {
        if replica_duplicate(u, i) {
            let j = choose|j: int| 0 <= j < i && u[j].sector_number == u[i].sector_number;
            assert(old(seen)@.contains(x.sector_number));
        }
    }
    if x.replica_proof_len > MAX_REPLICA_PROOF_SIZE {
        return Err(ActorError::illegal_argument());
    }
    if require_deals && x.deals_len == 0 {
        return Err(ActorError::illegal_argument());
    }
    if x.deals_len as u64 > sector_deals_max {
        return Err(ActorError::illegal_argument());
    }
    if x.deadline >= policy.wpost_period_deadlines {
        return Err(ActorError::illegal_argument());
    }
    if !x.new_sealed_cid_ok {
        return Err(ActorError::illegal_argument());
    }
    if !x.deadline_mutable {
        return Err(ActorError::illegal_argument());
    }
    match x.sector_active {
        Err(e) => {
            return Err(e);
        },
        Ok(active) => {
            if !active {
                return Err(ActorError::illegal_argument());
            }
        },
    }
    let weights_zero = if sector.verified_deal_weight == i128::MIN {
        false
    } else {
        sector.deal_weight == -sector.verified_deal_weight
    };
    if !weights_zero {
        return Err(ActorError::illegal_argument());
    }
    match seal_update_proof(sector.seal_proof) {
        None => Err(ActorError::illegal_state()),
        Some(expected_proof_type) => {
            if x.update_proof_type != expected_proof_type {
                Err(ActorError::illegal_argument())
            } else {
                Ok(())
            }
        },
    }
}

/// Validates replica updates, each with the record of the sector it updates. More updates
/// than the policy allows in one message is an illegal argument. Otherwise each update is
/// checked (see `replica_update_error`): a failing update is recorded as an illegal
/// argument in the batch outcome or, when all must succeed, aborts with the error of the
/// check it failed. Returns, with the outcome, every update paired with its sector record,
/// failing ones included: an aggregate proof needs them all as witnesses.
pub fn validate_replica_updates<'a>(updates: &'a [ReplicaUpdateFacts], sector_infos: &'a [SectorOnChainInfo], policy: &Policy, sector_deals_max: u64, require_deals: bool, all_or_nothing: bool) -> (res: Result<(BatchReturn, Vec<UpdateAndSectorInfo<'a>>), ActorError>)
    requires
        sector_infos@.len() == updates@.len(),
        updates@.len() <= u32::MAX,
    ensures
        updates@.len() > policy.prove_replica_updates_max_size ==> res is Err && res->Err_0.exit_code == USR_ILLEGAL_ARGUMENT,
        updates@.len() <= policy.prove_replica_updates_max_size ==> match res {
            Ok((batch, pairs)) => {
                &&& all_or_nothing ==> forall|i: int| 0 <= i < updates@.len() ==>
                    (#[trigger] replica_update_error(updates@, sector_infos@, i, *policy, sector_deals_max, require_deals)) is None
                &&& records(batch, replica_codes(updates@, sector_infos@, *policy, sector_deals_max, require_deals))
                &&& pairs@.len() == updates@.len()
                &&& forall|i: int| 0 <= i < updates@.len() ==>
                    *(#[trigger] pairs@[i]).update == updates@[i] && *pairs@[i].sector_info == sector_infos@[i]
            },
            Err(e) => {
                &&& all_or_nothing
                &&& exists|i: int| {
                    &&& 0 <= i < updates@.len()
                    &&& replica_update_error(updates@, sector_infos@, i, *policy, sector_deals_max, require_deals) == Some(e.exit_code)
                    &&& forall|j: int| 0 <= j < i ==>
                        (#[trigger] replica_update_error(updates@, sector_infos@, j, *policy, sector_deals_max, require_deals)) is None
                }
            },
        },
{
    let ghost u = updates@;
    let ghost si = sector_infos@;
    let ghost pol = *policy;
    if updates.len() > policy.prove_replica_updates_max_size {
        return Err(ActorError::illegal_argument());
    }
    let mut seen: BTreeSet<u64> = BTreeSet::new();
    assert(seen@ =~= Set::new(|k: u64| exists|j: int| 0 <= j < 0 && u[j].sector_number == k));
    let mut codes: Vec<u32> = Vec::new();
    let mut pairs: Vec<UpdateAndSectorInfo<'a>> = Vec::new();
    let mut i: usize = 0;
    while i < updates.len()
        invariant
            i <= u.len(),
            u == updates@,
            si == sector_infos@,
            si.len() == u.len(),
            pol == *policy,
            u.len() <= policy.prove_replica_updates_max_size,
            seen@ == Set::new(|k: u64| exists|j: int| 0 <= j < i && u[j].sector_number == k),
            all_or_nothing ==> forall|j: int| 0 <= j < i ==>
                (#[trigger] replica_update_error(u, si, j, pol, sector_deals_max, require_deals)) is None,
            codes@ == replica_codes(u, si, pol, sector_deals_max, require_deals).subrange(0, i as int),
            pairs@.len() == i,
            forall|j: int| 0 <= j < i ==> *(#[trigger] pairs@[j]).update == u[j] && *pairs@[j].sector_info == si[j],
        decreases u.len() - i,
    {
        let x = &updates[i];
        let sector = &sector_infos[i];
        pairs.push(UpdateAndSectorInfo { update: x, sector_info: sector });
        let outcome = validate_one_replica_update(x, sector, &mut seen, policy, sector_deals_max, require_deals, Ghost(u), Ghost(si), Ghost(i as int));
        assert(seen@ =~= Set::new(|k: u64| exists|j: int| 0 <= j < i + 1 && u[j].sector_number == k)) by {
            assert forall|k: u64| #[trigger] seen@.contains(k) implies exists|j: int| 0 <= j < i + 1 && u[j].sector_number == k by {
                if k != x.sector_number {
                    let j = choose|j: int| 0 <= j < i && u[j].sector_number == k;
                    assert(0 <= j < i + 1 && u[j].sector_number == k);
                } else {
                    assert(u[i as int].sector_number == k);
                }
            }
        }
        match outcome {
            Ok(()) => {
                codes.push(0);
            },
            Err(e) => {
                if all_or_nothing {
                    return Err(e);
                }
                codes.push(USR_ILLEGAL_ARGUMENT);
            },
        }
        assert(codes@ =~= replica_codes(u, si, pol, sector_deals_max, require_deals).subrange(0, i + 1));
        i = i + 1;
    }
    assert(codes@ =~= replica_codes(u, si, pol, sector_deals_max, require_deals));
    let batch = BatchReturn::of(codes.as_slice());
    Ok((batch, pairs))
}

/// When every pre-commit must succeed and none aborts the batch, every verdict is a success.
pub proof fn lemma_precommits_all_or_nothing(ps: Seq<PrecommitFacts>, curr_epoch: int, challenge_delay: int, allow_deal_ids: bool)
    requires
        forall|i: int| 0 <= i < ps.len() ==> (#[trigger] precommit_fatal(ps, i, curr_epoch, challenge_delay, allow_deal_ids, true)) is None,
    ensures
        forall|i: int| 0 <= i < ps.len() ==> #[trigger] precommit_codes(ps, curr_epoch, allow_deal_ids)[i] == 0,
{
    assert forall|i: int| 0 <= i < ps.len() implies #[trigger] precommit_codes(ps, curr_epoch, allow_deal_ids)[i] == 0 by {
        assert(precommit_fatal(ps, i, curr_epoch, challenge_delay, allow_deal_ids, true) is None);
    }
}

/// A sector whose number an earlier sector already used is always rejected.
pub proof fn lemma_ni_duplicates_rejected(s: Seq<NiSectorFacts>, i: int, j: int, policy: Policy, curr_epoch: int, miner_id: u64, max_lifetime: Option<i64>)
    requires
        0 <= j < i < s.len(),
        s[j].sector_number == s[i].sector_number,
    ensures
        ni_sector_fails(s, i, policy, curr_epoch, miner_id, max_lifetime),
        ni_codes(s, policy, curr_epoch, miner_id, max_lifetime)[i] == USR_ILLEGAL_ARGUMENT,
{
    assert(ni_duplicate(s, i));
}

/// An update naming a sector that an earlier update already named always fails, and its
/// verdict is an illegal argument.
pub proof fn lemma_replica_duplicates_rejected(u: Seq<ReplicaUpdateFacts>, si: Seq<SectorOnChainInfo>, i: int, j: int, policy: Policy, sector_deals_max: u64, require_deals: bool)
    requires
        0 <= j < i < u.len(),
        u[j].sector_number == u[i].sector_number,
    ensures
        replica_update_error(u, si, i, policy, sector_deals_max, require_deals) == Some(USR_ILLEGAL_ARGUMENT),
        replica_codes(u, si, policy, sector_deals_max, require_deals)[i] == USR_ILLEGAL_ARGUMENT,
{
    assert(replica_duplicate(u, i));
}

} // verus!
