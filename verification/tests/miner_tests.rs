use fil_actor_states::address::Address;
use fil_actor_states::batch::{BatchReturn, FailCode};
use fil_actor_states::error::{ActorError, USR_FORBIDDEN, USR_ILLEGAL_ARGUMENT, USR_ILLEGAL_STATE, USR_INSUFFICIENT_FUNDS, USR_NOT_FOUND, USR_SERIALIZATION};
use fil_actor_states::id_map::IdMap;
use fil_actor_states::miner_batch::{validate_ni_sectors, validate_precommits, validate_replica_updates, NiSectorFacts, PrecommitFacts, ReplicaUpdateFacts, MAX_SECTOR_NUMBER};
use fil_actor_states::miner_checks::{check_control_addresses, check_peer_info, check_valid_post_proof_type, validate_expiration, validate_extended_expiration, validate_partition_contains_sectors, validate_seal_aggregate_proof, validate_seal_proofs, SectorExpiry};
use fil_actor_states::miner_extension::{accumulate_sector_claims, validate_legacy_extension_declarations, ExpirationExtension, ExpirationExtension2, SectorClaim, ValidatedExpirationExtension};
use fil_actor_states::miner_flows::{apply_early_termination_funds, pay_aggregate_seal_proof_fee, settle_replica_update_states, PartitionDelta, check_new_sector_durations, finish_deadline_cron, settle_activated_sector_funds, settle_replica_update_pledge, NewSectorFunds, TerminatedSectorFunds, ERR_BALANCE_INVARIANTS_BROKEN};
use fil_actor_states::miner_info::{consensus_fault_active, process_pending_worker, ChangeBeneficiaryParams, MinerInfo, WorkerKeyChange, EPOCH_UNDEFINED};
use fil_actor_states::miner_monies::{base_penalty_for_disputed_window_post, base_reward_for_disputed_window_post, continued_fault_projection_period, initial_pledge_max_per_byte, INITIAL_PLEDGE_PROJECTION_PERIOD, PRE_COMMIT_DEPOSIT_PROJECTION_PERIOD};
use fil_actor_states::miner_policy::{assign_proving_period_offset, current_deadline_index, current_proving_period_start, offset_from_digest, proving_period_offset_preimage};
use fil_actor_states::miner_sectors::{daily_fee_for_sectors, new_replica_sector_infos, extend_non_simple_qap_sector, extend_sector_committment, extend_sector_committment_legacy, extend_simple_qap_sector, update_existing_sector_info, ReplicaUpdateActivatedData, SectorOnChainInfo};
use fil_actor_states::miner_state::{check_vested_funds, CollisionPolicy, State, VestingFund};
use fil_actor_states::policy::Policy;
use fil_actor_states::varint::sector_key;
use fil_actor_states::verifreg_state::Claim;
use fvm_ipld_bitfield::BitField;

fn policy() -> Policy {
    Policy {
        wpost_proving_period: 2880,
        wpost_challenge_window: 60,
        wpost_period_deadlines: 48,
        min_sector_expiration: 518_400,
        max_sector_expiration_extension: 3_680_640,
        max_peer_id_length: 128,
        max_multiaddr_data: 1024,
        max_control_addresses: 10,
        pre_commit_challenge_delay: 150,
        prov_collateral_percent_supply_num: 1,
        prov_collateral_percent_supply_denom: 100,
        max_prove_commit_ni_randomness_lookback: 518_400,
        prove_replica_updates_max_size: 512,
        min_aggregated_sectors: 4,
        max_aggregated_sectors: 819,
        min_aggregated_sectors_ni: 1,
        max_aggregated_sectors_ni: 65,
        max_aggregated_proof_size: 81_960,
        end_of_life_claim_drop_period: 86_400,
    }
}

fn code<T>(r: Result<T, ActorError>) -> u32 {
    match r {
        Ok(_) => 0,
        Err(e) => e.exit_code,
    }
}

fn bits(ns: &[u64]) -> BitField {
    let mut b = BitField::new();
    for n in ns {
        b.set(*n);
    }
    b
}

fn sector(simple: bool) -> SectorOnChainInfo {
    SectorOnChainInfo {
        sector_number: 7,
        seal_proof: 8,
        sealed_cid: vec![1, 2, 3],
        activation: 0,
        expiration: 1000,
        deal_weight: 1000,
        verified_deal_weight: 10_000,
        initial_pledge: 50,
        expected_day_reward: 40,
        expected_storage_pledge: 30,
        power_base_epoch: 0,
        replaced_day_reward: 20,
        sector_key_cid: None,
        simple_qa_power: simple,
        daily_fee: 5,
    }
}

#[test]
fn expiration_checks() {
    let p = policy();
    let max_life = Some(6_311_385);
    assert!(validate_expiration(&p, 1000, 1000, 1000 + 518_400, max_life).is_ok());
    assert_eq!(code(validate_expiration(&p, 1000, 1000, 1000, max_life)), USR_ILLEGAL_ARGUMENT);
    assert_eq!(code(validate_expiration(&p, 1000, 1000, 1000 + 518_399, max_life)), USR_ILLEGAL_ARGUMENT);
    assert_eq!(code(validate_expiration(&p, 1000, 1000, 1000 + 3_680_641, max_life)), USR_ILLEGAL_ARGUMENT);
    assert!(validate_expiration(&p, 1000, 1000, 1000 + 3_680_640, max_life).is_ok());
    assert_eq!(code(validate_expiration(&p, 1000, 1000, 1000 + 600_001, Some(600_000))), USR_ILLEGAL_ARGUMENT);
    assert_eq!(code(validate_expiration(&p, 1000, 1000, 1000 + 600_000, None)), USR_ILLEGAL_ARGUMENT);
    assert_eq!(code(validate_expiration(&p, 0, i64::MIN, i64::MAX, max_life)), USR_ILLEGAL_ARGUMENT);
}

#[test]
fn extended_expiration_checks() {
    let p = policy();
    let s = SectorExpiry { sector_number: 1, seal_proof: 8, activation: 0, expiration: 600_000 };
    assert!(validate_extended_expiration(&p, 1000, 700_000, &s, true, Some(6_311_385)).is_ok());
    assert_eq!(code(validate_extended_expiration(&p, 1000, 700_000, &s, false, Some(6_311_385))), USR_FORBIDDEN);
    assert_eq!(code(validate_extended_expiration(&p, 600_001, 700_000, &s, true, Some(6_311_385))), USR_FORBIDDEN);
    assert_eq!(code(validate_extended_expiration(&p, 1000, 599_999, &s, true, Some(6_311_385))), USR_ILLEGAL_ARGUMENT);
    assert_eq!(code(validate_extended_expiration(&p, 1000, 700_000, &s, true, Some(650_000))), USR_ILLEGAL_ARGUMENT);
}

#[test]
fn control_address_and_peer_checks() {
    let p = policy();
    let ten: Vec<Address> = (0..10).map(Address::new_id).collect();
    assert!(check_control_addresses(&p, &ten).is_ok());
    let eleven: Vec<Address> = (0..11).map(Address::new_id).collect();
    assert_eq!(code(check_control_addresses(&p, &eleven)), USR_ILLEGAL_ARGUMENT);

    assert!(check_peer_info(&p, &[1u8; 128], &[vec![1u8; 1000], vec![2u8; 24]]).is_ok());
    assert_eq!(code(check_peer_info(&p, &[1u8; 129], &[])), USR_ILLEGAL_ARGUMENT);
    assert_eq!(code(check_peer_info(&p, &[1u8; 4], &[vec![1], vec![]])), USR_ILLEGAL_ARGUMENT);
    assert_eq!(code(check_peer_info(&p, &[1u8; 4], &[vec![1u8; 1000], vec![2u8; 25]])), USR_ILLEGAL_ARGUMENT);
    assert!(check_peer_info(&p, &[], &[]).is_ok());
}

#[test]
fn post_proof_type_must_be_allowed() {
    assert!(check_valid_post_proof_type(&[13, 14], 14).is_ok());
    assert_eq!(code(check_valid_post_proof_type(&[13, 14], 3)), USR_ILLEGAL_ARGUMENT);
    assert_eq!(code(check_valid_post_proof_type(&[], 13)), USR_ILLEGAL_ARGUMENT);
}

#[test]
fn partition_must_contain_declared_sectors() {
    assert!(validate_partition_contains_sectors(&bits(&[1, 2, 3]), &bits(&[1, 3])).is_ok());
    assert!(validate_partition_contains_sectors(&bits(&[1, 2, 3]), &bits(&[])).is_ok());
    assert_eq!(code(validate_partition_contains_sectors(&bits(&[1, 2, 3]), &bits(&[4]))), USR_ILLEGAL_ARGUMENT);
}

#[test]
fn aggregate_proof_bounds() {
    let p = policy();
    assert_eq!(code(validate_seal_aggregate_proof(&[0u8; 10], 3, &p, false)), USR_ILLEGAL_ARGUMENT);
    assert!(validate_seal_aggregate_proof(&[0u8; 10], 4, &p, false).is_ok());
    assert!(validate_seal_aggregate_proof(&[0u8; 10], 819, &p, false).is_ok());
    assert_eq!(code(validate_seal_aggregate_proof(&[0u8; 10], 820, &p, false)), USR_ILLEGAL_ARGUMENT);
    assert!(validate_seal_aggregate_proof(&[0u8; 10], 1, &p, true).is_ok());
    assert_eq!(code(validate_seal_aggregate_proof(&[0u8; 10], 66, &p, true)), USR_ILLEGAL_ARGUMENT);
    assert_eq!(code(validate_seal_aggregate_proof(&vec![0u8; 81_961], 10, &p, false)), USR_ILLEGAL_ARGUMENT);
    assert!(validate_seal_aggregate_proof(&vec![0u8; 81_960], 10, &p, false).is_ok());
}

#[test]
fn seal_proof_sizes_follow_the_proof_type() {
    assert!(validate_seal_proofs(8, &[vec![0u8; 1920]]).is_ok());
    assert_eq!(code(validate_seal_proofs(8, &[vec![0u8; 10], vec![0u8; 1921]])), USR_ILLEGAL_ARGUMENT);
    assert!(validate_seal_proofs(0, &[vec![0u8; 192]]).is_ok());
    assert_eq!(code(validate_seal_proofs(0, &[vec![0u8; 193]])), USR_ILLEGAL_ARGUMENT);
    assert!(validate_seal_proofs(15, &[vec![0u8; 14_164]]).is_ok());
    assert!(validate_seal_proofs(19, &[vec![0u8; 23_092]]).is_ok());
    assert_eq!(code(validate_seal_proofs(19, &[vec![0u8; 23_093]])), USR_ILLEGAL_ARGUMENT);
    assert_eq!(code(validate_seal_proofs(20, &[])), USR_ILLEGAL_STATE);
    assert_eq!(code(validate_seal_proofs(-1, &[])), USR_ILLEGAL_STATE);
}

fn per_item(b: &BatchReturn) -> Vec<u32> {
    let mut codes = vec![0u32; b.success_count as usize + b.fail_codes.len()];
    for f in &b.fail_codes {
        codes[f.idx as usize] = f.code;
    }
    codes
}

fn precommit(epoch: i64) -> PrecommitFacts {
    PrecommitFacts {
        sector_number: 1,
        has_deal_ids: false,
        pre_commit_epoch: epoch,
        seal_proof: 8,
        max_prove_commit_duration: Some(86_400),
        sealed_cid: vec![1, 2],
        unsealed_cid: vec![3],
        randomness: vec![4, 4],
        interactive_randomness: vec![5],
    }
}

#[test]
fn precommit_validation() {
    let p = policy();
    let (empty, inputs) = validate_precommits(&p, 10_000, &[], false, false).unwrap();
    assert_eq!((empty.success_count, empty.fail_codes.len(), inputs.len()), (0, 0, 0));
    let (ok, _) = validate_precommits(&p, 10_000, &[precommit(9000)], false, false).unwrap();
    assert!(ok.all_ok());
    assert_eq!(ok.success_count, 1);

    let mut with_deals = precommit(9000);
    with_deals.has_deal_ids = true;
    with_deals.sector_number = 7;
    let late = PrecommitFacts { max_prove_commit_duration: Some(100), sector_number: 9, sealed_cid: vec![9], ..precommit(1000) };
    let (batch, inputs) = validate_precommits(&p, 10_000, &[with_deals.clone(), precommit(9000), late.clone()], false, false).unwrap();
    assert_eq!(per_item(&batch), vec![USR_ILLEGAL_ARGUMENT, 0, USR_ILLEGAL_ARGUMENT]);
    assert_eq!(batch.fail_codes, vec![FailCode { idx: 0, code: USR_ILLEGAL_ARGUMENT }, FailCode { idx: 2, code: USR_ILLEGAL_ARGUMENT }]);
    assert_eq!(batch.success_count, 1);
    assert_eq!(batch.size(), 3);
    assert_eq!(inputs.len(), 3);
    assert_eq!((inputs[0].registered_proof, inputs[0].sector_number), (8, 7));
    assert_eq!((inputs[2].sector_number, inputs[2].sealed_cid.clone()), (9, vec![9]));
    assert_eq!((inputs[1].randomness.clone(), inputs[1].interactive_randomness.clone(), inputs[1].unsealed_cid.clone()), (vec![4, 4], vec![5], vec![3]));
    assert!(validate_precommits(&p, 10_000, &[with_deals.clone()], true, false).unwrap().0.all_ok());
    assert_eq!(code(validate_precommits(&p, 10_000, &[precommit(9000), with_deals.clone()], false, true)), USR_ILLEGAL_ARGUMENT);

    let no_duration = PrecommitFacts { max_prove_commit_duration: None, ..precommit(9000) };
    assert_eq!(code(validate_precommits(&p, 10_000, &[no_duration], false, false)), USR_ILLEGAL_STATE);
    let other_proof = PrecommitFacts { seal_proof: 9, ..precommit(9000) };
    assert_eq!(code(validate_precommits(&p, 10_000, &[precommit(9000), other_proof], false, false)), USR_ILLEGAL_STATE);
    assert_eq!(code(validate_precommits(&p, 10_000, &[precommit(9850)], false, false)), USR_FORBIDDEN);
    assert!(validate_precommits(&p, 10_000, &[precommit(9849)], false, false).is_ok());
}

fn ni(number: u64) -> NiSectorFacts {
    NiSectorFacts {
        sector_number: number,
        sealing_number: number,
        sealer_id: 1000,
        expiration: 1_000_000 + 518_400 + 10,
        seal_rand_epoch: 1_000_000 - 100,
        sealed_cid_ok: true,
        sealed_cid: vec![number as u8],
        randomness: vec![7],
    }
}

#[test]
fn ni_sector_validation() {
    let p = policy();
    let life = Some(6_311_385);
    let commd = [0xaa, 0xbb];
    let (batch, inputs) = validate_ni_sectors(&p, 1_000_000, 1000, &[ni(1), ni(2)], 8, &commd, life, false).unwrap();
    assert!(batch.all_ok());
    assert_eq!(inputs.len(), 2);
    assert_eq!((inputs[1].registered_proof, inputs[1].sector_number, inputs[1].sealed_cid.clone()), (8, 2, vec![2]));
    assert_eq!(inputs[0].interactive_randomness, vec![1u8; 32]);
    assert_eq!((inputs[0].randomness.clone(), inputs[0].unsealed_cid.clone()), (vec![7], vec![0xaa, 0xbb]));
    let (dup, dup_inputs) = validate_ni_sectors(&p, 1_000_000, 1000, &[ni(1), ni(2), ni(1)], 8, &commd, life, false).unwrap();
    assert_eq!(per_item(&dup), vec![0, 0, USR_ILLEGAL_ARGUMENT]);
    assert_eq!(dup_inputs.len(), 3);
    let other_sealer = NiSectorFacts { sealer_id: 1001, ..ni(3) };
    let other_sealing = NiSectorFacts { sealing_number: 4, ..ni(3) };
    let bad_cid = NiSectorFacts { sealed_cid_ok: false, ..ni(5) };
    let rand_now = NiSectorFacts { seal_rand_epoch: 1_000_000, ..ni(6) };
    let rand_old = NiSectorFacts { seal_rand_epoch: 1_000_000 - 518_401, ..ni(7) };
    let rand_oldest = NiSectorFacts { seal_rand_epoch: 1_000_000 - 518_400, ..ni(8) };
    let short = NiSectorFacts { expiration: 1_000_000 + 10, ..ni(9) };
    let too_big = ni(MAX_SECTOR_NUMBER + 1);
    let (batch, inputs) = validate_ni_sectors(&p, 1_000_000, 1000,
        &[other_sealer, other_sealing.clone(), bad_cid.clone(), rand_now, rand_old, rand_oldest, short, too_big], 8, &commd, life, false).unwrap();
    assert_eq!(per_item(&batch), vec![16, 16, 16, 16, 16, 0, 16, 16]);
    assert_eq!(inputs[1].sector_number, 4);
    assert_eq!(code(validate_ni_sectors(&p, 1_000_000, 1000, &[ni(1), bad_cid], 8, &commd, life, true)), USR_ILLEGAL_ARGUMENT);
    assert_eq!(per_item(&validate_ni_sectors(&p, 1_000_000, 1000, &[ni(1)], 8, &commd, None, false).unwrap().0), vec![16]);
}

fn update(number: u64) -> ReplicaUpdateFacts {
    ReplicaUpdateFacts {
        sector_number: number,
        deadline: 3,
        deals_len: 1,
        replica_proof_len: 100,
        update_proof_type: 3,
        new_sealed_cid_ok: true,
        deadline_mutable: true,
        sector_active: Ok(true),
    }
}

fn target(seal_proof: i64, deal_weight: i128, verified_deal_weight: i128) -> SectorOnChainInfo {
    SectorOnChainInfo { seal_proof, deal_weight, verified_deal_weight, ..sector(false) }
}

fn targets(n: usize) -> Vec<SectorOnChainInfo> {
    (0..n).map(|_| target(8, 0, 0)).collect()
}

#[test]
fn replica_update_validation() {
    let p = policy();
    let two = [update(1), update(2)];
    let infos = targets(2);
    let (batch, pairs) = validate_replica_updates(&two, &infos, &p, 256, true, false).unwrap();
    assert!(batch.all_ok());
    assert_eq!(pairs.len(), 2);
    assert_eq!(pairs[1].update.sector_number, 2);
    assert_eq!(pairs[1].sector_info.seal_proof, 8);
    let wrong_type = ReplicaUpdateFacts { update_proof_type: 4, ..update(3) };
    let inactive = ReplicaUpdateFacts { sector_active: Ok(false), ..update(5) };
    let lookup_failed = ReplicaUpdateFacts { sector_active: Err(ActorError { exit_code: USR_NOT_FOUND }), ..update(6) };
    let big_proof = ReplicaUpdateFacts { replica_proof_len: 4097, ..update(9) };
    let no_deals = ReplicaUpdateFacts { deals_len: 0, ..update(10) };
    let bad_deadline = ReplicaUpdateFacts { deadline: 48, ..update(11) };
    let immutable = ReplicaUpdateFacts { deadline_mutable: false, ..update(12) };
    let many = [update(1), update(1), wrong_type, update(4), inactive, lookup_failed, update(7), update(8), big_proof, no_deals, bad_deadline, immutable];
    let mut many_infos = targets(12);
    many_infos[3] = target(99, 0, 0);
    many_infos[6] = target(8, 5, -5);
    many_infos[7] = target(8, 5, 0);
    let (batch, pairs) = validate_replica_updates(&many, &many_infos, &p, 256, true, false).unwrap();
    assert_eq!(per_item(&batch), vec![0, 16, 16, 16, 16, 16, 0, 16, 16, 16, 16, 16]);
    assert_eq!(batch.success_count, 2);
    assert_eq!(pairs.len(), 12);
    assert_eq!(pairs[8].update.replica_proof_len, 4097);
    assert_eq!(pairs[3].sector_info.seal_proof, 99);
    assert!(validate_replica_updates(&[no_deals], &targets(1), &p, 256, false, false).unwrap().0.all_ok());
    assert_eq!(per_item(&validate_replica_updates(&[update(1)], &targets(1), &p, 0, false, false).unwrap().0), vec![16]);
    let unknown_infos = vec![target(8, 0, 0), target(99, 0, 0)];
    assert_eq!(code(validate_replica_updates(&[update(1), update(4)], &unknown_infos, &p, 256, true, true)), USR_ILLEGAL_STATE);
    assert_eq!(code(validate_replica_updates(&[lookup_failed], &targets(1), &p, 256, true, true)), USR_NOT_FOUND);
    assert_eq!(code(validate_replica_updates(&[wrong_type], &targets(1), &p, 256, true, true)), USR_ILLEGAL_ARGUMENT);
    let small = Policy { prove_replica_updates_max_size: 2, ..policy() };
    assert_eq!(code(validate_replica_updates(&[update(1), update(2), update(3)], &targets(3), &small, 256, true, false)), USR_ILLEGAL_ARGUMENT);
}

#[test]
fn batch_return_counts() {
    let b = BatchReturn::of(&[0, 16, 0]);
    assert_eq!(b.success_count, 2);
    assert_eq!(b.fail_codes, vec![FailCode { idx: 1, code: 16 }]);
    assert!(!b.all_ok());
    assert_eq!(b.size(), 3);
    assert!(BatchReturn::ok(3).all_ok());
    assert_eq!(BatchReturn::ok(3).success_count, 3);
    assert_eq!(BatchReturn::empty().size(), 0);
}

#[test]
fn miner_info_from_post_proof_type() {
    let info = MinerInfo::new(100, 101, vec![102, 103], vec![1, 2], vec![vec![3]], 13).unwrap();
    assert_eq!(info.owner.to_bytes(), vec![0, 100]);
    assert_eq!(info.worker.to_bytes(), vec![0, 101]);
    assert_eq!(info.control_addresses.len(), 2);
    assert_eq!(info.control_addresses[1].to_bytes(), vec![0, 103]);
    assert_eq!(info.beneficiary.to_bytes(), vec![0, 100]);
    assert_eq!(info.sector_size, 34_359_738_368);
    assert_eq!(info.window_post_partition_sectors, 2349);
    assert_eq!(info.consensus_fault_elapsed, EPOCH_UNDEFINED);
    assert_eq!(info.beneficiary_term.quota, 0);
    assert!(info.pending_worker_key.is_none());
    assert_eq!(info.peer_id, vec![1, 2]);
    let big = MinerInfo::new(1, 1, vec![], vec![], vec![], 14).unwrap();
    assert_eq!((big.sector_size, big.window_post_partition_sectors), (68_719_476_736, 2300));
    let small = MinerInfo::new(1, 1, vec![], vec![], vec![], 10).unwrap();
    assert_eq!((small.sector_size, small.window_post_partition_sectors), (2048, 2));
    let winning = MinerInfo::new(1, 1, vec![], vec![], vec![], 3).unwrap();
    assert_eq!(winning.sector_size, 34_359_738_368);
    assert_eq!(code(MinerInfo::new(1, 1, vec![], vec![], vec![], 8)), USR_ILLEGAL_ARGUMENT);
    assert_eq!(code(MinerInfo::new(1, 1, vec![], vec![], vec![], 15)), USR_ILLEGAL_ARGUMENT);
    assert!(!consensus_fault_active(&info, 0));
    assert!(consensus_fault_active(&info, -1));
    let params = ChangeBeneficiaryParams::new(Address::new_id(9), 500, 77);
    assert_eq!((params.new_quota, params.new_expiration), (500, 77));
}

#[test]
fn proving_period_arithmetic() {
    let p = policy();
    assert_eq!(current_proving_period_start(&p, 10_000, 100), 11_620);
    assert_eq!(current_proving_period_start(&p, 8740, 100), 11_620);
    assert_eq!(current_proving_period_start(&p, 8739, 100), 8740);
    assert_eq!(current_proving_period_start(&p, 0, 0), 2880);
    assert_eq!(current_proving_period_start(&p, -5, 100), 100);
    assert_eq!(current_deadline_index(&p, 10_000, 8740), 21);
    assert_eq!(current_deadline_index(&p, 8740, 8740), 0);
    assert_eq!(current_deadline_index(&p, 8739, 8740), 0);
    assert_eq!(current_deadline_index(&p, 8680, 8740), u64::MAX);
}

#[test]
fn proving_period_offset_from_address_and_epoch() {
    let p = policy();
    let prefix = |input: &[u8]| -> [u8; 32] {
        let mut digest = [0u8; 32];
        for (i, b) in input.iter().take(32).enumerate() {
            digest[i] = *b;
        }
        digest
    };
    let offset = assign_proving_period_offset(&p, &Address::new_id(100), 5, prefix).unwrap();
    let expected = u64::from_be_bytes([0x42, 0x00, 0x64, 0, 0, 0, 0, 0]) % 2880;
    assert_eq!(offset, expected as i64);
    let bad = Address { protocol: 9, payload: vec![1, 2, 3] };
    assert_eq!(code(assign_proving_period_offset(&p, &bad, 5, prefix)), USR_SERIALIZATION);
    let preimage = proving_period_offset_preimage(&[0x42, 0x00, 0x64], 0x0102);
    assert_eq!(preimage, vec![0x42, 0x00, 0x64, 0, 0, 0, 0, 0, 0, 0x01, 0x02]);
    let mut digest = [0u8; 32];
    digest[7] = 200;
    digest[6] = 11;
    assert_eq!(offset_from_digest(&p, &digest), (11 * 256 + 200) % 2880);
}

#[test]
fn fund_accounting_of_state() {
    let mut st = State::new(vec![1, 2, 3], 100, 3);
    assert_eq!((st.proving_period_start, st.current_deadline), (100, 3));
    assert_eq!(st.info, vec![1, 2, 3]);
    assert_eq!((st.pre_commit_deposits, st.locked_funds, st.initial_pledge, st.fee_debt), (0, 0, 0, 0));
    assert!(!st.have_pending_early_terminations());
    assert!(!st.continue_deadline_cron());
    st.add_pre_commit_deposit(100).unwrap();
    assert_eq!(code(st.add_pre_commit_deposit(-101)), USR_ILLEGAL_STATE);
    assert_eq!(st.pre_commit_deposits, 100);
    st.add_initial_pledge(200).unwrap();
    st.apply_penalty(30).unwrap();
    assert_eq!(code(st.apply_penalty(-1)), USR_ILLEGAL_ARGUMENT);
    assert_eq!(st.get_unlocked_balance(1000).unwrap(), 700);
    assert_eq!(st.get_available_balance(1000).unwrap(), 670);
    assert_eq!(code(st.get_unlocked_balance(299)), USR_ILLEGAL_STATE);
    assert!(st.check_balance_invariants(300).is_ok());
    assert!(st.check_balance_invariants(299).is_err());
    assert_eq!(code(st.repay_debts(320)), USR_INSUFFICIENT_FUNDS);
    assert_eq!(st.fee_debt, 30);
    assert_eq!(st.repay_debts(330).unwrap(), 30);
    assert_eq!(st.fee_debt, 0);
    assert!(st.continue_deadline_cron());
    let q = st.quant_spec_every_deadline(&policy());
    assert_eq!((q.unit, q.offset), (60, 100));
}

#[test]
fn sector_numbers_are_never_reused() {
    let mut st = State::new(vec![], 0, 0);
    st.allocate_sector_numbers(&bits(&[1, 2]), CollisionPolicy::DenyCollisions).unwrap();
    st.allocate_sector_numbers(&bits(&[3]), CollisionPolicy::DenyCollisions).unwrap();
    assert_eq!(code(st.allocate_sector_numbers(&bits(&[2, 5]), CollisionPolicy::DenyCollisions)), USR_ILLEGAL_ARGUMENT);
    assert!(!st.allocated_sectors.get(5));
    st.allocate_sector_numbers(&bits(&[2, 5]), CollisionPolicy::AllowCollisions).unwrap();
    assert_eq!(st.allocated_sectors.iter().collect::<Vec<u64>>(), vec![1, 2, 3, 5]);
    assert!(!st.have_pending_early_terminations());
    st.early_terminations.set(4);
    assert!(st.have_pending_early_terminations());
}

#[test]
fn activation_settles_deposits_and_pledge() {
    let p = policy();
    let funds = [
        NewSectorFunds { sector_number: 1, expiration: 600_000, pre_commit_deposit: 60, initial_pledge: 300 },
        NewSectorFunds { sector_number: 2, expiration: 600_000, pre_commit_deposit: 40, initial_pledge: 200 },
    ];
    assert!(check_new_sector_durations(&p, 81_600, &funds).is_ok());
    assert_eq!(code(check_new_sector_durations(&p, 81_601, &funds)), USR_ILLEGAL_ARGUMENT);

    let mut st = State::new(vec![], 0, 0);
    st.pre_commit_deposits = 100;
    assert_eq!(settle_activated_sector_funds(&mut st, 1000, &funds).unwrap(), 500);
    assert_eq!((st.pre_commit_deposits, st.initial_pledge), (0, 500));

    let mut poor = State::new(vec![], 0, 0);
    poor.pre_commit_deposits = 100;
    assert_eq!(code(settle_activated_sector_funds(&mut poor, 400, &funds)), USR_INSUFFICIENT_FUNDS);
    assert_eq!((poor.pre_commit_deposits, poor.initial_pledge), (100, 0));

    let mut short = State::new(vec![], 0, 0);
    short.pre_commit_deposits = 99;
    assert_eq!(code(settle_activated_sector_funds(&mut short, 1000, &funds)), USR_ILLEGAL_STATE);
    assert_eq!(short.pre_commit_deposits, 99);

    let mut broken = State::new(vec![], 0, 0);
    broken.pre_commit_deposits = 100;
    broken.fee_debt = -1;
    assert_eq!(code(settle_activated_sector_funds(&mut broken, 1000, &funds)), ERR_BALANCE_INVARIANTS_BROKEN);
    assert_eq!((broken.pre_commit_deposits, broken.initial_pledge), (100, 0));
}

#[test]
fn replica_update_pledge_settlement() {
    let mut st = State::new(vec![], 0, 0);
    st.initial_pledge = 100;
    settle_replica_update_pledge(&mut st, 1000, 300).unwrap();
    assert_eq!(st.initial_pledge, 400);
    assert_eq!(code(settle_replica_update_pledge(&mut st, 1000, 601)), USR_INSUFFICIENT_FUNDS);
    assert_eq!(st.initial_pledge, 400);
    assert_eq!(code(settle_replica_update_pledge(&mut st, 1000, -401)), USR_ILLEGAL_STATE);
    settle_replica_update_pledge(&mut st, 1000, -400).unwrap();
    assert_eq!(st.initial_pledge, 0);
    assert_eq!(code(settle_replica_update_pledge(&mut st, 0, 0)), 0);
}

#[test]
fn early_termination_funds() {
    let mut st = State::new(vec![], 0, 0);
    st.initial_pledge = 500;
    let sectors = [
        TerminatedSectorFunds { sector_number: 1, initial_pledge: 200, penalty: 30, has_data: true },
        TerminatedSectorFunds { sector_number: 2, initial_pledge: 100, penalty: 20, has_data: false },
    ];
    let totals = apply_early_termination_funds(&mut st, &sectors).unwrap();
    assert_eq!((totals.total_initial_pledge, totals.total_penalty), (300, 50));
    assert_eq!(totals.terminated_sector_nums, vec![1, 2]);
    assert_eq!(totals.sectors_with_data, vec![1]);
    assert_eq!((st.fee_debt, st.initial_pledge), (50, 200));
    let negative = [TerminatedSectorFunds { sector_number: 3, initial_pledge: 0, penalty: -1, has_data: false }];
    assert_eq!(code(apply_early_termination_funds(&mut st, &negative)), USR_ILLEGAL_STATE);
    let too_much = [TerminatedSectorFunds { sector_number: 3, initial_pledge: 201, penalty: 0, has_data: false }];
    assert_eq!(code(apply_early_termination_funds(&mut st, &too_much)), USR_ILLEGAL_STATE);
    assert_eq!((st.fee_debt, st.initial_pledge), (50, 200));
}

#[test]
fn deadline_cron_stops_without_funds() {
    let mut st = State::new(vec![], 0, 0);
    st.deadline_cron_active = true;
    st.initial_pledge = 1;
    assert!(finish_deadline_cron(&mut st));
    assert!(st.deadline_cron_active);
    st.initial_pledge = 0;
    assert!(!finish_deadline_cron(&mut st));
    assert!(!st.deadline_cron_active);
}

#[test]
fn non_simple_extension_keeps_remaining_weight() {
    let s = sector(false);
    let e = extend_non_simple_qap_sector(2000, 400, &s).unwrap();
    assert_eq!((e.expiration, e.power_base_epoch), (2000, 400));
    assert_eq!((e.deal_weight, e.verified_deal_weight), (600, 6000));
    assert_eq!(e.sealed_cid, vec![1, 2, 3]);
    let neg = SectorOnChainInfo { deal_weight: -7, ..sector(false) };
    assert_eq!(extend_non_simple_qap_sector(2000, 400, &neg).unwrap().deal_weight, -5);
}

#[test]
fn legacy_extension_rules() {
    let p = Policy { min_sector_expiration: 10, ..policy() };
    let life = Some(6_311_385);
    assert_eq!(code(extend_sector_committment_legacy(&p, 400, 2000, &sector(true), true, life)), USR_FORBIDDEN);
    let plain = SectorOnChainInfo { deal_weight: 0, verified_deal_weight: 0, ..sector(true) };
    assert_eq!(extend_sector_committment_legacy(&p, 400, 2000, &plain, true, life).unwrap().expiration, 2000);
    assert_eq!(extend_sector_committment_legacy(&p, 400, 2000, &sector(false), true, life).unwrap().deal_weight, 600);
    assert_eq!(code(extend_sector_committment_legacy(&p, 400, 2000, &sector(false), false, life)), USR_FORBIDDEN);
    assert_eq!(code(extend_sector_committment_legacy(&p, 1001, 2000, &sector(false), true, life)), USR_FORBIDDEN);
    assert_eq!(code(extend_sector_committment_legacy(&p, 400, 999, &sector(false), true, life)), USR_ILLEGAL_ARGUMENT);
}

fn claim_space(entries: &[(u64, (u64, u64))]) -> IdMap<u64, (u64, u64)> {
    let mut m = IdMap::new();
    for (k, v) in entries {
        m.set(*k, *v);
    }
    m
}

#[test]
fn simple_extension_rebuilds_verified_weight() {
    let p = policy();
    let rewards = |d: i64, w: i128, v: i128| -> (i128, i128) { (d as i128 + w + v, 7) };
    let e = extend_simple_qap_sector(&p, 2000, 400, &sector(true), &claim_space(&[(7, (10, 10))]), &rewards).unwrap();
    assert_eq!((e.expiration, e.power_base_epoch), (2000, 400));
    assert_eq!(e.deal_weight, 600);
    assert_eq!(e.verified_deal_weight, 16_000);
    assert_eq!(e.expected_day_reward, 1600 + 600 + 16_000);
    assert_eq!(e.expected_storage_pledge, 30);
    assert_eq!(e.replaced_day_reward, 40);
    let dropped = extend_simple_qap_sector(&p, 2000, 400, &sector(true), &claim_space(&[(7, (10, 4))]), &rewards).unwrap();
    assert_eq!(dropped.verified_deal_weight, 4 * 1600);
    assert_eq!(code(extend_simple_qap_sector(&p, 2000, 400, &sector(true), &claim_space(&[]), &rewards)), USR_ILLEGAL_ARGUMENT);
    assert_eq!(code(extend_simple_qap_sector(&p, 2000, 400, &sector(true), &claim_space(&[(7, (9, 9))]), &rewards)), USR_ILLEGAL_ARGUMENT);
    let near_end = Policy { end_of_life_claim_drop_period: 599, ..policy() };
    assert_eq!(code(extend_simple_qap_sector(&near_end, 2000, 400, &sector(true), &claim_space(&[(7, (10, 4))]), &rewards)), USR_FORBIDDEN);
    let unverified = SectorOnChainInfo { verified_deal_weight: 0, ..sector(true) };
    let u = extend_simple_qap_sector(&p, 2000, 400, &unverified, &claim_space(&[]), &rewards).unwrap();
    assert_eq!((u.verified_deal_weight, u.expected_day_reward, u.replaced_day_reward), (0, 40, 20));
    let via_dispatch = extend_sector_committment(&Policy { min_sector_expiration: 10, ..policy() }, 400, 2000, &sector(true),
        &claim_space(&[(7, (10, 10))]), true, Some(6_311_385), &rewards).unwrap();
    assert_eq!(via_dispatch.verified_deal_weight, 16_000);
}

#[test]
fn replica_update_rewrites_sector_data() {
    let pledges = |_d: i64, _w: i128, _v: i128| -> (i128, i128, i128) { (1, 2, 300) };
    let data = ReplicaUpdateActivatedData { seal_cid: vec![9, 9], unverified_space: 3, verified_space: 2 };
    let s = update_existing_sector_info(&sector(false), &data, 400, &pledges);
    assert!(s.simple_qa_power);
    assert_eq!(s.sealed_cid, vec![9, 9]);
    assert_eq!(s.sector_key_cid, Some(vec![1, 2, 3]));
    assert_eq!((s.deal_weight, s.verified_deal_weight), (1800, 1200));
    assert_eq!((s.expected_day_reward, s.expected_storage_pledge, s.initial_pledge), (1, 30, 300));
    assert_eq!((s.power_base_epoch, s.replaced_day_reward), (400, 40));
    let keyed = SectorOnChainInfo { sector_key_cid: Some(vec![5]), ..sector(false) };
    assert_eq!(update_existing_sector_info(&keyed, &data, 400, &pledges).sector_key_cid, Some(vec![5]));
}

#[test]
fn daily_fees_add_up() {
    let sectors = [sector(true), SectorOnChainInfo { daily_fee: 11, ..sector(false) }];
    assert_eq!(daily_fee_for_sectors(&sectors), 16);
    assert_eq!(daily_fee_for_sectors(&[]), 0);
}

fn claim(provider: u64, sector: u64, size: u64, term_start: i64, term_max: i64) -> Claim {
    Claim { provider, client: 1, data: vec![], size, term_min: 0, term_max, term_start, sector }
}

#[test]
fn claims_of_extended_sectors_are_checked_and_summed() {
    let mut space: IdMap<u64, (u64, u64)> = IdMap::new();
    let claims = [claim(1000, 7, 32, 0, 5000), claim(1000, 7, 64, 0, 100)];
    accumulate_sector_claims(7, 1, 4000, 1000, &claims, &mut space).unwrap();
    assert_eq!(space.get(7), Some(&(96, 32)));
    accumulate_sector_claims(7, 2, 4000, 1000, &[claim(1000, 7, 8, 0, 5000), claim(1000, 7, 8, 0, 5000)], &mut space).unwrap();
    assert_eq!(space.get(7), Some(&(112, 48)));
    accumulate_sector_claims(8, 0, 4000, 1000, &[], &mut space).unwrap();
    assert_eq!(space.get(8), None);
    assert_eq!(code(accumulate_sector_claims(7, 1, 4000, 1000, &[claim(999, 7, 1, 0, 5000)], &mut space)), USR_ILLEGAL_ARGUMENT);
    assert_eq!(code(accumulate_sector_claims(7, 1, 4000, 1000, &[claim(1000, 6, 1, 0, 5000)], &mut space)), USR_ILLEGAL_ARGUMENT);
    assert_eq!(code(accumulate_sector_claims(7, 1, 4000, 1000, &[claim(1000, 7, 1, 0, 3999)], &mut space)), USR_FORBIDDEN);
    assert_eq!(space.get(7), Some(&(112, 48)));
}

#[test]
fn extension_declarations() {
    let e2 = ExpirationExtension2 {
        deadline: 1,
        partition: 2,
        sectors: bits(&[1, 2]),
        sectors_with_claims: vec![SectorClaim { sector_number: 5, maintain_claims: vec![1], drop_claims: vec![] }],
        new_expiration: 900,
    };
    let v = ValidatedExpirationExtension::from(e2);
    assert_eq!((v.deadline, v.partition, v.new_expiration), (1, 2, 900));
    assert_eq!(v.sectors.iter().collect::<Vec<u64>>(), vec![1, 2, 5]);
    let p = policy();
    let legacy = [ExpirationExtension { deadline: 47, partition: 0, sectors: bits(&[4]), new_expiration: 10 }];
    let validated = validate_legacy_extension_declarations(&legacy, &p).unwrap();
    assert_eq!(validated[0].sectors.iter().collect::<Vec<u64>>(), vec![4]);
    let bad = [ExpirationExtension { deadline: 48, partition: 0, sectors: bits(&[]), new_expiration: 10 }];
    assert_eq!(code(validate_legacy_extension_declarations(&bad, &p)), USR_ILLEGAL_ARGUMENT);
}

#[test]
fn monies_constants() {
    assert_eq!(PRE_COMMIT_DEPOSIT_PROJECTION_PERIOD, 57_600);
    assert_eq!(INITIAL_PLEDGE_PROJECTION_PERIOD, 57_600);
    assert_eq!(continued_fault_projection_period(), 10_108);
    assert_eq!(initial_pledge_max_per_byte(), 29_103_830);
    assert_eq!(base_reward_for_disputed_window_post(), 4_000_000_000_000_000_000);
    assert_eq!(base_penalty_for_disputed_window_post(), 20_000_000_000_000_000_000);
}

#[test]
fn sector_keys_are_varints() {
    assert_eq!(sector_key(0), vec![0]);
    assert_eq!(sector_key(127), vec![0x7f]);
    assert_eq!(sector_key(128), vec![0x80, 0x01]);
    assert_eq!(sector_key(300), vec![0xac, 0x02]);
    assert_eq!(sector_key(u64::MAX).len(), 10);
}

#[test]
fn vesting_releases_move_locked_funds() {
    let mut st = State::new(vec![], 0, 0);
    assert_eq!(st.unlock_vested_funds(7), Ok(0));
    assert_eq!(st.locked_funds, 0);
    st.locked_funds = 100;
    assert_eq!(st.add_locked_funds(50, 30), Ok(30));
    assert_eq!(st.locked_funds, 120);
    assert_eq!(code(st.add_locked_funds(-1, 0)), USR_ILLEGAL_STATE);
    assert_eq!(code(st.add_locked_funds(10, 200)), USR_ILLEGAL_STATE);
    assert_eq!(st.locked_funds, 120);
    assert_eq!(st.unlock_vested_funds(20), Ok(20));
    assert_eq!(st.locked_funds, 100);
    assert_eq!(code(st.unlock_vested_funds(150)), USR_ILLEGAL_STATE);
    assert_eq!(st.locked_funds, 100);
    assert_eq!(st.unlock_vested_and_unvested_funds(0, 10, 20), Ok((0, 0)));
    assert_eq!(st.locked_funds, 100);
    assert_eq!(st.unlock_vested_and_unvested_funds(50, 10, 20), Ok((20, 30)));
    assert_eq!(st.locked_funds, 70);
    assert_eq!(code(st.unlock_vested_and_unvested_funds(50, 60, 20)), USR_ILLEGAL_STATE);
    assert_eq!(st.locked_funds, 70);
}

#[test]
fn partial_debt_repayment() {
    let mut st = State::new(vec![], 0, 0);
    st.locked_funds = 100;
    st.fee_debt = 40;
    assert_eq!(st.repay_partial_debt_in_priority_order(150, 5, 10), Ok((40, 15)));
    assert_eq!((st.locked_funds, st.fee_debt), (85, 0));

    let mut st = State::new(vec![], 0, 0);
    st.locked_funds = 100;
    st.fee_debt = 40;
    assert_eq!(st.repay_partial_debt_in_priority_order(110, 0, 5), Ok((15, 5)));
    assert_eq!((st.locked_funds, st.fee_debt), (95, 25));

    assert_eq!(code(st.repay_partial_debt_in_priority_order(110, 0, 30)), USR_ILLEGAL_STATE);
    assert_eq!((st.locked_funds, st.fee_debt), (95, 25));
    assert_eq!(code(st.repay_partial_debt_in_priority_order(50, 0, 5)), USR_ILLEGAL_STATE);
    assert_eq!((st.locked_funds, st.fee_debt), (95, 25));

    let mut st = State::new(vec![], 0, 0);
    st.fee_debt = 10;
    assert_eq!(st.repay_partial_debt_in_priority_order(4, 99, 99), Ok((4, 0)));
    assert_eq!((st.locked_funds, st.fee_debt), (0, 6));
}

#[test]
fn vested_funds_are_the_leading_entries_before_the_epoch() {
    let fund = |epoch: i64, amount: i128| VestingFund { epoch, amount };
    let funds = vec![fund(10, 5), fund(20, 7), fund(30, 9)];
    assert_eq!(check_vested_funds(&funds, 25), 12);
    assert_eq!(check_vested_funds(&funds, 10), 0);
    assert_eq!(check_vested_funds(&funds, 31), 21);
    assert_eq!(check_vested_funds(&[fund(10, 5), fund(40, 1), fund(20, 7)], 25), 5);
    assert_eq!(check_vested_funds(&[], 25), 0);
}

#[test]
fn pending_worker_change_takes_effect_at_its_epoch() {
    let mut info = MinerInfo::new(100, 101, vec![], vec![], vec![], 13).unwrap();
    assert!(!process_pending_worker(&mut info, 50));
    info.pending_worker_key = Some(WorkerKeyChange { new_worker: Address::new_id(200), effective_at: 60 });
    assert!(!process_pending_worker(&mut info, 59));
    assert_eq!(info.worker.to_bytes(), vec![0, 101]);
    assert!(info.pending_worker_key.is_some());
    assert!(process_pending_worker(&mut info, 60));
    assert_eq!(info.worker.to_bytes(), vec![0, 200, 1]);
    assert!(info.pending_worker_key.is_none());
    assert_eq!(info.owner.to_bytes(), vec![0, 100]);
}

#[test]
fn aggregate_fee_is_paid_from_unlocked_funds() {
    let mut st = State::new(vec![], 0, 0);
    st.add_pre_commit_deposit(100).unwrap();
    st.add_initial_pledge(200).unwrap();
    assert_eq!(pay_aggregate_seal_proof_fee(&st, 350, 50), Ok(50));
    assert_eq!(code(pay_aggregate_seal_proof_fee(&st, 349, 50)), USR_INSUFFICIENT_FUNDS);
    assert_eq!(code(pay_aggregate_seal_proof_fee(&st, 299, 0)), USR_ILLEGAL_STATE);
    assert_eq!(pay_aggregate_seal_proof_fee(&st, 300, 0), Ok(0));
    assert_eq!(pay_aggregate_seal_proof_fee(&st, 300, -5), Ok(0));
    st.locked_funds = -1;
    assert_eq!(code(pay_aggregate_seal_proof_fee(&st, 300, 0)), ERR_BALANCE_INVARIANTS_BROKEN);
}

#[test]
fn replica_update_states_rewrite_each_sector_and_settle_the_pledge() {
    let pledges = |_d: i64, _w: i128, _v: i128| -> (i128, i128, i128) { (1, 2, 300) };
    let data = |space: i128| ReplicaUpdateActivatedData { seal_cid: vec![9], unverified_space: space, verified_space: 0 };
    let olds = [sector(false), SectorOnChainInfo { sector_number: 8, ..sector(false) }];
    let news = new_replica_sector_infos(&olds, &[data(3), data(4)], 400, &pledges);
    assert_eq!(news.len(), 2);
    assert_eq!((news[0].sector_number, news[0].deal_weight), (7, 1800));
    assert_eq!((news[1].sector_number, news[1].deal_weight), (8, 2400));
    assert_eq!(news[1].initial_pledge, 300);

    let delta = |raw: i128, qa: i128, pledge: i128| PartitionDelta { raw_power: raw, qa_power: qa, pledge };
    let mut st = State::new(vec![], 0, 0);
    st.initial_pledge = 100;
    assert_eq!(settle_replica_update_states(&mut st, 1000, &[delta(0, 10, 250), delta(0, 5, 50)], 2), Ok((0, 15, 300)));
    assert_eq!(st.initial_pledge, 400);
    assert_eq!(code(settle_replica_update_states(&mut st, 1000, &[delta(0, 10, 1)], 2)), USR_ILLEGAL_STATE);
    assert_eq!(code(settle_replica_update_states(&mut st, 1000, &[delta(0, 10, 601)], 1)), USR_INSUFFICIENT_FUNDS);
    assert_eq!(st.initial_pledge, 400);
}
