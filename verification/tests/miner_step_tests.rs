use fil_actor_states::address::Address;
use fil_actor_states::error::{ActorError, USR_ILLEGAL_ARGUMENT, USR_ILLEGAL_STATE, USR_INSUFFICIENT_FUNDS, USR_NOT_FOUND};
use fil_actor_states::miner_batch::MAX_SECTOR_NUMBER;
use fil_actor_states::miner_cron::{handle_proving_deadline_step, process_early_terminations_step, terminated_sector_funds, DeadlineCronAction, DeadlineCronInputs};
use fil_actor_states::miner_flows::{activate_new_sector_infos, update_replica_states, PartitionDelta, TerminatedSectorFunds};
use fil_actor_states::miner_info::{MinerInfo, WorkerKeyChange};
use fil_actor_states::miner_sectors::{power_for_sector, power_for_sectors, PowerPair, PrecommitActivation, ReplicaUpdateActivatedData, SectorOnChainInfo};
use fil_actor_states::miner_state::{SectorPreCommitOnChainInfo, State};
use fil_actor_states::policy::Policy;

fn code<T>(r: Result<T, ActorError>) -> u32 {
    match r {
        Ok(_) => 0,
        Err(e) => e.exit_code,
    }
}

fn policy() -> Policy {
    Policy {
        wpost_proving_period: 2880,
        wpost_challenge_window: 60,
        wpost_period_deadlines: 48,
        min_sector_expiration: 518_400,
        max_sector_expiration_extension: 3_680_640,
        max_peer_id_length: 128,
        max_multiaddr_data: 1024,
        max_control_addresses: 10,
        pre_commit_challenge_delay: 150,
        prov_collateral_percent_supply_num: 1,
        prov_collateral_percent_supply_denom: 100,
        max_prove_commit_ni_randomness_lookback: 518_400,
        prove_replica_updates_max_size: 512,
        min_aggregated_sectors: 4,
        max_aggregated_sectors: 819,
        min_aggregated_sectors_ni: 1,
        max_aggregated_sectors_ni: 65,
        max_aggregated_proof_size: 81_960,
        end_of_life_claim_drop_period: 86_400,
    }
}

fn inputs() -> DeadlineCronInputs {
    DeadlineCronInputs {
        vest_now: true,
        vested: 20,
        power_delta_raw: -64,
        power_delta_qa: -640,
        advance_pledge_delta: -3,
        continued_fault_penalty: 7,
        repay_vested: 0,
        repay_unvested: 2,
    }
}

#[test]
fn deadline_cron_vests_penalises_repays_and_continues() {
    let mut st = State::new(vec![], 0, 0);
    st.locked_funds = 100;
    st.fee_debt = 10;
    st.initial_pledge = 50;
    st.deadline_cron_active = true;
    st.add_pre_commit_deposit(5).unwrap();
    st.put_precommitted_sectors(vec![SectorPreCommitOnChainInfo { pre_commit_deposit: 5, ..stored_precommit(3) }, stored_precommit(8)]).unwrap();
    let mut info = MinerInfo::new(100, 101, vec![], vec![], vec![], 13).unwrap();
    info.pending_worker_key = Some(WorkerKeyChange { new_worker: Address::new_id(200), effective_at: 60 });
    let action = handle_proving_deadline_step(&mut st, &mut info, 60, 200, &inputs(), &[3, 4]).unwrap();
    assert_eq!(action, DeadlineCronAction {
        power_delta_raw: -64,
        power_delta_qa: -640,
        burn: 24,
        pledge_delta: -45,
        save_info: true,
        continue_cron: true,
        had_early_terminations: false,
    });
    assert_eq!((st.locked_funds, st.fee_debt, st.pre_commit_deposits), (78, 0, 0));
    assert!(st.get_precommitted_sector(3).is_none());
    assert!(st.get_precommitted_sector(8).is_some());
    assert_eq!(info.worker.to_bytes(), vec![0, 200, 1]);
    assert!(st.deadline_cron_active);
}

#[test]
fn deadline_cron_stops_and_refuses_bad_releases() {
    let mut st = State::new(vec![], 0, 0);
    st.deadline_cron_active = true;
    let mut info = MinerInfo::new(100, 101, vec![], vec![], vec![], 13).unwrap();
    let quiet = DeadlineCronInputs { vest_now: false, vested: 0, power_delta_raw: 0, power_delta_qa: 0, advance_pledge_delta: 0, continued_fault_penalty: 0, repay_vested: 0, repay_unvested: 0 };
    let action = handle_proving_deadline_step(&mut st, &mut info, 10, 0, &quiet, &[]).unwrap();
    assert!(!action.continue_cron);
    assert!(!action.save_info);
    assert!(!st.deadline_cron_active);

    let mut st = State::new(vec![], 0, 0);
    st.locked_funds = 10;
    assert_eq!(code(handle_proving_deadline_step(&mut st, &mut info, 10, 100, &inputs(), &[])), USR_ILLEGAL_STATE);
    let mut st = State::new(vec![], 0, 0);
    let negative = DeadlineCronInputs { continued_fault_penalty: -1, ..inputs() };
    assert_eq!(code(handle_proving_deadline_step(&mut st, &mut info, 10, 100, &negative, &[])), USR_ILLEGAL_STATE);
    let mut st = State::new(vec![], 0, 0);
    st.put_precommitted_sectors(vec![stored_precommit(3)]).unwrap();
    assert_eq!(code(handle_proving_deadline_step(&mut st, &mut info, 10, 100, &quiet, &[3])), USR_ILLEGAL_STATE);
}

#[test]
fn early_terminations_burn_penalties_and_release_pledge() {
    let mut st = State::new(vec![], 0, 0);
    st.initial_pledge = 300;
    st.locked_funds = 50;
    assert!(process_early_terminations_step(&mut st, &[], 1000, 0, 0).unwrap().is_none());
    let sectors = [
        TerminatedSectorFunds { sector_number: 1, initial_pledge: 100, penalty: 30, has_data: true },
        TerminatedSectorFunds { sector_number: 2, initial_pledge: 50, penalty: 10, has_data: false },
    ];
    let action = process_early_terminations_step(&mut st, &sectors, 1000, 5, 5).unwrap().unwrap();
    assert_eq!((action.burn, action.pledge_delta), (50, -190));
    assert_eq!(action.terminated_sector_nums, vec![1, 2]);
    assert_eq!(action.sectors_with_data, vec![1]);
    assert_eq!((st.initial_pledge, st.fee_debt, st.locked_funds), (150, 0, 40));

    let mut st = State::new(vec![], 0, 0);
    st.initial_pledge = 10;
    assert_eq!(code(process_early_terminations_step(&mut st, &sectors, 1000, 0, 0)), USR_ILLEGAL_STATE);
    let mut st = State::new(vec![], 0, 0);
    st.initial_pledge = 300;
    let huge = [TerminatedSectorFunds { sector_number: u64::MAX, initial_pledge: 1, penalty: 0, has_data: true }];
    assert_eq!(code(process_early_terminations_step(&mut st, &huge, 1000, 0, 0)), USR_ILLEGAL_STATE);
}

fn precommit(expiration: i64) -> PrecommitActivation {
    PrecommitActivation { sector_number: 9, seal_proof: 8, sealed_cid: vec![1, 2], expiration, pre_commit_deposit: 500, unverified_space: 2, verified_space: 1 }
}

fn stored_precommit(n: u64) -> SectorPreCommitOnChainInfo {
    SectorPreCommitOnChainInfo {
        sector_number: n,
        seal_proof: 8,
        sealed_cid: vec![1, 2],
        seal_rand_epoch: 10,
        deal_ids: vec![n + 100],
        expiration: 600_000,
        unsealed_cid: None,
        pre_commit_deposit: 500,
        pre_commit_epoch: 20,
    }
}

fn record(n: u64, expiration: i64) -> SectorOnChainInfo {
    SectorOnChainInfo {
        sector_number: n,
        seal_proof: 8,
        sealed_cid: vec![3],
        activation: 1,
        expiration,
        deal_weight: 0,
        verified_deal_weight: 0,
        initial_pledge: 10,
        expected_day_reward: 1,
        expected_storage_pledge: 2,
        power_base_epoch: 1,
        replaced_day_reward: 0,
        sector_key_cid: None,
        simple_qa_power: true,
        daily_fee: 0,
    }
}

#[test]
fn activation_builds_records_and_settles_funds() {
    let pledges = |_d: i64, _w: i128, _v: i128| -> (i128, i128, i128) { (1, 2, 100) };
    let p = policy();
    let mut st = State::new(vec![], 0, 0);
    st.add_pre_commit_deposit(500).unwrap();
    st.put_precommitted_sectors(vec![stored_precommit(9)]).unwrap();
    let total = activate_new_sector_infos(&mut st, 1000, &p, 1000, &[precommit(600_000)], &pledges).unwrap();
    assert_eq!(total, 100);
    let r = st.get_sector(9).unwrap();
    assert_eq!((r.sector_number, r.seal_proof, r.expiration, r.activation, r.power_base_epoch), (9, 8, 600_000, 1000, 1000));
    assert_eq!((r.deal_weight, r.verified_deal_weight), (1_198_000, 599_000));
    assert_eq!((r.expected_day_reward, r.expected_storage_pledge, r.initial_pledge), (1, 2, 100));
    assert!(r.simple_qa_power && r.sector_key_cid.is_none());
    assert_eq!(r.sealed_cid, vec![1, 2]);
    assert!(st.get_precommitted_sector(9).is_none());
    assert_eq!((st.pre_commit_deposits, st.initial_pledge), (0, 100));

    let mut st = State::new(vec![], 0, 0);
    st.add_pre_commit_deposit(500).unwrap();
    st.put_precommitted_sectors(vec![stored_precommit(9)]).unwrap();
    assert_eq!(code(activate_new_sector_infos(&mut st, 1000, &p, 1000, &[precommit(500_000)], &pledges)), USR_ILLEGAL_ARGUMENT);
    assert!(st.get_precommitted_sector(9).is_some());
    assert_eq!(code(activate_new_sector_infos(&mut st, 50, &p, 1000, &[precommit(600_000)], &pledges)), USR_INSUFFICIENT_FUNDS);
    assert_eq!((st.pre_commit_deposits, st.initial_pledge), (500, 0));

    let mut st = State::new(vec![], 0, 0);
    st.add_pre_commit_deposit(500).unwrap();
    assert_eq!(code(activate_new_sector_infos(&mut st, 1000, &p, 1000, &[precommit(600_000)], &pledges)), USR_ILLEGAL_STATE);
}

#[test]
fn expired_precommits_are_removed_and_their_deposits_returned() {
    let mut st = State::new(vec![], 0, 0);
    st.add_pre_commit_deposit(1200).unwrap();
    st.put_precommitted_sectors(vec![stored_precommit(2), stored_precommit(6), stored_precommit(9)]).unwrap();
    assert_eq!(st.cleanup_expired_pre_commits(&[1, 2, 9]).unwrap(), 1000);
    assert_eq!(st.pre_commit_deposits, 200);
    assert!(st.get_precommitted_sector(2).is_none() && st.get_precommitted_sector(9).is_none());
    assert!(st.get_precommitted_sector(6).is_some());
    assert_eq!(st.cleanup_expired_pre_commits(&[]).unwrap(), 0);
    assert_eq!(code(st.cleanup_expired_pre_commits(&[6])), USR_ILLEGAL_STATE);
}

#[test]
fn precommit_table_stores_finds_and_deletes() {
    let mut st = State::new(vec![], 0, 0);
    st.put_precommitted_sectors(vec![stored_precommit(1), stored_precommit(5)]).unwrap();
    assert_eq!(code(st.put_precommitted_sectors(vec![stored_precommit(5)])), USR_ILLEGAL_STATE);
    assert_eq!(code(st.put_precommitted_sectors(vec![stored_precommit(7), stored_precommit(7)])), USR_ILLEGAL_STATE);
    assert!(st.get_precommitted_sector(7).is_none());
    let p5 = st.get_precommitted_sector(5).unwrap();
    assert_eq!((p5.sector_number, p5.deal_ids.clone(), p5.pre_commit_deposit), (5, vec![105], 500));
    let found = st.find_precommitted_sectors(&[5, 2, 1]);
    assert_eq!(found.iter().map(|p| p.sector_number).collect::<Vec<u64>>(), vec![5, 1]);
    assert_eq!(code(st.get_precommitted_sectors(&[1, 2])), USR_NOT_FOUND);
    assert_eq!(code(st.get_precommitted_sectors(&[MAX_SECTOR_NUMBER + 1, 2])), USR_ILLEGAL_ARGUMENT);
    let both = st.get_precommitted_sectors(&[5, 1]).unwrap();
    assert_eq!(both.iter().map(|p| p.sector_number).collect::<Vec<u64>>(), vec![5, 1]);
    st.delete_precommitted_sectors(&[5]).unwrap();
    assert!(st.get_precommitted_sector(5).is_none());
    assert!(st.get_precommitted_sector(1).is_some());
    assert_eq!(code(st.delete_precommitted_sectors(&[5])), USR_ILLEGAL_STATE);

    let mut st = State::new(vec![], 0, 0);
    st.put_precommitted_sectors(vec![stored_precommit(1)]).unwrap();
    assert_eq!(code(st.delete_precommitted_sectors(&[1, 1])), USR_ILLEGAL_STATE);
    assert!(st.get_precommitted_sector(1).is_some());
    assert_eq!(code(st.delete_precommitted_sectors(&[1, 2])), USR_ILLEGAL_STATE);
    assert!(st.get_precommitted_sector(1).is_some());
}

#[test]
fn sector_table_replaces_records_by_number() {
    let mut st = State::new(vec![], 0, 0);
    assert!(!st.has_sector_number(3));
    st.put_sectors(vec![record(3, 100), record(4, 200)]);
    assert!(st.has_sector_number(3) && st.has_sector_number(4));
    st.put_sectors(vec![record(3, 300)]);
    assert_eq!(st.get_sector(3).unwrap().expiration, 300);
    assert_eq!(st.get_sector(4).unwrap().expiration, 200);
    assert!(st.get_sector(5).is_none());
    assert_eq!((st.initial_pledge, st.locked_funds), (0, 0));
}

fn replica_data() -> ReplicaUpdateActivatedData {
    ReplicaUpdateActivatedData { seal_cid: vec![7, 7], unverified_space: 2, verified_space: 0 }
}

#[test]
fn replica_updates_store_new_records_and_settle_pledge() {
    let pledges = |_d: i64, _w: i128, _v: i128| -> (i128, i128, i128) { (4, 5, 30) };
    let deltas = [PartitionDelta { raw_power: 0, qa_power: 64, pledge: 20 }];
    let mut st = State::new(vec![], 0, 0);
    st.initial_pledge = 10;
    st.put_sectors(vec![record(3, 100_000)]);
    let totals = update_replica_states(&mut st, 1000, &[record(3, 100_000)], &[replica_data()], &deltas, 1, 1000, &pledges).unwrap();
    assert_eq!(totals, (0, 64, 20));
    let r = st.get_sector(3).unwrap();
    assert_eq!(r.sealed_cid, vec![7, 7]);
    assert_eq!(r.sector_key_cid, Some(vec![3]));
    assert_eq!((r.deal_weight, r.verified_deal_weight, r.power_base_epoch), (198_000, 0, 1000));
    assert_eq!((r.expected_day_reward, r.expected_storage_pledge, r.initial_pledge), (4, 5, 30));
    assert_eq!(st.initial_pledge, 30);

    let mut st = State::new(vec![], 0, 0);
    st.initial_pledge = 10;
    st.put_sectors(vec![record(3, 100_000)]);
    assert_eq!(code(update_replica_states(&mut st, 1000, &[record(3, 100_000)], &[replica_data()], &deltas, 2, 1000, &pledges)), USR_ILLEGAL_STATE);
    assert_eq!(code(update_replica_states(&mut st, 15, &[record(3, 100_000)], &[replica_data()], &deltas, 1, 1000, &pledges)), USR_INSUFFICIENT_FUNDS);
    assert_eq!(st.get_sector(3).unwrap().sealed_cid, vec![3]);
    assert_eq!(st.initial_pledge, 10);
}

#[test]
fn sector_power_is_size_and_summed_quality_power() {
    let qa = |size: u64, s: &SectorOnChainInfo| -> i128 { if s.verified_deal_weight > 0 { size as i128 * 10 } else { size as i128 } };
    let mut verified = record(2, 100);
    verified.verified_deal_weight = 5;
    assert_eq!(power_for_sector(32, &record(1, 100), &qa), PowerPair { raw: 32, qa: 32 });
    assert_eq!(power_for_sector(32, &verified, &qa), PowerPair { raw: 32, qa: 320 });
    assert_eq!(power_for_sectors(32, &[record(1, 100), verified, record(3, 100)], &qa), PowerPair { raw: 96, qa: 384 });
    assert_eq!(power_for_sectors(32, &[], &qa), PowerPair { raw: 0, qa: 0 });
}
#[test]
fn terminated_sectors_are_read_from_the_table() {
    let mut st = State::new(vec![], 0, 0);
    let mut with_data = record(4, 100);
    with_data.verified_deal_weight = 9;
    st.put_sectors(vec![record(3, 100), with_data]);
    let penalty = |s: &SectorOnChainInfo| -> i128 { s.initial_pledge / 2 };
    let funds = terminated_sector_funds(&st, &[4, 3], &penalty).unwrap();
    assert_eq!(funds.len(), 2);
    assert_eq!((funds[0].sector_number, funds[0].initial_pledge, funds[0].penalty, funds[0].has_data), (4, 10, 5, true));
    assert_eq!((funds[1].sector_number, funds[1].initial_pledge, funds[1].penalty, funds[1].has_data), (3, 10, 5, false));
    assert!(terminated_sector_funds(&st, &[3, 7], &penalty).is_none());
    assert_eq!(terminated_sector_funds(&st, &[], &penalty).unwrap().len(), 0);
}
