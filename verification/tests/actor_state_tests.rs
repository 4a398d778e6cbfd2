use fil_actor_states::addr_map::AddrMap;
use fil_actor_states::address::{bytes_eq, contains_address, Address};
use fil_actor_states::balance_table::BalanceTable;
use fil_actor_states::error::{ActorError, USR_ILLEGAL_ARGUMENT, USR_INSUFFICIENT_FUNDS};
use fil_actor_states::id_map::IdMap;
use fil_actor_states::init_state::{State as InitState, FIRST_NON_SINGLETON_ADDR};
use fil_actor_states::market::{collateral_penalty_for_deal_activation_missed, deal_provider_collateral_bounds, DealProposal, Label, DEAL_MAX_LABEL_SIZE};
use fil_actor_states::multisig::{State as MultisigState, Transaction};
use fil_actor_states::policy::{Policy, TOTAL_FILECOIN_ATTO};
use fil_actor_states::verifreg_state::{get_allocation, get_claim, AddrPairKey, Allocation, Claim, State as VerifregState};

fn code<T>(r: Result<T, ActorError>) -> u32 {
    match r {
        Ok(_) => 0,
        Err(e) => e.exit_code,
    }
}

fn secp(n: u8) -> Address {
    Address { protocol: 1, payload: vec![n; 20] }
}

fn policy() -> Policy {
    Policy {
        wpost_proving_period: 2880,
        wpost_challenge_window: 60,
        wpost_period_deadlines: 48,
        min_sector_expiration: 518_400,
        max_sector_expiration_extension: 3_680_640,
        max_peer_id_length: 128,
        max_multiaddr_data: 1024,
        max_control_addresses: 10,
        pre_commit_challenge_delay: 150,
        prov_collateral_percent_supply_num: 1,
        prov_collateral_percent_supply_denom: 100,
        max_prove_commit_ni_randomness_lookback: 518_400,
        prove_replica_updates_max_size: 512,
        min_aggregated_sectors: 4,
        max_aggregated_sectors: 819,
        min_aggregated_sectors_ni: 1,
        max_aggregated_sectors_ni: 65,
        max_aggregated_proof_size: 81_960,
        end_of_life_claim_drop_period: 86_400,
    }
}

#[test]
fn id_addresses_encode_as_varints() {
    assert_eq!(Address::new_id(0).to_bytes(), vec![0, 0]);
    assert_eq!(Address::new_id(1234).to_bytes(), vec![0, 0xd2, 0x09]);
    assert_eq!(Address::new_id(1234).protocol(), 0);
    assert!(Address::new_id(5).same_as(&Address::new_id(5)));
    assert!(!Address::new_id(5).same_as(&Address::new_id(6)));
    assert!(bytes_eq(&[1, 2], &[1, 2]));
    assert!(!bytes_eq(&[1, 2], &[1, 2, 3]));
    assert!(contains_address(&[secp(1), secp(2)], &secp(2)));
    assert!(!contains_address(&[secp(1)], &secp(3)));
}

#[test]
fn address_map_operations() {
    let mut m: AddrMap<u64> = AddrMap::new();
    m.set(&secp(1), 10);
    m.set(&secp(2), 20);
    m.set(&secp(1), 11);
    assert_eq!(m.len(), 2);
    assert_eq!(m.get(&secp(1)), Some(11));
    assert_eq!(m.delete(&secp(2)), Some(20));
    assert_eq!(m.delete(&secp(2)), None);
    assert_eq!(m.get(&secp(2)), None);
    assert_eq!(m.value_at(0), 11);
}

#[test]
fn id_map_operations() {
    let mut m: IdMap<u64, &str> = IdMap::new();
    m.set(3, "c");
    m.set(1, "a");
    m.set(3, "d");
    assert_eq!(m.len(), 2);
    assert_eq!(m.get(3), Some(&"d"));
    assert_eq!(m.key_at(1), 1);
    assert_eq!(m.delete(3), Some("d"));
    assert_eq!(m.get(3), None);
}

#[test]
fn balance_table_add_and_subtract() {
    let mut t = BalanceTable::new();
    t.add(&secp(1), 100).unwrap();
    t.add(&secp(2), 50).unwrap();
    assert_eq!(t.get(&secp(1)), 100);
    assert_eq!(t.total(), 150);
    assert_eq!(code(t.add(&secp(1), -101)), USR_ILLEGAL_ARGUMENT);
    assert_eq!(t.get(&secp(1)), 100);
    t.must_subtract(&secp(1), 40).unwrap();
    assert_eq!(t.get(&secp(1)), 60);
    assert_eq!(code(t.must_subtract(&secp(1), 61)), USR_ILLEGAL_ARGUMENT);
    assert_eq!(t.subtract_with_minimum(&secp(1), 100, 20).unwrap(), 40);
    assert_eq!(t.get(&secp(1)), 20);
    assert_eq!(t.subtract_with_minimum(&secp(1), 100, 30).unwrap(), 0);
    assert_eq!(t.subtract_with_minimum(&secp(1), -5, 0).unwrap(), 0);
    assert_eq!(t.get(&secp(1)), 20);
    assert_eq!(t.total(), 70);
    t.add(&secp(2), -50).unwrap();
    assert_eq!(t.get(&secp(2)), 0);
    assert_eq!(t.total(), 20);
}

#[test]
fn add_then_subtract_restores_balances() {
    let mut t = BalanceTable::new();
    t.add(&secp(1), 7).unwrap();
    t.add(&secp(1), 25).unwrap();
    t.must_subtract(&secp(1), 25).unwrap();
    assert_eq!(t.get(&secp(1)), 7);
    assert_eq!(t.total(), 7);
}

#[test]
fn init_registry_maps_and_resolves() {
    let mut st = InitState::new(AddrMap::new(), String::from("mainnet"));
    assert_eq!(st.next_id, FIRST_NON_SINGLETON_ADDR);
    let id = st.map_address_to_new_id(&secp(7));
    assert_eq!(id.to_bytes(), Address::new_id(100).to_bytes());
    assert_eq!(st.next_id, 101);
    assert_eq!(st.resolve_address(&secp(7)).unwrap().to_bytes(), vec![0, 100]);
    assert!(st.resolve_address(&secp(8)).is_none());
    assert_eq!(st.resolve_address(&Address::new_id(5)).unwrap().to_bytes(), vec![0, 5]);
    let second = st.map_address_to_new_id(&secp(8));
    assert_eq!(second.to_bytes(), vec![0, 101]);
    assert_eq!(st.resolve_address(&secp(7)).unwrap().to_bytes(), vec![0, 100]);
}

#[test]
fn verifreg_verifiers_allocations_and_claims() {
    let mut st = VerifregState::new(Address::new_id(80));
    assert_eq!(st.next_allocation_id, 1);
    st.put_verifier(&secp(1), 1000);
    assert_eq!(st.get_verifier_cap(&secp(1)), Some(1000));
    st.remove_verifier(&secp(1)).unwrap();
    assert_eq!(st.get_verifier_cap(&secp(1)), None);
    assert_eq!(code(st.remove_verifier(&secp(1))), USR_ILLEGAL_ARGUMENT);

    let alloc = |size: u64| Allocation { client: 1001, provider: 2002, data: vec![1], size, term_min: 518_400, term_max: 1_555_200, expiration: 4_000_000 };
    let ids = st.insert_allocations(1001, vec![alloc(10), alloc(20)]).unwrap();
    assert_eq!(ids, vec![1, 2]);
    let more = st.insert_allocations(1001, vec![alloc(30)]).unwrap();
    assert_eq!(more, vec![3]);
    assert_eq!(st.next_allocation_id, 4);
    assert_eq!(get_allocation(&st.allocations, 1001, 2).unwrap().size, 20);
    assert!(get_allocation(&st.allocations, 1002, 2).is_none());

    let claim = |provider: u64, size: u64| Claim { provider, client: 1001, data: vec![], size, term_min: 0, term_max: 10, term_start: 5, sector: 9 };
    st.put_claims(vec![(7, claim(2002, 1)), (8, claim(2003, 2)), (7, claim(2002, 3))]).unwrap();
    assert_eq!(get_claim(&st.claims, 2002, 7).unwrap().size, 3);
    assert_eq!(get_claim(&st.claims, 2003, 8).unwrap().size, 2);
    assert!(get_claim(&st.claims, 2003, 7).is_none());

    let key = AddrPairKey::new(Address::new_id(1), Address::new_id(2));
    assert_eq!(key.to_bytes(), vec![0, 1, 0, 2]);
}

#[test]
fn multisig_lock_and_spending() {
    let st = MultisigState {
        signers: vec![secp(1), secp(2)],
        num_approvals_threshold: 2,
        next_tx_id: 0,
        initial_balance: 1000,
        start_epoch: 100,
        unlock_duration: 300,
        pending_txs: IdMap::new(),
    };
    assert!(st.is_signer(&secp(2)));
    assert!(!st.is_signer(&secp(3)));
    assert_eq!(st.amount_locked(0), 1000);
    assert_eq!(st.amount_locked(-5), 1000);
    assert_eq!(st.amount_locked(100), 667);
    assert_eq!(st.amount_locked(299), 4);
    assert_eq!(st.amount_locked(300), 0);
    assert!(st.check_available(1000, 333, 200).is_ok());
    assert_eq!(code(st.check_available(1000, 334, 200)), USR_INSUFFICIENT_FUNDS);
    assert_eq!(code(st.check_available(1000, -1, 200)), USR_ILLEGAL_ARGUMENT);
    assert_eq!(code(st.check_available(10, 11, 500)), USR_INSUFFICIENT_FUNDS);
    assert!(st.check_available(0, 0, 100).is_ok());
    let negative = MultisigState { initial_balance: -1000, signers: vec![], pending_txs: IdMap::new(), ..st };
    assert_eq!(negative.amount_locked(100), -666);
}

#[test]
fn multisig_set_locked() {
    let mut st = MultisigState {
        signers: vec![],
        num_approvals_threshold: 1,
        next_tx_id: 0,
        initial_balance: 0,
        start_epoch: 0,
        unlock_duration: 0,
        pending_txs: IdMap::new(),
    };
    st.set_locked(10, 20, 500);
    assert_eq!((st.start_epoch, st.unlock_duration, st.initial_balance), (10, 20, 500));
    assert_eq!(st.amount_locked(10), 250);
}

fn txn(approvers: Vec<Address>) -> Transaction {
    Transaction { to: secp(9), value: 5, method: 0, params: vec![1], approved: approvers }
}

#[test]
fn purging_approvals_removes_the_approver() {
    let mut pending = IdMap::new();
    pending.set(1, txn(vec![secp(1)]));
    pending.set(2, txn(vec![secp(1), secp(2)]));
    pending.set(3, txn(vec![secp(2)]));
    let mut st = MultisigState {
        signers: vec![secp(1), secp(2)],
        num_approvals_threshold: 2,
        next_tx_id: 4,
        initial_balance: 0,
        start_epoch: 0,
        unlock_duration: 0,
        pending_txs: pending,
    };
    st.purge_approvals(&secp(1)).unwrap();
    assert!(st.pending_txs.get(1).is_none());
    let t2 = st.pending_txs.get(2).unwrap();
    assert_eq!(t2.approved.len(), 1);
    assert!(t2.approved[0].same_as(&secp(2)));
    assert_eq!(t2.params, vec![1]);
    assert_eq!(st.pending_txs.get(3).unwrap().approved.len(), 1);
    assert_eq!(st.pending_txs.len(), 2);
    st.purge_approvals(&secp(1)).unwrap();
    assert_eq!(st.pending_txs.len(), 2);
}

fn proposal(start: i64, end: i64) -> DealProposal {
    DealProposal {
        piece_cid: vec![1],
        piece_size: 2048,
        verified_deal: false,
        client: Address::new_id(1),
        provider: Address::new_id(2),
        label: Label::String(String::from("héllo")),
        start_epoch: start,
        end_epoch: end,
        storage_price_per_epoch: 3,
        provider_collateral: 40,
        client_collateral: 7,
    }
}

#[test]
fn deal_proposal_amounts() {
    let p = proposal(10, 110);
    assert_eq!(p.duration(), 100);
    assert_eq!(p.weight(), 204_800);
    assert_eq!(p.total_storage_fee(), 300);
    assert_eq!(p.client_balance_requirement(), 307);
    assert_eq!(p.provider_balance_requirement(), 40);
    assert_eq!(p.label.len(), 6);
    assert!(!p.label.is_empty());
    assert!(Label::Bytes(vec![]).is_empty());
    assert_eq!(Label::Bytes(vec![0; DEAL_MAX_LABEL_SIZE]).len(), 256);
    let backwards = proposal(110, 10);
    assert_eq!(backwards.duration(), -100);
    assert_eq!(backwards.total_storage_fee(), 3 * (u64::MAX - 99) as i128);
}

#[test]
fn provider_collateral_bounds() {
    let p = policy();
    let (min, max) = deal_provider_collateral_bounds(&p, 2048, 1 << 40, 1 << 41, 1_000_000_000_000);
    assert_eq!(min, 2048 * 1_000_000_000_000 / ((1i128 << 41) * 100));
    assert_eq!(max, TOTAL_FILECOIN_ATTO);
    let (small_net, _) = deal_provider_collateral_bounds(&p, 4096, 100, 10, 1000);
    assert_eq!(small_net, 4096 * 1000 / (4096 * 100));
    assert_eq!(collateral_penalty_for_deal_activation_missed(55), 55);
}
