use fil_actor_states::batch::BatchReturn;
use fil_actor_states::error::USR_ILLEGAL_ARGUMENT;
use fil_actor_states::miner_activation::{
    check_declared_commd, deal_activation_output, deal_activation_outputs, piece_activation_output, SectorDealActivation,
    market_activation_needed, plan_deal_activation_claims, success_flags, DealActivationFacts,
    deal_allocation_claims, no_claims, piece_allocation_claims, unverified_deal_space, unverified_piece_space,
    ActivatedDeal, PieceActivation, NO_ALLOCATION_ID,
};

fn deal(client: u64, allocation_id: u64, tag: u8, size: u64) -> ActivatedDeal {
    ActivatedDeal { client, allocation_id, data: vec![1, tag], size }
}

#[test]
fn deal_claims_keep_only_allocated_deals_in_order() {
    let deals = vec![deal(10, 5, 1, 2048), deal(11, NO_ALLOCATION_ID, 2, 1024), deal(12, 7, 3, 512)];
    let claims = deal_allocation_claims(42, 9000, &deals);
    assert_eq!(claims.sector, 42);
    assert_eq!(claims.expiry, 9000);
    assert_eq!(claims.claims.len(), 2);
    assert_eq!((claims.claims[0].client, claims.claims[0].allocation_id, claims.claims[0].size), (10, 5, 2048));
    assert_eq!(claims.claims[0].data, vec![1, 1]);
    assert_eq!((claims.claims[1].client, claims.claims[1].allocation_id, claims.claims[1].size), (12, 7, 512));
    assert_eq!(claims.claims[1].data, vec![1, 3]);
    assert_eq!(unverified_deal_space(&deals), 1024);
    assert!(!no_claims(&[claims]));
}

#[test]
fn piece_claims_and_unverified_space() {
    let pieces = vec![
        PieceActivation { data: vec![7], size: 1 << 30, verified_allocation_key: None },
        PieceActivation { data: vec![8], size: 1 << 20, verified_allocation_key: Some((1001, 3)) },
        PieceActivation { data: vec![9], size: u64::MAX, verified_allocation_key: None },
    ];
    let claims = piece_allocation_claims(5, 100, &pieces);
    assert_eq!(claims.claims.len(), 1);
    assert_eq!((claims.claims[0].client, claims.claims[0].allocation_id, claims.claims[0].size), (1001, 3, 1 << 20));
    assert_eq!(claims.claims[0].data, vec![8]);
    assert_eq!(unverified_piece_space(&pieces), (1u128 << 30) + u64::MAX as u128);
}

#[test]
fn sectors_without_claims_skip_the_registry() {
    let empty = deal_allocation_claims(1, 10, &[deal(3, NO_ALLOCATION_ID, 0, 64)]);
    let none = piece_allocation_claims(2, 10, &[]);
    assert!(no_claims(&[empty, none]));
    assert!(no_claims(&[]));
    assert_eq!(unverified_deal_space(&[]), 0);
}

#[test]
fn deal_activation_plan_follows_successful_sectors() {
    let info = |sector_number: u64, deal_count: usize| DealActivationFacts { sector_number, sector_expiry: 5000 + sector_number as i64, deal_count };
    let infos = [info(1, 2), info(2, 1), info(3, 1)];
    assert!(market_activation_needed(&infos));
    assert!(!market_activation_needed(&[info(4, 0), info(5, 0)]));
    let results = BatchReturn::of(&[0, 16, 0]);
    assert_eq!(success_flags(&results, 3), vec![true, false, true]);
    let activations = vec![
        vec![deal(10, 5, 1, 2048), deal(11, NO_ALLOCATION_ID, 2, 1024)],
        vec![deal(12, 7, 3, 512)],
    ];
    let plan = plan_deal_activation_claims(&infos, &results, &activations).unwrap();
    assert_eq!(plan.len(), 2);
    assert_eq!((plan[0].sector, plan[0].expiry, plan[0].claims.len()), (1, 5001, 1));
    assert_eq!(plan[0].claims[0].allocation_id, 5);
    assert_eq!((plan[1].sector, plan[1].expiry), (3, 5003));
    assert_eq!(plan[1].claims[0].client, 12);
    let short = plan_deal_activation_claims(&infos, &results, &activations[..1]).unwrap();
    assert_eq!(short.len(), 1);
    let none = BatchReturn::of(&[16, 16, 16]);
    assert_eq!(plan_deal_activation_claims(&infos, &none, &[]).err().unwrap().exit_code, USR_ILLEGAL_ARGUMENT);
}

#[test]
fn activation_outputs_record_pieces_and_space() {
    let activation = SectorDealActivation {
        activated: vec![deal(10, 5, 1, 2048), deal(11, NO_ALLOCATION_ID, 2, 1024)],
        unsealed_cid: Some(vec![0xcd]),
    };
    let out = deal_activation_output(&activation, 2048);
    assert_eq!((out.unverified_space, out.verified_space), (1024, 2048));
    assert_eq!(out.unsealed_cid, Some(vec![0xcd]));
    assert_eq!(out.pieces, vec![(vec![1, 1], 2048), (vec![1, 2], 1024)]);

    let pieces = vec![
        PieceActivation { data: vec![7], size: 512, verified_allocation_key: None },
        PieceActivation { data: vec![8], size: 256, verified_allocation_key: Some((1, 2)) },
    ];
    let out = piece_activation_output(&pieces, 256);
    assert_eq!((out.unverified_space, out.verified_space, out.unsealed_cid.clone()), (512, 256, None));
    assert_eq!(out.pieces, vec![(vec![7], 512), (vec![8], 256)]);

    assert!(check_declared_commd(&None, &[1, 2]).is_ok());
    assert!(check_declared_commd(&Some(vec![1, 2]), &[1, 2]).is_ok());
    assert_eq!(check_declared_commd(&Some(vec![1, 3]), &[1, 2]).err().unwrap().exit_code, USR_ILLEGAL_ARGUMENT);
}

#[test]
fn deal_outputs_pair_activations_with_claimed_space() {
    let activations = [
        SectorDealActivation { activated: vec![deal(10, 5, 1, 2048), deal(11, NO_ALLOCATION_ID, 2, 1024)], unsealed_cid: Some(vec![9]) },
        SectorDealActivation { activated: vec![], unsealed_cid: None },
    ];
    let outs = deal_activation_outputs(&activations, &[2048, 0]);
    assert_eq!(outs.len(), 2);
    assert_eq!((outs[0].unverified_space, outs[0].verified_space), (1024, 2048));
    assert_eq!(outs[0].pieces, vec![(vec![1, 1], 2048), (vec![1, 2], 1024)]);
    assert_eq!(outs[0].unsealed_cid, Some(vec![9]));
    assert_eq!((outs[1].unverified_space, outs[1].verified_space, outs[1].pieces.len()), (0, 0, 0));
    assert_eq!(deal_activation_outputs(&activations, &[7]).len(), 1);
}
