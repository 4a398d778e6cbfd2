use fil_actor_states::address::Address;
use fil_actor_states::reward_bootstrap::{validate_migration_streams, BootstrapError, DistributionInit, RecipientShare, RegisterStreamParams, StreamAccrual, WeightRecord};

type Damage = fn(&mut Vec<RegisterStreamParams>);

const DENOM: u64 = 1_000_000;
const PERCENT: u64 = DENOM / 100;

fn weight(v_start: u64, slope: i64, floor: u64, cap: u64) -> WeightRecord {
    WeightRecord {
        v_start: v_start * PERCENT,
        slope,
        t_start: 100,
        floor: floor * PERCENT,
        cap: cap * PERCENT,
    }
}

fn explicit_stream() -> RegisterStreamParams {
    RegisterStreamParams {
        id: 2,
        weight: weight(5, 1, 5, 10),
        distribution: Some(DistributionInit {
            writer: Address::new_id(101),
            shares: vec![RecipientShare { recipient: Address::new_id(102), share: DENOM }],
        }),
        activation_epoch: 100,
    }
}

fn delegated(namespace: u64, subaddress: &[u8]) -> Address {
    let bytes = fvm_shared::address::Address::new_delegated(namespace, subaddress).unwrap().to_bytes();
    Address { protocol: bytes[0], payload: bytes[1..].to_vec() }
}

fn split_bootstrap() -> Vec<RegisterStreamParams> {
    vec![
        RegisterStreamParams {
            id: 1,
            weight: weight(95, -1, 50, 95),
            distribution: None,
            activation_epoch: 100,
        },
        explicit_stream(),
    ]
}

#[test]
fn split_bootstrap_installs_both_streams_and_one_zero_accrual() {
    let (streams, accrued) = validate_migration_streams(&split_bootstrap(), 100, DENOM).unwrap();

    assert_eq!(streams.streams.len(), 2);
    assert_eq!(streams.streams[0].id, 1);
    assert_eq!(streams.streams[0].weight, weight(95, -1, 50, 95));
    assert!(streams.streams[0].distribution.is_none());
    assert_eq!(streams.streams[1].id, 2);
    assert_eq!(streams.streams[1].weight, weight(5, 1, 5, 10));
    let distribution = streams.streams[1].distribution.as_ref().unwrap();
    assert_eq!(distribution.writer.to_bytes(), Address::new_id(101).to_bytes());
    assert_eq!(distribution.shares.len(), 1);
    assert_eq!(distribution.shares[0].recipient.to_bytes(), Address::new_id(102).to_bytes());
    assert_eq!(distribution.shares[0].share, DENOM);
    assert!(distribution.payable.is_empty());
    assert!(distribution.claimed_period.is_empty());
    assert_eq!(accrued, vec![StreamAccrual { id: 2, amount: 0 }]);
}

#[test]
fn neutral_bootstrap_installs_the_consensus_stream_alone() {
    let neutral = vec![RegisterStreamParams {
        id: 1,
        weight: weight(100, 0, 100, 100),
        distribution: None,
        activation_epoch: 100,
    }];

    let (streams, accrued) = validate_migration_streams(&neutral, 100, DENOM).unwrap();

    assert_eq!(streams.streams.len(), 1);
    assert_eq!(streams.streams[0].id, 1);
    assert_eq!(streams.streams[0].weight, weight(100, 0, 100, 100));
    assert!(streams.streams[0].distribution.is_none());
    assert!(accrued.is_empty());
}

#[test]
fn accepts_alternative_bootstrap_weights() {
    let mut params = split_bootstrap();
    params[0].weight = weight(80, -1, 60, 80);
    params[1].weight = weight(20, 1, 10, 20);

    validate_migration_streams(&params, 100, DENOM).unwrap();
}

#[test]
fn rejects_malformed_bootstraps() {
    let cases: [(&str, Damage, &str); 11] = [
        ("three streams", |p| p.push(p[1].clone()), "bootstrap requires one or two streams"),
        (
            "activation epoch mismatch",
            |p| p[0].activation_epoch += 1,
            "activation epoch 101 does not match upgrade epoch 100",
        ),
        (
            "weight start mismatch",
            |p| p[0].weight.t_start += 1,
            "weight start 101 does not match upgrade epoch 100",
        ),
        (
            "single stream that is not neutral",
            |p| p.truncate(1),
            "single-stream bootstrap must be implicit stream 1 at constant DENOM",
        ),
        ("service stream ID 3", |p| p[1].id = 3, "split bootstrap stream IDs must be 1 and 2"),
        (
            "two implicit streams",
            |p| p[1].distribution = None,
            "split bootstrap distribution forms are invalid",
        ),
        (
            "starting weights under-sum",
            |p| p[1].weight.v_start -= 1,
            "bootstrap starting weights must sum to denominator",
        ),
        ("unequal slopes", |p| p[1].weight.slope += 1, "bootstrap weight slopes are invalid"),
        (
            "partial share",
            |p| p[1].distribution.as_mut().unwrap().shares[0].share -= 1,
            "explicit bootstrap requires one full-share recipient",
        ),
        (
            "delegated writer",
            |p| p[1].distribution.as_mut().unwrap().writer = delegated(10, &[1]),
            "distribution writer f410",
        ),
        (
            "service cap above what the consensus floor leaves",
            |p| p[1].weight.cap = 60 * PERCENT,
            "stream weights exceed DENOM",
        ),
    ];

    for (case, damage, expected_error) in cases {
        let mut params = split_bootstrap();
        damage(&mut params);
        let error = validate_migration_streams(&params, 100, DENOM)
            .err()
            .unwrap_or_else(|| panic!("{case}: accepted"));
        assert!(error.message().contains(expected_error), "{case}: {}", error.message());
    }
}

#[test]
fn empty_bootstrap_is_refused() {
    assert_eq!(validate_migration_streams(&[], 100, DENOM).err(), Some(BootstrapError::StreamCount));
}

#[test]
fn second_stream_epoch_mismatch_names_that_stream() {
    let mut params = split_bootstrap();
    params[1].activation_epoch = 99;
    assert_eq!(
        validate_migration_streams(&params, 100, DENOM).err(),
        Some(BootstrapError::ActivationEpochMismatch { id: 2, activation_epoch: 99, upgrade_epoch: 100 })
    );
}

#[test]
fn starting_weights_above_denominator_are_refused() {
    let mut params = split_bootstrap();
    params[0].weight.v_start = DENOM + 1;
    assert_eq!(validate_migration_streams(&params, 100, DENOM).err(), Some(BootstrapError::StartingWeightsSum));
}

#[test]
fn explicit_consensus_stream_is_refused() {
    let mut params = split_bootstrap();
    params[0].distribution = Some(DistributionInit { writer: Address::new_id(7), shares: vec![] });
    assert_eq!(validate_migration_streams(&params, 100, DENOM).err(), Some(BootstrapError::SplitDistributionForms));
}

#[test]
fn service_cap_may_fill_what_the_consensus_floor_leaves() {
    let mut params = split_bootstrap();
    params[1].weight.cap = 50 * PERCENT;
    assert!(validate_migration_streams(&params, 100, DENOM).is_ok());
    params[1].weight.cap = 50 * PERCENT + 1;
    assert_eq!(validate_migration_streams(&params, 100, DENOM).err(), Some(BootstrapError::WeightsExceedDenominator));
}

#[test]
fn id_writer_is_accepted_delegated_writer_is_not() {
    let mut params = split_bootstrap();
    params[1].distribution.as_mut().unwrap().writer = delegated(10, &[0xab; 20]);
    assert_eq!(validate_migration_streams(&params, 100, DENOM).err(), Some(BootstrapError::DelegatedWriter { id: 2, namespace: Some(10) }));
}

#[test]
fn refusal_messages_name_streams_and_epochs() {
    let e = BootstrapError::ActivationEpochMismatch { id: 2, activation_epoch: -5, upgrade_epoch: 100 };
    assert_eq!(e.message(), "stream 2 activation epoch -5 does not match upgrade epoch 100");
    let e = BootstrapError::WeightStartMismatch { id: 1, t_start: 0, upgrade_epoch: 1_234_567 };
    assert_eq!(e.message(), "stream 1 weight start 0 does not match upgrade epoch 1234567");
    let e = BootstrapError::DelegatedWriter { id: 2, namespace: Some(300) };
    assert_eq!(e.message(), "stream 2 distribution writer f4300 is a delegated address");
    let mut params = split_bootstrap();
    params[1].distribution.as_mut().unwrap().writer = delegated(300, &[1, 2]);
    assert_eq!(validate_migration_streams(&params, 100, DENOM).err(), Some(e));
}
