//! The reward streams that a network upgrade installs, and the checks on their shape.
//!
//! Weights are fixed-point fractions of a denominator `denom`: a stream holding `denom`
//! receives the whole block reward.

use vstd::prelude::*;
use crate::address::{Address, PROTOCOL_DELEGATED};
use crate::text::{append, decimal, decimal_string, signed_decimal, signed_decimal_string};
use crate::varint::{leb128_decode, leb128_prefix};
use crate::policy::{ChainEpoch, TokenAmount};

verus! {

/// A stream's weight over time: `v_start` at `t_start`, changing by `slope` per epoch and
/// kept between `floor` and `cap`.
#[derive(Clone, Copy, Debug, PartialEq, Eq, Structural)]
pub struct WeightRecord {
    pub v_start: u64,
    pub slope: i64,
    pub t_start: ChainEpoch,
    pub floor: u64,
    pub cap: u64,
}

/// One recipient's share of an explicit distribution.
#[derive(Clone, Debug)]
pub struct RecipientShare {
    pub recipient: Address,
    pub share: u64,
}

/// An amount owed to or claimed by one recipient.
#[derive(Debug)]
pub struct RecipientAmount {
    pub recipient: Address,
    pub amount: TokenAmount,
}

/// The distribution a stream is registered with: who may rewrite it, and the shares.
#[derive(Clone, Debug)]
pub struct DistributionInit {
    pub writer: Address,
    pub shares: Vec<RecipientShare>,
}

/// The parameters of one stream to register.
#[derive(Clone, Debug)]
pub struct RegisterStreamParams {
    pub id: u64,
    pub weight: WeightRecord,
    pub distribution: Option<DistributionInit>,
    pub activation_epoch: ChainEpoch,
}

/// An explicit distribution as held in state: the writer, the shares, and the tables of
/// payable and claimed amounts.
#[derive(Debug)]
pub struct ExplicitDistribution {
    pub writer: Address,
    pub shares: Vec<RecipientShare>,
    pub payable: Vec<RecipientAmount>,
    pub claimed_period: Vec<RecipientAmount>,
}

/// A registered stream.
#[derive(Debug)]
pub struct Stream {
    pub id: u64,
    pub weight: WeightRecord,
    pub distribution: Option<ExplicitDistribution>,
}

/// The streams of the reward actor.
#[derive(Debug)]
pub struct StreamsState {
    pub streams: Vec<Stream>,
}

/// The reward accrued so far by a stream with an explicit distribution.
#[derive(Clone, Copy, Debug, PartialEq, Eq, Structural)]
pub struct StreamAccrual {
    pub id: u64,
    pub amount: TokenAmount,
}

/// Why a set of bootstrap streams is refused.
#[derive(Clone, Copy, Debug, PartialEq, Eq, Structural)]
pub enum BootstrapError {
    /// Bootstrap requires one or two streams.
    StreamCount,
    /// A stream's activation epoch is not the upgrade epoch.
    ActivationEpochMismatch { id: u64, activation_epoch: ChainEpoch, upgrade_epoch: ChainEpoch },
    /// A stream's weight starts at another epoch than the upgrade epoch.
    WeightStartMismatch { id: u64, t_start: ChainEpoch, upgrade_epoch: ChainEpoch },
    /// A single-stream bootstrap must be implicit stream 1 at constant `denom`.
    SingleStreamNotNeutral,
    /// Split bootstrap stream IDs must be 1 and 2.
    SplitStreamIds,
    /// In a split bootstrap stream 1 must be implicit and stream 2 explicit.
    SplitDistributionForms,
    /// Bootstrap starting weights must sum to the denominator.
    StartingWeightsSum,
    /// The two weight slopes must be equal and opposite, stream 1 falling.
    SlopesInvalid,
    /// The explicit stream must have one recipient with the full share.
    ShareNotFull,
    /// A distribution writer may not be a delegated (f4) address; its namespace, when the
    /// address holds a readable one.
    DelegatedWriter { id: u64, namespace: Option<u64> },
    /// The streams' weights can together exceed the denominator: the consensus stream's
    /// floor plus the caps of the other streams is more than `denom`.
    WeightsExceedDenominator,
}

/// A share as a plain value: the recipient's address bytes and the share.
pub open spec fn share_view(s: RecipientShare) -> (Seq<u8>, u64) {
    (s.recipient@, s.share)
}

/// A list of shares as plain values.
pub open spec fn shares_view(s: Seq<RecipientShare>) -> Seq<(Seq<u8>, u64)> {
    s.map_values(|x: RecipientShare| share_view(x))
}

/// The weight of the neutral stream: constant `denom` from `epoch`.
pub open spec fn neutral_weight(denom: u64, epoch: ChainEpoch) -> WeightRecord {
    WeightRecord { v_start: denom, slope: 0, t_start: epoch, floor: denom, cap: denom }
}

/// The epoch error, if any, of one stream's parameters.
pub open spec fn epoch_error(p: RegisterStreamParams, activation_epoch: ChainEpoch) -> Option<BootstrapError> {
    if p.activation_epoch != activation_epoch {
        Some(BootstrapError::ActivationEpochMismatch { id: p.id, activation_epoch: p.activation_epoch, upgrade_epoch: activation_epoch })
    } else if p.weight.t_start != activation_epoch {
        Some(BootstrapError::WeightStartMismatch { id: p.id, t_start: p.weight.t_start, upgrade_epoch: activation_epoch })
    } else {
        None
    }
}

/// The shape error, if any, of one or two stream parameters whose epochs match.
pub open spec fn shape_error(ps: Seq<RegisterStreamParams>, activation_epoch: ChainEpoch, denom: u64) -> Option<BootstrapError> {
    if ps.len() == 1 {
        let c = ps[0];
        if c.id == 1 && c.distribution is None && c.weight == neutral_weight(denom, activation_epoch) {
            None
        } else {
            Some(BootstrapError::SingleStreamNotNeutral)
        }
    } else {
        let c = ps[0];
        let x = ps[1];
        if !(c.id == 1 && x.id == 2) {
            Some(BootstrapError::SplitStreamIds)
        } else if !(c.distribution is None && x.distribution is Some) {
            Some(BootstrapError::SplitDistributionForms)
        } else if !(c.weight.v_start <= denom && x.weight.v_start == denom - c.weight.v_start) {
            Some(BootstrapError::StartingWeightsSum)
        } else if !(c.weight.slope < 0 && x.weight.slope > 0 && c.weight.slope == -x.weight.slope) {
            Some(BootstrapError::SlopesInvalid)
        } else if !(x.distribution->0.shares@.len() == 1 && x.distribution->0.shares@[0].share == denom) {
            Some(BootstrapError::ShareNotFull)
        } else {
            None
        }
    }
}

/// The namespace of a stream's distribution writer: the LEB128 number (of at most nine
/// bytes) that starts its payload.
pub open spec fn writer_namespace(p: RegisterStreamParams) -> Option<u64> {
    match leb128_prefix(p.distribution->0.writer.payload@, 9) {
        Some(v) => Some(v as u64),
        None => None,
    }
}

/// Whether stream parameters name a distribution written by a delegated address.
pub open spec fn delegated_writer(p: RegisterStreamParams) -> bool {
    p.distribution is Some && p.distribution->0.writer.protocol == PROTOCOL_DELEGATED
}

/// The error, if any, of the streams a well-shaped bootstrap installs, in stream order: a
/// distribution written by a delegated address, or weights that can together exceed the
/// denominator (the consensus stream's floor plus the other stream's cap).
pub open spec fn streams_state_error(ps: Seq<RegisterStreamParams>, denom: u64) -> Option<BootstrapError> {
    if ps.len() >= 1 && delegated_writer(ps[0]) {
        Some(BootstrapError::DelegatedWriter { id: ps[0].id, namespace: writer_namespace(ps[0]) })
    } else if ps.len() == 2 && delegated_writer(ps[1]) {
        Some(BootstrapError::DelegatedWriter { id: ps[1].id, namespace: writer_namespace(ps[1]) })
    } else if ps.len() == 2 && ps[0].weight.floor + ps[1].weight.cap > denom {
        Some(BootstrapError::WeightsExceedDenominator)
    } else {
        None
    }
}

/// The first reason, in the order of the checks, to refuse the bootstrap streams.
pub open spec fn bootstrap_error(ps: Seq<RegisterStreamParams>, activation_epoch: ChainEpoch, denom: u64) -> Option<BootstrapError> {
    if !(ps.len() == 1 || ps.len() == 2) {
        Some(BootstrapError::StreamCount)
    } else if epoch_error(ps[0], activation_epoch) is Some {
        epoch_error(ps[0], activation_epoch)
    } else if ps.len() == 2 && epoch_error(ps[1], activation_epoch) is Some {
        epoch_error(ps[1], activation_epoch)
    } else if shape_error(ps, activation_epoch, denom) is Some {
        shape_error(ps, activation_epoch, denom)
    } else {
        streams_state_error(ps, denom)
    }
}

/// Whether stream `s` is what the bootstrap installs for parameters `p`: the same id and
/// weight, and the registered distribution (if any) with empty payable and claimed tables.
pub open spec fn installed_as(s: Stream, p: RegisterStreamParams) -> bool {
    &&& s.id == p.id
    &&& s.weight == p.weight
    &&& (s.distribution is Some <==> p.distribution is Some)
    &&& s.distribution is Some ==> {
        let d = s.distribution->0;
        let init = p.distribution->0;
        &&& d.writer@ == init.writer@
        &&& shares_view(d.shares@) == shares_view(init.shares@)
        &&& d.payable@.len() == 0
        &&& d.claimed_period@.len() == 0
    }
}

/// The ids of the streams with an explicit distribution, in order.
pub open spec fn accrual_ids(ps: Seq<RegisterStreamParams>) -> Seq<u64>
    decreases ps.len(),
{
    if ps.len() == 0 {
        Seq::empty()
    } else {
        let rest = accrual_ids(ps.drop_last());
        if ps.last().distribution is Some {
            rest.push(ps.last().id)
        } else {
            rest
        }
    }
}

fn clone_shares(shares: &Vec<RecipientShare>) -> (res: Vec<RecipientShare>)
    ensures
        shares_view(res@) == shares_view(shares@),
{
    let mut res: Vec<RecipientShare> = Vec::new();
    let mut i: usize = 0;
    while i < shares.len()
        invariant
            i <= shares@.len(),
            res@.len() == i,
            shares_view(res@) == shares_view(shares@.subrange(0, i as int)),
        decreases shares@.len() - i,
    {
        let s = &shares[i];
        let ghost before = res@;
        let item = RecipientShare { recipient: s.recipient.clone(), share: s.share };
        assert(share_view(item) == share_view(shares@[i as int]));
        res.push(item);
        assert forall|j: int| 0 <= j < i + 1 implies #[trigger] shares_view(res@)[j] == shares_view(shares@.subrange(0, i + 1))[j] by {
            if j < i {
                assert(res@[j] == before[j]);
                assert(shares_view(before)[j] == shares_view(shares@.subrange(0, i as int))[j]);
            }
        }
        assert(shares_view(res@) =~= shares_view(shares@.subrange(0, i + 1)));
        i = i + 1;
    }
    assert(shares@.subrange(0, shares@.len() as int) =~= shares@);
    res
}

fn install_stream(p: &RegisterStreamParams) -> (res: Stream)
    ensures
        installed_as(res, *p),
{
    let distribution = match &p.distribution {
        None => None,
        Some(init) => Some(ExplicitDistribution {
            writer: init.writer.clone(),
            shares: clone_shares(&init.shares),
            payable: Vec::new(),
            claimed_period: Vec::new(),
        }),
    };
    Stream { id: p.id, weight: p.weight, distribution }
}

/// Builds and checks the streams a network upgrade installs at `activation_epoch`: stream
/// 1 alone at constant `denom`, or streams 1 and 2 with equal and opposite slopes, starting
/// weights summing to `denom` and one full-share recipient, all starting at
/// `activation_epoch`. Returns the streams and a zero accrual for each stream with an
/// explicit distribution, or the first reason to refuse them.
pub fn validate_migration_streams(params: &[RegisterStreamParams], activation_epoch: ChainEpoch, denom: u64) -> (res: Result<(StreamsState, Vec<StreamAccrual>), BootstrapError>)
    ensures
        match bootstrap_error(params@, activation_epoch, denom) {
            Some(e) => res == Err::<(StreamsState, Vec<StreamAccrual>), BootstrapError>(e),
            None => res is Ok && {
                let (streams, accrued) = res->Ok_0;
                &&& streams.streams@.len() == params@.len()
                &&& forall|i: int| 0 <= i < params@.len() ==> installed_as(#[trigger] streams.streams@[i], params@[i])
                &&& accrued@.map_values(|a: StreamAccrual| a.id) == accrual_ids(params@)
                &&& forall|i: int| 0 <= i < accrued@.len() ==> (#[trigger] accrued@[i]).amount == 0
            },
        },
{
    if !(params.len() == 1 || params.len() == 2) {
        return Err(BootstrapError::StreamCount);
    }
    let mut k: usize = 0;
    while k < params.len()
        invariant
            params@.len() == 1 || params@.len() == 2,
            k <= params@.len(),
            forall|j: int| 0 <= j < k ==> epoch_error(#[trigger] params@[j], activation_epoch) is None,
        decreases params@.len() - k,
    {
        let p = &params[k];
        if p.activation_epoch != activation_epoch {
            return Err(BootstrapError::ActivationEpochMismatch { id: p.id, activation_epoch: p.activation_epoch, upgrade_epoch: activation_epoch });
        }
        if p.weight.t_start != activation_epoch {
            return Err(BootstrapError::WeightStartMismatch { id: p.id, t_start: p.weight.t_start, upgrade_epoch: activation_epoch });
        }
        k = k + 1;
    }
    assert(epoch_error(params@[0], activation_epoch) is None);
    if params.len() == 1 {
        let consensus = &params[0];
        let neutral = WeightRecord { v_start: denom, slope: 0, t_start: activation_epoch, floor: denom, cap: denom };
        let is_neutral = consensus.weight.v_start == neutral.v_start && consensus.weight.slope == neutral.slope
            && consensus.weight.t_start == neutral.t_start && consensus.weight.floor == neutral.floor
            && consensus.weight.cap == neutral.cap;
        if !(consensus.id == 1 && consensus.distribution.is_none() && is_neutral) {
            return Err(BootstrapError::SingleStreamNotNeutral);
        }
    } else {
        assert(epoch_error(params@[1], activation_epoch) is None);
        let consensus = &params[0];
        let explicit = &params[1];
        if !(consensus.id == 1 && explicit.id == 2) {
            return Err(BootstrapError::SplitStreamIds);
        }
        let distribution = match (&consensus.distribution, &explicit.distribution) {
            (None, Some(distribution)) => distribution,
            _ => {
                return Err(BootstrapError::SplitDistributionForms);
            },
        };
        if !(consensus.weight.v_start <= denom && explicit.weight.v_start == denom - consensus.weight.v_start) {
            return Err(BootstrapError::StartingWeightsSum);
        }
        if !(consensus.weight.slope < 0 && explicit.weight.slope > 0 && consensus.weight.slope == -explicit.weight.slope) {
            return Err(BootstrapError::SlopesInvalid);
        }
        if !(distribution.shares.len() == 1 && distribution.shares[0].share == denom) {
            return Err(BootstrapError::ShareNotFull);
        }
    }
    assert(shape_error(params@, activation_epoch, denom) is None);
    let mut j: usize = 0;
    while j < params.len()
        invariant
            params@.len() == 1 || params@.len() == 2,
            epoch_error(params@[0], activation_epoch) is None,
            params@.len() == 2 ==> epoch_error(params@[1], activation_epoch) is None,
            shape_error(params@, activation_epoch, denom) is None,
            j <= params@.len(),
            forall|k: int| 0 <= k < j ==> !delegated_writer(#[trigger] params@[k]),
        decreases params@.len() - j,
    {
        match &params[j].distribution {
            Some(d) => {
                if d.writer.protocol == PROTOCOL_DELEGATED {
                    let namespace = leb128_decode(d.writer.payload.as_slice(), 0, 9);
                    assert(d.writer.payload@.skip(0) =~= d.writer.payload@);
                    return Err(BootstrapError::DelegatedWriter { id: params[j].id, namespace });
                }
            },
            None => {},
        }
        j = j + 1;
    }
    if params.len() == 2 && params[0].weight.floor as u128 + params[1].weight.cap as u128 > denom as u128 {
        return Err(BootstrapError::WeightsExceedDenominator);
    }
    let mut streams: Vec<Stream> = Vec::new();
    let mut accrued: Vec<StreamAccrual> = Vec::new();
    let mut i: usize = 0;
    while i < params.len()
        invariant
            i <= params@.len(),
            streams@.len() == i,
            forall|j: int| 0 <= j < i ==> installed_as(#[trigger] streams@[j], params@[j]),
            accrued@.map_values(|a: StreamAccrual| a.id) == accrual_ids(params@.subrange(0, i as int)),
            forall|j: int| 0 <= j < accrued@.len() ==> (#[trigger] accrued@[j]).amount == 0,
        decreases params@.len() - i,
    {
        let param = &params[i];
        assert(params@.subrange(0, i + 1).drop_last() =~= params@.subrange(0, i as int));
        if param.distribution.is_some() {
            accrued.push(StreamAccrual { id: param.id, amount: 0 });
        }
        assert(accrued@.map_values(|a: StreamAccrual| a.id) =~= accrual_ids(params@.subrange(0, i + 1)));
        streams.push(install_stream(param));
        i = i + 1;
    }
    assert(params@.subrange(0, params@.len() as int) =~= params@);
    Ok((StreamsState { streams }, accrued))
}

/// An accepted bootstrap gives the whole reward to the streams and keeps it whole as time
/// passes: a single stream is the neutral one at `denom`; two streams start with weights
/// summing to `denom`, change by opposite slopes, never sum above `denom` (the first's floor
/// plus the second's cap is within it), and the second pays one recipient the full share.
/// No distribution is written by a delegated address.
pub proof fn lemma_accepted_bootstrap_conserves_weight(ps: Seq<RegisterStreamParams>, activation_epoch: ChainEpoch, denom: u64)
    requires
        bootstrap_error(ps, activation_epoch, denom) is None,
    ensures
        ps.len() == 1 ==> ps[0].weight == neutral_weight(denom, activation_epoch) && ps[0].id == 1,
        ps.len() == 2 ==> {
            &&& ps[0].weight.v_start + ps[1].weight.v_start == denom
            &&& ps[0].weight.slope + ps[1].weight.slope == 0
            &&& ps[0].weight.slope < 0
            &&& ps[0].distribution is None
            &&& ps[1].distribution is Some
            &&& ps[1].distribution->0.shares@.len() == 1
            &&& ps[1].distribution->0.shares@[0].share == denom
            &&& ps[0].weight.floor + ps[1].weight.cap <= denom
        },
        forall|i: int| 0 <= i < ps.len() ==> !delegated_writer(#[trigger] ps[i]),
        forall|i: int| 0 <= i < ps.len() ==> (#[trigger] ps[i]).activation_epoch == activation_epoch && ps[i].weight.t_start == activation_epoch,
{
}


/// The text of a bootstrap refusal.
pub open spec fn message_spec(e: BootstrapError) -> Seq<char> {
    match e {
        BootstrapError::StreamCount => "bootstrap requires one or two streams"@,
        BootstrapError::ActivationEpochMismatch { id, activation_epoch, upgrade_epoch } =>
            "stream "@ + decimal(id as nat) + " activation epoch "@ + signed_decimal(activation_epoch as int)
                + " does not match upgrade epoch "@ + signed_decimal(upgrade_epoch as int),
        BootstrapError::WeightStartMismatch { id, t_start, upgrade_epoch } =>
            "stream "@ + decimal(id as nat) + " weight start "@ + signed_decimal(t_start as int)
                + " does not match upgrade epoch "@ + signed_decimal(upgrade_epoch as int),
        BootstrapError::SingleStreamNotNeutral => "single-stream bootstrap must be implicit stream 1 at constant DENOM"@,
        BootstrapError::SplitStreamIds => "split bootstrap stream IDs must be 1 and 2"@,
        BootstrapError::SplitDistributionForms => "split bootstrap distribution forms are invalid"@,
        BootstrapError::StartingWeightsSum => "bootstrap starting weights must sum to denominator"@,
        BootstrapError::SlopesInvalid => "bootstrap weight slopes are invalid"@,
        BootstrapError::ShareNotFull => "explicit bootstrap requires one full-share recipient"@,
        BootstrapError::DelegatedWriter { id, namespace } => match namespace {
            Some(ns) => "stream "@ + decimal(id as nat) + " distribution writer f4"@ + decimal(ns as nat)
                + " is a delegated address"@,
            None => "stream "@ + decimal(id as nat) + " distribution writer f4"@ + " is a delegated address"@,
        },
        BootstrapError::WeightsExceedDenominator => "stream weights exceed DENOM"@,
    }
}

impl BootstrapError {
    /// The text of the refusal.
    pub fn message(&self) -> (res: String)
        ensures
            res@ == message_spec(*self),
    {
        match self {
            BootstrapError::StreamCount => "bootstrap requires one or two streams".to_owned(),
            BootstrapError::ActivationEpochMismatch { id, activation_epoch, upgrade_epoch } =>
                append(append(append(append(append("stream ".to_owned(), decimal_string(*id)), " activation epoch ".to_owned()),
                    signed_decimal_string(*activation_epoch)), " does not match upgrade epoch ".to_owned()),
                    signed_decimal_string(*upgrade_epoch)),
            BootstrapError::WeightStartMismatch { id, t_start, upgrade_epoch } =>
                append(append(append(append(append("stream ".to_owned(), decimal_string(*id)), " weight start ".to_owned()),
                    signed_decimal_string(*t_start)), " does not match upgrade epoch ".to_owned()),
                    signed_decimal_string(*upgrade_epoch)),
            BootstrapError::SingleStreamNotNeutral => "single-stream bootstrap must be implicit stream 1 at constant DENOM".to_owned(),
            BootstrapError::SplitStreamIds => "split bootstrap stream IDs must be 1 and 2".to_owned(),
            BootstrapError::SplitDistributionForms => "split bootstrap distribution forms are invalid".to_owned(),
            BootstrapError::StartingWeightsSum => "bootstrap starting weights must sum to denominator".to_owned(),
            BootstrapError::SlopesInvalid => "bootstrap weight slopes are invalid".to_owned(),
            BootstrapError::ShareNotFull => "explicit bootstrap requires one full-share recipient".to_owned(),
            BootstrapError::DelegatedWriter { id, namespace } => match namespace {
                Some(ns) => append(append(append(append("stream ".to_owned(), decimal_string(*id)), " distribution writer f4".to_owned()),
                    decimal_string(*ns)), " is a delegated address".to_owned()),
                None => append(append(append("stream ".to_owned(), decimal_string(*id)), " distribution writer f4".to_owned()),
                    " is a delegated address".to_owned()),
            },
            BootstrapError::WeightsExceedDenominator => "stream weights exceed DENOM".to_owned(),
        }
    }
}

} // verus!
