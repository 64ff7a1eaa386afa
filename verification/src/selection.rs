//! The selection strategies: each maps a non-empty sequence of candidates to
//! exactly one of them.
//!
//! Every strategy but the shuffle scores each candidate with an integer and
//! returns the first candidate, in input order, whose score is the lowest.
//! Scores that are ratios in words are compared as integers over a common
//! denominator, so no rounding takes part in a decision.

use crate::config::{effective_limit, limit_or, RouterConfig, DEFAULT_RPM_LIMIT, DEFAULT_TPM_LIMIT};
use crate::deployment::{views_of, Deployment, DeploymentView};
use crate::error::{no_selection_text, RouterError};
use crate::strategy::RoutingStrategy;
use rand::seq::SliceRandom;
use vstd::prelude::*;

verus! {

/// Microseconds of average latency that weigh as much as one request per
/// minute in the penalty score: a hundred milliseconds.
pub const PENALTY_MICROS_PER_REQUEST: u64 = 100000;

/// A cost field as selection reads it: a missing field counts as zero.
pub open spec fn cost_or_zero(cost: Option<u64>) -> int {
    match cost {
        Some(amount) => amount as int,
        None => 0,
    }
}

/// The score by which `strategy` ranks a candidate; lower is better.
///
/// * `LeastBusy`: the requests per minute.
/// * `LatencyBased`: the average latency, so a deployment without samples,
///   whose average is zero, comes first.
/// * `CostBased`: input plus output cost per token.
/// * `UsageBasedV1`: requests plus tokens per minute.
/// * `UsageBasedV2`: `rpm / rpm_limit + tpm / tpm_limit`, multiplied by
///   `rpm_limit * tpm_limit`.
/// * `LeastBusyWithPenalty`: `rpm + latency_ms / 100`, multiplied by the
///   microseconds in a hundred milliseconds.
/// * `SimpleShuffle` does not rank.
pub open spec fn score(
    strategy: RoutingStrategy,
    rpm_limit: Option<u64>,
    tpm_limit: Option<u64>,
    candidate: DeploymentView,
) -> int {
    match strategy {
        RoutingStrategy::SimpleShuffle => 0,
        RoutingStrategy::LeastBusy => candidate.current_rpm as int,
        RoutingStrategy::LatencyBased => candidate.avg_latency_us as int,
        RoutingStrategy::CostBased => cost_or_zero(candidate.model_info.input_cost_per_token)
            + cost_or_zero(candidate.model_info.output_cost_per_token),
        RoutingStrategy::UsageBasedV1 => candidate.current_rpm + candidate.current_tpm,
        RoutingStrategy::UsageBasedV2 => candidate.current_rpm * limit_or(
            tpm_limit,
            DEFAULT_TPM_LIMIT,
        ) + candidate.current_tpm * limit_or(rpm_limit, DEFAULT_RPM_LIMIT),
        RoutingStrategy::LeastBusyWithPenalty => candidate.current_rpm * PENALTY_MICROS_PER_REQUEST
            + candidate.avg_latency_us,
    }
}

/// The scores of all candidates, in input order.
pub open spec fn scores(
    strategy: RoutingStrategy,
    rpm_limit: Option<u64>,
    tpm_limit: Option<u64>,
    candidates: Seq<DeploymentView>,
) -> Seq<int> {
    Seq::new(candidates.len(), |i: int| score(strategy, rpm_limit, tpm_limit, candidates[i]))
}

/// `i` is the place of the lowest value, and of the earliest one where the
/// lowest value occurs more than once.
pub open spec fn is_first_minimum(values: Seq<int>, i: int) -> bool {
    &&& 0 <= i < values.len()
    &&& forall|j: int| 0 <= j < values.len() ==> values[i] <= values[j]
    &&& forall|j: int| 0 <= j < i ==> values[i] < values[j]
}

/// The place of the first minimum of a non-empty sequence.
pub open spec fn first_minimum(values: Seq<int>) -> int {
    choose|i: int| is_first_minimum(values, i)
}

/// The place, among the candidates, of the one that a ranking strategy
/// selects.
pub open spec fn selected_index(
    strategy: RoutingStrategy,
    rpm_limit: Option<u64>,
    tpm_limit: Option<u64>,
    candidates: Seq<DeploymentView>,
) -> int {
    first_minimum(scores(strategy, rpm_limit, tpm_limit, candidates))
}

/// What a ranking strategy owes its caller: the no-candidates error for an
/// empty input, and otherwise the candidate at the selected place.
pub open spec fn selection_made(
    strategy: RoutingStrategy,
    rpm_limit: Option<u64>,
    tpm_limit: Option<u64>,
    candidates: Seq<Deployment>,
    outcome: Result<&Deployment, RouterError>,
) -> bool {
    if candidates.len() == 0 {
        outcome is Err && outcome->Err_0 is NoCandidates
    } else {
        let at = selected_index(strategy, rpm_limit, tpm_limit, views_of(candidates));
        &&& 0 <= at < candidates.len()
        &&& outcome matches Ok(chosen) && *chosen == candidates[at]
    }
}

/// What the shuffle owes its caller: the no-candidates error for an empty
/// input, and otherwise some member of the candidates.
pub open spec fn shuffle_made(
    candidates: Seq<Deployment>,
    outcome: Result<&Deployment, RouterError>,
) -> bool {
    if candidates.len() == 0 {
        outcome is Err && outcome->Err_0 is NoCandidates
    } else {
        outcome matches Ok(chosen) && candidates.contains(*chosen)
    }
}

/// A sequence has at most one first minimum.
pub proof fn lemma_first_minimum_unique(values: Seq<int>, i: int, j: int)
    requires
        is_first_minimum(values, i),
        is_first_minimum(values, j),
    ensures
        i == j,
{
    if i < j {
        assert(values[j] < values[i]);
    } else if j < i {
        assert(values[i] < values[j]);
    }
}

/// Every non-empty sequence has a first minimum, and `first_minimum` names
/// it.
pub proof fn lemma_first_minimum_exists(values: Seq<int>)
    requires
        values.len() > 0,
    ensures
        is_first_minimum(values, first_minimum(values)),
    decreases values.len(),
{
    if values.len() == 1 {
        assert(is_first_minimum(values, 0));
    } else {
        let front = values.drop_last();
        lemma_first_minimum_exists(front);
        let before = first_minimum(front);
        let last = values.len() - 1;
        if values[last] < front[before] {
            assert forall|j: int| 0 <= j < values.len() implies values[last] <= values[j] by {
                if j < last {
                    assert(front[j] == values[j]);
                }
            }
            assert forall|j: int| 0 <= j < last implies values[last] < values[j] by {
                assert(front[j] == values[j]);
            }
            assert(is_first_minimum(values, last));
        } else {
            assert forall|j: int| 0 <= j < values.len() implies values[before] <= values[j] by {
                if j < last {
                    assert(front[j] == values[j]);
                }
            }
            assert forall|j: int| 0 <= j < before implies values[before] < values[j] by {
                assert(front[j] == values[j]);
            }
            assert(is_first_minimum(values, before));
        }
    }
}

/// A place that a scan has found to be the first minimum is the one that
/// `first_minimum` names.
pub proof fn lemma_found_first_minimum(values: Seq<int>, best: int)
    requires
        is_first_minimum(values, best),
    ensures
        first_minimum(values) == best,
{
    lemma_first_minimum_unique(values, first_minimum(values), best);
}

/// Whatever the strategy and the limits, the selected place lies among the
/// candidates: a strategy never makes up a deployment.
pub proof fn lemma_selected_is_candidate(
    strategy: RoutingStrategy,
    rpm_limit: Option<u64>,
    tpm_limit: Option<u64>,
    candidates: Seq<DeploymentView>,
)
    requires
        candidates.len() > 0,
    ensures
        0 <= selected_index(strategy, rpm_limit, tpm_limit, candidates) < candidates.len(),
        is_first_minimum(
            scores(strategy, rpm_limit, tpm_limit, candidates),
            selected_index(strategy, rpm_limit, tpm_limit, candidates),
        ),
{
    lemma_first_minimum_exists(scores(strategy, rpm_limit, tpm_limit, candidates));
}

/// With a single candidate every ranking strategy selects it.
pub proof fn lemma_single_candidate_is_selected(
    strategy: RoutingStrategy,
    rpm_limit: Option<u64>,
    tpm_limit: Option<u64>,
    candidates: Seq<DeploymentView>,
)
    requires
        candidates.len() == 1,
    ensures
        selected_index(strategy, rpm_limit, tpm_limit, candidates) == 0,
{
    lemma_selected_is_candidate(strategy, rpm_limit, tpm_limit, candidates);
}

/// Where no candidate exposes a cost field, cost-based selection falls back
/// to the first candidate in input order.
pub proof fn lemma_cost_based_falls_back_to_first(candidates: Seq<DeploymentView>)
    requires
        candidates.len() > 0,
        forall|i: int|
            0 <= i < candidates.len() ==> (#[trigger] candidates[i]).model_info.input_cost_per_token
                is None && candidates[i].model_info.output_cost_per_token is None,
    ensures
        selected_index(RoutingStrategy::CostBased, None, None, candidates) == 0,
{
    let values = scores(RoutingStrategy::CostBased, None, None, candidates);
    assert forall|j: int| 0 <= j < values.len() implies values[0] <= #[trigger] values[j] by {
        assert(candidates[j].model_info.input_cost_per_token is None);
        assert(candidates[0].model_info.input_cost_per_token is None);
    }
    assert(is_first_minimum(values, 0));
    lemma_found_first_minimum(values, 0);
}

/// Where some candidate has no latency sample yet, latency-based selection
/// takes such a candidate: a cold deployment comes before every warm one.
pub proof fn lemma_cold_deployment_is_preferred(candidates: Seq<DeploymentView>, cold: int)
    requires
        0 <= cold < candidates.len(),
        candidates[cold].avg_latency_us == 0,
    ensures
        candidates[selected_index(
            RoutingStrategy::LatencyBased,
            None,
            None,
            candidates,
        )].avg_latency_us == 0,
{
    let values = scores(RoutingStrategy::LatencyBased, None, None, candidates);
    lemma_first_minimum_exists(values);
    let at = first_minimum(values);
    assert(values[at] <= values[cold]);
}

/// Least busy: the first candidate with the fewest requests per minute.
pub fn least_busy<'a>(candidates: &'a Vec<Deployment>) -> (outcome: Result<
    &'a Deployment,
    RouterError,
>)
    ensures
        selection_made(RoutingStrategy::LeastBusy, None, None, candidates@, outcome),
{
    if candidates.len() == 0 {
        return Err(RouterError::NoCandidates);
    }
    let ghost values = scores(RoutingStrategy::LeastBusy, None, None, views_of(candidates@));
    let mut best: usize = 0;
    let mut lowest: u64 = candidates[0].get_current_rpm();
    let mut i: usize = 1;
    while i < candidates.len()
        invariant
            values == scores(RoutingStrategy::LeastBusy, None, None, views_of(candidates@)),
            best < i <= candidates.len(),
            lowest == values[best as int],
            forall|j: int| 0 <= j < i ==> lowest <= values[j],
            forall|j: int| 0 <= j < best ==> lowest < values[j],
        decreases candidates.len() - i,
    {
        let rpm: u64 = candidates[i].get_current_rpm();
        assert(rpm == values[i as int]);
        if rpm < lowest {
            lowest = rpm;
            best = i;
        }
        i += 1;
    }
    proof {
        lemma_found_first_minimum(values, best as int);
    }
    Ok(&candidates[best])
}

/// Latency based: the first candidate with the lowest average latency.
pub fn latency_based<'a>(candidates: &'a Vec<Deployment>) -> (outcome: Result<
    &'a Deployment,
    RouterError,
>)
    ensures
        selection_made(RoutingStrategy::LatencyBased, None, None, candidates@, outcome),
{
    if candidates.len() == 0 {
        return Err(RouterError::NoCandidates);
    }
    let ghost values = scores(RoutingStrategy::LatencyBased, None, None, views_of(candidates@));
    let mut best: usize = 0;
    let mut lowest: u64 = candidates[0].get_avg_latency();
    let mut i: usize = 1;
    while i < candidates.len()
        invariant
            values == scores(RoutingStrategy::LatencyBased, None, None, views_of(candidates@)),
            best < i <= candidates.len(),
            lowest == values[best as int],
            forall|j: int| 0 <= j < i ==> lowest <= values[j],
            forall|j: int| 0 <= j < best ==> lowest < values[j],
        decreases candidates.len() - i,
    {
        let latency: u64 = candidates[i].get_avg_latency();
        assert(latency == values[i as int]);
        if latency < lowest {
            lowest = latency;
            best = i;
        }
        i += 1;
    }
    proof {
        lemma_found_first_minimum(values, best as int);
    }
    Ok(&candidates[best])
}

/// The cost per token of one candidate, input and output together, with a
/// missing field counted as zero.
pub fn total_cost(candidate: &Deployment) -> (cost: u128)
    ensures
        cost == score(RoutingStrategy::CostBased, None, None, candidate@),
{
    let info = candidate.model_info();
    let input: u64 = match info.input_cost_per_token {
        Some(amount) => amount,
        None => 0,
    };
    let output: u64 = match info.output_cost_per_token {
        Some(amount) => amount,
        None => 0,
    };
    input as u128 + output as u128
}

/// Cost based: the first candidate with the lowest cost per token. Where no
/// candidate exposes a cost, that is the first candidate.
pub fn cost_based<'a>(candidates: &'a Vec<Deployment>) -> (outcome: Result<
    &'a Deployment,
    RouterError,
>)
    ensures
        selection_made(RoutingStrategy::CostBased, None, None, candidates@, outcome),
{
    if candidates.len() == 0 {
        return Err(RouterError::NoCandidates);
    }
    let ghost values = scores(RoutingStrategy::CostBased, None, None, views_of(candidates@));
    let mut best: usize = 0;
    let mut lowest: u128 = total_cost(&candidates[0]);
    let mut i: usize = 1;
    while i < candidates.len()
        invariant
            values == scores(RoutingStrategy::CostBased, None, None, views_of(candidates@)),
            best < i <= candidates.len(),
            lowest == values[best as int],
            forall|j: int| 0 <= j < i ==> lowest <= values[j],
            forall|j: int| 0 <= j < best ==> lowest < values[j],
        decreases candidates.len() - i,
    {
        let cost: u128 = total_cost(&candidates[i]);
        assert(cost == values[i as int]);
        if cost < lowest {
            lowest = cost;
            best = i;
        }
        i += 1;
    }
    proof {
        lemma_found_first_minimum(values, best as int);
    }
    Ok(&candidates[best])
}

/// Usage based, first form: the first candidate with the lowest sum of
/// requests and tokens per minute.
pub fn usage_based_v1<'a>(candidates: &'a Vec<Deployment>) -> (outcome: Result<
    &'a Deployment,
    RouterError,
>)
    ensures
        selection_made(RoutingStrategy::UsageBasedV1, None, None, candidates@, outcome),
{
    if candidates.len() == 0 {
        return Err(RouterError::NoCandidates);
    }
    let ghost values = scores(RoutingStrategy::UsageBasedV1, None, None, views_of(candidates@));
    let mut best: usize = 0;
    let mut lowest: u128 = candidates[0].get_current_rpm() as u128 + candidates[0].get_current_tpm() as u128;
    let mut i: usize = 1;
    while i < candidates.len()
        invariant
            values == scores(RoutingStrategy::UsageBasedV1, None, None, views_of(candidates@)),
            best < i <= candidates.len(),
            lowest == values[best as int],
            forall|j: int| 0 <= j < i ==> lowest <= values[j],
            forall|j: int| 0 <= j < best ==> lowest < values[j],
        decreases candidates.len() - i,
    {
        let rpm: u64 = candidates[i].get_current_rpm();
        let tpm: u64 = candidates[i].get_current_tpm();
        let usage: u128 = rpm as u128 + tpm as u128;
        assert(usage == values[i as int]);
        if usage < lowest {
            lowest = usage;
            best = i;
        }
        i += 1;
    }
    proof {
        lemma_found_first_minimum(values, best as int);
    }
    Ok(&candidates[best])
}

/// The product of two 64-bit numbers, which always fits 128 bits.
pub fn wide_product(left: u64, right: u64) -> (product: u128)
    ensures
        product == left * right,
{
    assert(left * right <= u64::MAX * u64::MAX) by (nonlinear_arith)
        requires
            0 <= left <= u64::MAX,
            0 <= right <= u64::MAX,
    ;
    (left as u128) * (right as u128)
}

/// Whether `a + b < c + d`, decided without forming either sum.
pub fn sum_is_less(a: u128, b: u128, c: u128, d: u128) -> (less: bool)
    ensures
        less == (a + b < c + d),
{
    if a >= c {
        d > b && a - c < d - b
    } else {
        b <= d || b - d < c - a
    }
}

/// Usage based, second form: the first candidate with the lowest load
/// relative to the limits, `rpm / rpm_limit + tpm / tpm_limit`. A limit that
/// is missing or zero is replaced by its default.
pub fn usage_based_v2<'a>(
    candidates: &'a Vec<Deployment>,
    rpm_limit: Option<u64>,
    tpm_limit: Option<u64>,
) -> (outcome: Result<&'a Deployment, RouterError>)
    ensures
        selection_made(RoutingStrategy::UsageBasedV2, rpm_limit, tpm_limit, candidates@, outcome),
{
    if candidates.len() == 0 {
        return Err(RouterError::NoCandidates);
    }
    let per_request: u64 = effective_limit(tpm_limit, DEFAULT_TPM_LIMIT);
    let per_token: u64 = effective_limit(rpm_limit, DEFAULT_RPM_LIMIT);
    let ghost values = scores(
        RoutingStrategy::UsageBasedV2,
        rpm_limit,
        tpm_limit,
        views_of(candidates@),
    );
    let mut best: usize = 0;
    let mut lowest_requests: u128 = wide_product(candidates[0].get_current_rpm(), per_request);
    let mut lowest_tokens: u128 = wide_product(candidates[0].get_current_tpm(), per_token);
    let mut i: usize = 1;
    while i < candidates.len()
        invariant
            values == scores(
                RoutingStrategy::UsageBasedV2,
                rpm_limit,
                tpm_limit,
                views_of(candidates@),
            ),
            per_request == limit_or(tpm_limit, DEFAULT_TPM_LIMIT),
            per_token == limit_or(rpm_limit, DEFAULT_RPM_LIMIT),
            best < i <= candidates.len(),
            lowest_requests + lowest_tokens == values[best as int],
            forall|j: int| 0 <= j < i ==> lowest_requests + lowest_tokens <= values[j],
            forall|j: int| 0 <= j < best ==> lowest_requests + lowest_tokens < values[j],
        decreases candidates.len() - i,
    {
        let requests: u128 = wide_product(candidates[i].get_current_rpm(), per_request);
        let tokens: u128 = wide_product(candidates[i].get_current_tpm(), per_token);
        assert(requests + tokens == values[i as int]);
        if sum_is_less(requests, tokens, lowest_requests, lowest_tokens) {
            lowest_requests = requests;
            lowest_tokens = tokens;
            best = i;
        }
        i += 1;
    }
    proof {
        lemma_found_first_minimum(values, best as int);
    }
    Ok(&candidates[best])
}

/// The penalty score of one candidate: its requests per minute, raised by
/// one for every hundred milliseconds of average latency.
pub fn penalty_score(candidate: &Deployment) -> (points: u128)
    ensures
        points == score(RoutingStrategy::LeastBusyWithPenalty, None, None, candidate@),
{
    let load: u128 = wide_product(candidate.get_current_rpm(), PENALTY_MICROS_PER_REQUEST);
    load + candidate.get_avg_latency() as u128
}

/// Least busy with penalty: the first candidate with the lowest blend of
/// load and latency.
pub fn least_busy_with_penalty<'a>(candidates: &'a Vec<Deployment>) -> (outcome: Result<
    &'a Deployment,
    RouterError,
>)
    ensures
        selection_made(RoutingStrategy::LeastBusyWithPenalty, None, None, candidates@, outcome),
{
    if candidates.len() == 0 {
        return Err(RouterError::NoCandidates);
    }
    let ghost values = scores(
        RoutingStrategy::LeastBusyWithPenalty,
        None,
        None,
        views_of(candidates@),
    );
    let mut best: usize = 0;
    let mut lowest: u128 = penalty_score(&candidates[0]);
    let mut i: usize = 1;
    while i < candidates.len()
        invariant
            values == scores(
                RoutingStrategy::LeastBusyWithPenalty,
                None,
                None,
                views_of(candidates@),
            ),
            best < i <= candidates.len(),
            lowest == values[best as int],
            forall|j: int| 0 <= j < i ==> lowest <= values[j],
            forall|j: int| 0 <= j < best ==> lowest < values[j],
        decreases candidates.len() - i,
    {
        let points: u128 = penalty_score(&candidates[i]);
        assert(points == values[i as int]);
        if points < lowest {
            lowest = points;
            best = i;
        }
        i += 1;
    }
    proof {
        lemma_found_first_minimum(values, best as int);
    }
    Ok(&candidates[best])
}

/// Calls `choose` of `rand::seq::SliceRandom` on the candidates with the
/// generator of `rand::thread_rng`. The slice method returns `None` for an
/// empty slice and a reference to one of the slice's elements otherwise;
/// which one is left open.
#[verifier::external_body]
fn choose_one<'a>(candidates: &'a Vec<Deployment>) -> (picked: Option<&'a Deployment>)
    ensures
        match picked {
            Some(chosen) => candidates@.contains(*chosen),
            None => candidates@.len() == 0,
        },
{
    let mut generator = rand::thread_rng();
    candidates.as_slice().choose(&mut generator)
}

/// Turns what the generator handed back into the outcome of the shuffle.
pub fn shuffle_outcome<'a>(picked: Option<&'a Deployment>) -> (outcome: Result<
    &'a Deployment,
    RouterError,
>)
    ensures
        match picked {
            Some(chosen) => outcome == Ok::<&Deployment, RouterError>(chosen),
            None => outcome matches Err(RouterError::StrategyError(detail)) && detail@
                == no_selection_text(),
        },
{
    match picked {
        Some(chosen) => Ok(chosen),
        None => Err(RouterError::StrategyError(String::from_str("Failed to select deployment"))),
    }
}

/// Simple shuffle: a uniformly random candidate.
pub fn simple_shuffle<'a>(candidates: &'a Vec<Deployment>) -> (outcome: Result<
    &'a Deployment,
    RouterError,
>)
    ensures
        shuffle_made(candidates@, outcome),
{
    if candidates.len() == 0 {
        return Err(RouterError::NoCandidates);
    }
    let picked = choose_one(candidates);
    shuffle_outcome(picked)
}

/// The place that the configured strategy selects among the candidates, for
/// every strategy that ranks. Only the second usage-based form reads the
/// configured limits.
pub open spec fn configured_index(config: RouterConfig, candidates: Seq<DeploymentView>) -> int {
    match config.routing_strategy {
        RoutingStrategy::UsageBasedV2 => selected_index(
            RoutingStrategy::UsageBasedV2,
            config.rpm_limit,
            config.tpm_limit,
            candidates,
        ),
        ranking => selected_index(ranking, None, None, candidates),
    }
}

/// What [`select`] owes its caller under `config`.
pub open spec fn configured_selection_made(
    config: RouterConfig,
    candidates: Seq<Deployment>,
    outcome: Result<&Deployment, RouterError>,
) -> bool {
    if candidates.len() == 0 {
        outcome is Err && outcome->Err_0 is NoCandidates
    } else if config.routing_strategy == RoutingStrategy::SimpleShuffle {
        outcome matches Ok(chosen) && candidates.contains(*chosen)
    } else {
        let at = configured_index(config, views_of(candidates));
        &&& 0 <= at < candidates.len()
        &&& outcome matches Ok(chosen) && *chosen == candidates[at]
    }
}

/// Hands the candidates to the strategy that `config` names.
pub fn select<'a>(config: &RouterConfig, candidates: &'a Vec<Deployment>) -> (outcome: Result<
    &'a Deployment,
    RouterError,
>)
    ensures
        configured_selection_made(*config, candidates@, outcome),
{
    match config.routing_strategy {
        RoutingStrategy::SimpleShuffle => simple_shuffle(candidates),
        RoutingStrategy::LeastBusy => least_busy(candidates),
        RoutingStrategy::LatencyBased => latency_based(candidates),
        RoutingStrategy::CostBased => cost_based(candidates),
        RoutingStrategy::UsageBasedV1 => usage_based_v1(candidates),
        RoutingStrategy::UsageBasedV2 => usage_based_v2(
            candidates,
            config.rpm_limit,
            config.tpm_limit,
        ),
        RoutingStrategy::LeastBusyWithPenalty => least_busy_with_penalty(candidates),
    }
}

} // verus!
