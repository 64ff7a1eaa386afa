use llm_router::config::RouterConfig;
use llm_router::deployment::{Deployment, ModelInfo};
use llm_router::error::RouterError;
use llm_router::selection::{
    cost_based, latency_based, least_busy, least_busy_with_penalty, penalty_score, select,
    shuffle_outcome, simple_shuffle, sum_is_less, total_cost, usage_based_v1, usage_based_v2,
    wide_product,
};
use llm_router::strategy::RoutingStrategy;

/// A deployment with the given load and a constant latency.
fn loaded(id: &str, rpm: u64, tokens_each: u32, latency_us: u64) -> Deployment {
    let mut d = Deployment::new(id.to_string(), "m".to_string(), "{}".to_string(), None);
    let mut i = 0;
    while i < rpm {
        d.record_success(latency_us, tokens_each, 0);
        i += 1;
    }
    d
}

fn priced(id: &str, input: Option<u64>, output: Option<u64>) -> Deployment {
    let info = ModelInfo { input_cost_per_token: input, output_cost_per_token: output };
    Deployment::new(id.to_string(), "m".to_string(), "{}".to_string(), Some(info))
}

fn id_of(outcome: Result<&Deployment, RouterError>) -> String {
    match outcome {
        Ok(chosen) => chosen.deployment_id().clone(),
        Err(error) => panic!("no selection: {:?}", error),
    }
}

fn assert_no_candidates(outcome: Result<&Deployment, RouterError>) {
    match outcome {
        Err(RouterError::NoCandidates) => {}
        other => panic!("unexpected outcome {:?}", other.map(|d| d.deployment_id().clone())),
    }
}

#[test]
fn every_strategy_rejects_an_empty_input() {
    let none: Vec<Deployment> = Vec::new();
    assert_no_candidates(simple_shuffle(&none));
    assert_no_candidates(least_busy(&none));
    assert_no_candidates(latency_based(&none));
    assert_no_candidates(cost_based(&none));
    assert_no_candidates(usage_based_v1(&none));
    assert_no_candidates(usage_based_v2(&none, None, None));
    assert_no_candidates(least_busy_with_penalty(&none));
    let config = RouterConfig::new(RoutingStrategy::CostBased, 1, 1, 1);
    assert_no_candidates(select(&config, &none));
}

#[test]
fn least_busy_takes_the_lowest_rpm() {
    let candidates = vec![loaded("a", 5, 0, 1), loaded("b", 2, 0, 1), loaded("c", 3, 0, 1)];
    assert_eq!(id_of(least_busy(&candidates)), "b");
}

#[test]
fn least_busy_breaks_ties_by_input_order() {
    let candidates = vec![loaded("a", 4, 0, 1), loaded("b", 2, 0, 1), loaded("c", 2, 0, 1)];
    assert_eq!(id_of(least_busy(&candidates)), "b");
    let reversed = vec![loaded("c", 2, 0, 1), loaded("b", 2, 0, 1), loaded("a", 4, 0, 1)];
    assert_eq!(id_of(least_busy(&reversed)), "c");
}

#[test]
fn latency_based_takes_the_lowest_average() {
    let candidates =
        vec![loaded("a", 1, 0, 300_000), loaded("b", 1, 0, 120_000), loaded("c", 1, 0, 120_000)];
    assert_eq!(id_of(latency_based(&candidates)), "b");
}

#[test]
fn latency_based_prefers_a_cold_deployment() {
    let candidates = vec![loaded("a", 1, 0, 1), loaded("cold", 0, 0, 0), loaded("c", 9, 0, 5)];
    assert_eq!(id_of(latency_based(&candidates)), "cold");
}

#[test]
fn cost_based_takes_the_lowest_sum() {
    let candidates = vec![
        priced("a", Some(30), Some(60)),
        priced("b", Some(10), Some(70)),
        priced("c", Some(40), Some(39)),
        priced("d", Some(79), Some(0)),
    ];
    assert_eq!(total_cost(&candidates[0]), 90);
    assert_eq!(total_cost(&candidates[2]), 79);
    assert_eq!(id_of(cost_based(&candidates)), "c");
}

#[test]
fn cost_based_counts_a_missing_field_as_zero() {
    let candidates =
        vec![priced("a", Some(5), Some(5)), priced("b", None, Some(9)), priced("c", Some(8), None)];
    assert_eq!(total_cost(&candidates[1]), 9);
    assert_eq!(id_of(cost_based(&candidates)), "c");
    let free = vec![priced("a", Some(1), None), priced("b", None, None)];
    assert_eq!(id_of(cost_based(&free)), "b");
}

#[test]
fn cost_based_falls_back_to_the_first_candidate() {
    let candidates = vec![priced("a", None, None), priced("b", None, None), priced("c", None, None)];
    assert_eq!(id_of(cost_based(&candidates)), "a");
}

#[test]
fn cost_based_does_not_overflow() {
    let candidates = vec![
        priced("a", Some(u64::MAX), Some(u64::MAX)),
        priced("b", Some(u64::MAX), Some(u64::MAX - 1)),
    ];
    assert_eq!(total_cost(&candidates[0]), 2 * (u64::MAX as u128));
    assert_eq!(id_of(cost_based(&candidates)), "b");
}

#[test]
fn usage_v1_takes_the_lowest_sum_of_rpm_and_tpm() {
    // a: 2 + 200, b: 10 + 0, c: 3 + 9
    let candidates = vec![loaded("a", 2, 100, 1), loaded("b", 10, 0, 1), loaded("c", 3, 3, 1)];
    assert_eq!(id_of(usage_based_v1(&candidates)), "b");
    let tied = vec![loaded("a", 2, 4, 1), loaded("b", 10, 0, 1)];
    assert_eq!(id_of(usage_based_v1(&tied)), "a");
}

#[test]
fn usage_v2_weighs_load_against_the_default_limits() {
    // a: 10/1000 + 0/100000 = 0.0100, b: 1/1000 + 1000/100000 = 0.0110,
    // c: 9/1000 + 90/100000 = 0.0099
    let candidates = vec![loaded("a", 10, 0, 1), loaded("b", 1, 1000, 1), loaded("c", 9, 10, 1)];
    assert_eq!(id_of(usage_based_v2(&candidates, None, None)), "c");
    assert_eq!(id_of(usage_based_v2(&candidates, Some(0), Some(0))), "c");
}

#[test]
fn usage_v2_weighs_load_against_configured_limits() {
    // with rpm_limit 10 and tpm_limit 10000:
    // a: 10/10 + 0 = 1.0, b: 1/10 + 1000/10000 = 0.2, c: 9/10 + 90/10000 = 0.909
    let candidates = vec![loaded("a", 10, 0, 1), loaded("b", 1, 1000, 1), loaded("c", 9, 10, 1)];
    assert_eq!(id_of(usage_based_v2(&candidates, Some(10), Some(10_000))), "b");
    // with rpm_limit 1000000 and tpm_limit 1: tokens dominate
    assert_eq!(id_of(usage_based_v2(&candidates, Some(1_000_000), Some(1))), "a");
}

#[test]
fn usage_v2_breaks_ties_by_input_order() {
    // a: 2/1000 + 0, b: 1/1000 + 100/100000: equal
    let candidates = vec![loaded("a", 2, 0, 1), loaded("b", 1, 100, 1)];
    assert_eq!(id_of(usage_based_v2(&candidates, None, None)), "a");
    let reversed = vec![loaded("b", 1, 100, 1), loaded("a", 2, 0, 1)];
    assert_eq!(id_of(usage_based_v2(&reversed, None, None)), "b");
}

#[test]
fn penalty_blends_load_and_latency() {
    // a: 2 + 150ms/100 = 3.5, b: 3 + 20ms/100 = 3.2, c: 1 + 400ms/100 = 5.0
    let candidates =
        vec![loaded("a", 2, 0, 150_000), loaded("b", 3, 0, 20_000), loaded("c", 1, 0, 400_000)];
    assert_eq!(penalty_score(&candidates[0]), 350_000);
    assert_eq!(penalty_score(&candidates[1]), 320_000);
    assert_eq!(penalty_score(&candidates[2]), 500_000);
    assert_eq!(id_of(least_busy_with_penalty(&candidates)), "b");
}

#[test]
fn ranking_strategies_are_idempotent() {
    let candidates = vec![
        loaded("a", 3, 10, 90_000),
        loaded("b", 1, 500, 250_000),
        loaded("c", 2, 1, 10_000),
    ];
    let mut round = 0;
    while round < 5 {
        assert_eq!(id_of(least_busy(&candidates)), "b");
        assert_eq!(id_of(latency_based(&candidates)), "c");
        assert_eq!(id_of(usage_based_v1(&candidates)), "c");
        assert_eq!(id_of(least_busy_with_penalty(&candidates)), "c");
        assert_eq!(id_of(usage_based_v2(&candidates, None, None)), "c");
        assert_eq!(id_of(cost_based(&candidates)), "a");
        round += 1;
    }
}

#[test]
fn every_strategy_returns_a_member_of_the_candidates() {
    let candidates = vec![
        loaded("a", 3, 10, 90_000),
        loaded("b", 1, 500, 250_000),
        loaded("c", 2, 1, 10_000),
    ];
    let members = ["a", "b", "c"];
    for code in 0..7 {
        let config = RouterConfig::new(RoutingStrategy::from_code(code), 60, 0, 0);
        let mut round = 0;
        while round < 20 {
            let chosen = id_of(select(&config, &candidates));
            assert!(members.contains(&chosen.as_str()));
            round += 1;
        }
    }
}

#[test]
fn shuffle_returns_the_only_candidate() {
    let candidates = vec![loaded("only", 1, 1, 1)];
    let mut round = 0;
    while round < 20 {
        assert_eq!(id_of(simple_shuffle(&candidates)), "only");
        round += 1;
    }
}

#[test]
fn shuffle_reaches_every_candidate() {
    let candidates = vec![loaded("a", 0, 0, 0), loaded("b", 0, 0, 0)];
    let mut seen_a = false;
    let mut seen_b = false;
    let mut round = 0;
    while round < 400 {
        let chosen = id_of(simple_shuffle(&candidates));
        seen_a = seen_a || chosen == "a";
        seen_b = seen_b || chosen == "b";
        round += 1;
    }
    assert!(seen_a && seen_b);
}

#[test]
fn shuffle_outcome_follows_the_pick() {
    let d = loaded("a", 1, 1, 1);
    assert_eq!(id_of(shuffle_outcome(Some(&d))), "a");
    match shuffle_outcome(None) {
        Err(RouterError::StrategyError(detail)) => assert_eq!(detail, "Failed to select deployment"),
        other => panic!("unexpected outcome {:?}", other.map(|d| d.deployment_id().clone())),
    }
}

#[test]
fn select_dispatches_on_the_configured_strategy() {
    let candidates = vec![
        loaded("a", 3, 10, 90_000),
        loaded("b", 1, 500, 250_000),
        loaded("c", 2, 1, 10_000),
    ];
    let config = |s| RouterConfig::new(s, 60, 0, 0);
    assert_eq!(id_of(select(&config(RoutingStrategy::LeastBusy), &candidates)), "b");
    assert_eq!(id_of(select(&config(RoutingStrategy::LatencyBased), &candidates)), "c");
    assert_eq!(id_of(select(&config(RoutingStrategy::CostBased), &candidates)), "a");
    assert_eq!(id_of(select(&config(RoutingStrategy::UsageBasedV1), &candidates)), "c");
    assert_eq!(id_of(select(&config(RoutingStrategy::LeastBusyWithPenalty), &candidates)), "c");
    // b: 1/1000 + 500/100000 = 0.006, c: 2/1000 + 2/100000 = 0.00202
    assert_eq!(id_of(select(&config(RoutingStrategy::UsageBasedV2), &candidates)), "c");
    // with a token limit of a million and a request limit of one, requests dominate
    let tight = config(RoutingStrategy::UsageBasedV2).with_usage_limits(1, 1_000_000);
    assert_eq!(id_of(select(&tight, &candidates)), "b");
}

#[test]
fn wide_arithmetic_is_exact() {
    assert_eq!(wide_product(0, u64::MAX), 0);
    assert_eq!(wide_product(u64::MAX, u64::MAX), (u64::MAX as u128) * (u64::MAX as u128));
    assert_eq!(wide_product(1000, 100_000), 100_000_000);
    assert!(sum_is_less(1, 2, 2, 2));
    assert!(!sum_is_less(2, 2, 2, 2));
    assert!(!sum_is_less(3, 2, 2, 2));
    assert!(sum_is_less(5, 0, 0, 6));
    assert!(!sum_is_less(5, 1, 0, 6));
    assert!(sum_is_less(0, 9, 8, 2));
    assert!(!sum_is_less(u128::MAX, u128::MAX, u128::MAX, u128::MAX));
    assert!(sum_is_less(u128::MAX, u128::MAX - 1, u128::MAX, u128::MAX));
    assert!(sum_is_less(u128::MAX - 1, u128::MAX, u128::MAX, u128::MAX));
    assert!(!sum_is_less(u128::MAX, u128::MAX, u128::MAX - 1, u128::MAX));
    assert!(!sum_is_less(u128::MAX, 0, 0, u128::MAX));
}
