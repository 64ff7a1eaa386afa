use llm_router::config::RouterConfig;
use llm_router::deployment::{Deployment, ModelInfo};
use llm_router::error::RouterError;
use llm_router::router::{AdvancedRouter, RouterStats};
use llm_router::strategy::RoutingStrategy;

fn deployment(id: &str, model: &str) -> Deployment {
    Deployment::new(id.to_string(), model.to_string(), "{}".to_string(), None)
}

fn with_rpm(id: &str, model: &str, rpm: u64) -> Deployment {
    let mut d = deployment(id, model);
    let mut i = 0;
    while i < rpm {
        d.record_success(1_000, 0, 0);
        i += 1;
    }
    d
}

fn router(strategy: RoutingStrategy) -> AdvancedRouter {
    AdvancedRouter::new(RouterConfig::new(strategy, 60, 3, 30))
}

fn ids(candidates: &Vec<Deployment>) -> Vec<String> {
    candidates.iter().map(|d| d.deployment_id().clone()).collect()
}

#[test]
fn a_new_router_is_empty() {
    let r = router(RoutingStrategy::LeastBusy);
    assert!(r.is_available());
    assert!(r.get_deployment_names().is_empty());
    assert_eq!(r.config().cooldown_time_seconds, 60);
    assert_eq!(r.config().max_retries, 3);
    assert_eq!(r.config().timeout_seconds, 30);
    assert_eq!(
        r.get_stats_at(0),
        RouterStats { total_requests: 0, total_deployments: 0, healthy_deployments: 0 }
    );
}

#[test]
fn add_keeps_insertion_order_and_overwrites_by_key() {
    let mut r = router(RoutingStrategy::LeastBusy);
    r.add_deployment(deployment("a", "m"));
    r.add_deployment(deployment("b", "m"));
    r.add_deployment(deployment("c", "n"));
    assert_eq!(r.get_deployment_names(), vec!["a", "b", "c"]);
    r.add_deployment(with_rpm("b", "other", 4));
    assert_eq!(r.get_deployment_names(), vec!["a", "b", "c"]);
    let b = r.get_deployment("b").unwrap();
    assert_eq!(b.model_name(), "other");
    assert_eq!(b.get_current_rpm(), 4);
}

#[test]
fn remove_reports_whether_an_entry_existed() {
    let mut r = router(RoutingStrategy::LeastBusy);
    r.add_deployment(deployment("a", "m"));
    r.add_deployment(deployment("b", "m"));
    r.add_deployment(deployment("c", "m"));
    assert!(r.remove_deployment("b"));
    assert!(!r.remove_deployment("b"));
    assert!(!r.remove_deployment("zzz"));
    assert_eq!(r.get_deployment_names(), vec!["a", "c"]);
    assert!(r.get_deployment("b").is_none());
    assert!(r.get_deployment("a").is_some());
}

#[test]
fn get_returns_a_snapshot() {
    let mut r = router(RoutingStrategy::LeastBusy);
    r.add_deployment(deployment("a", "m"));
    let before = r.get_deployment("a").unwrap();
    r.update_deployment_stats_at("a", 5_000, 12, 77);
    assert_eq!(before.get_total_requests(), 0);
    let after = r.get_deployment("a").unwrap();
    assert_eq!(after.get_total_requests(), 1);
    assert_eq!(after.get_successful_requests(), 1);
    assert_eq!(after.get_current_tpm(), 12);
    assert_eq!(after.get_current_rpm(), 1);
    assert_eq!(after.get_avg_latency(), 5_000);
    assert_eq!(after.get_last_updated(), 77);
    assert!(r.get_deployment("missing").is_none());
}

#[test]
fn filter_keeps_model_and_eligibility() {
    let mut r = router(RoutingStrategy::LeastBusy);
    r.add_deployment(deployment("a", "m"));
    r.add_deployment(deployment("b", "n"));
    r.add_deployment(deployment("c", "m"));
    r.add_deployment(deployment("d", "m"));
    r.mark_deployment_unhealthy_at("c", 100);
    assert_eq!(ids(&r.get_healthy_deployments_at("m", 100)), vec!["a", "d"]);
    assert_eq!(ids(&r.get_healthy_deployments_at("n", 100)), vec!["b"]);
    assert!(r.get_healthy_deployments_at("z", 100).is_empty());
    assert!(r.get_healthy_deployments_at("", 100).is_empty());
}

#[test]
fn unhealthy_deployments_are_never_returned() {
    let mut r = router(RoutingStrategy::LeastBusy);
    r.add_deployment(deployment("a", "m"));
    r.mark_deployment_unhealthy_at("a", 1_000);
    for now in [0, 999, 1_000, 1_059, 1_060, 1_061, u64::MAX] {
        assert!(r.get_healthy_deployments_at("m", now).is_empty());
        for d in r.get_healthy_deployments_at("m", now) {
            assert!(d.is_healthy());
        }
    }
    assert!(r.get_healthy_deployments("m").is_empty());
}

#[test]
fn marking_unhealthy_sets_the_configured_cooldown() {
    let mut r = router(RoutingStrategy::LeastBusy);
    r.add_deployment(deployment("a", "m"));
    r.mark_deployment_unhealthy_at("a", 1_000);
    let a = r.get_deployment("a").unwrap();
    assert!(!a.is_healthy());
    assert_eq!(a.cooldown_until_timestamp(), 1_060);
    assert_eq!(a.get_failed_requests(), 1);
    assert_eq!(a.get_total_requests(), 1);
    assert_eq!(a.get_last_updated(), 1_000);
}

#[test]
fn feedback_for_a_missing_key_changes_nothing() {
    let mut r = router(RoutingStrategy::LeastBusy);
    r.add_deployment(deployment("a", "m"));
    r.update_deployment_stats_at("ghost", 1, 1, 1);
    r.mark_deployment_unhealthy_at("ghost", 1);
    r.update_deployment_stats("ghost", 1, 1);
    r.mark_deployment_unhealthy("ghost");
    let a = r.get_deployment("a").unwrap();
    assert_eq!(a.get_total_requests(), 0);
    assert!(a.is_healthy());
    assert_eq!(r.get_deployment_names(), vec!["a"]);
}

#[test]
fn record_success_through_the_router_follows_the_moving_average() {
    let mut r = router(RoutingStrategy::LeastBusy);
    r.add_deployment(deployment("a", "m"));
    r.update_deployment_stats_at("a", 100_000, 1, 1);
    assert_eq!(r.get_deployment("a").unwrap().get_avg_latency(), 100_000);
    r.update_deployment_stats_at("a", 200_000, 1, 2);
    assert_eq!(r.get_deployment("a").unwrap().get_avg_latency(), 110_000);
    r.add_deployment(deployment("b", "m"));
    r.update_deployment_stats_at("b", 0, 0, 3);
    r.update_deployment_stats_at("b", 100_000, 0, 4);
    assert_eq!(r.get_deployment("b").unwrap().get_avg_latency(), 10_000);
}

#[test]
fn counters_balance_through_the_router() {
    let mut r = router(RoutingStrategy::LeastBusy);
    r.add_deployment(deployment("a", "m"));
    let mut step = 0u64;
    while step < 12 {
        if step % 3 == 0 {
            r.mark_deployment_unhealthy_at("a", step);
        } else {
            r.update_deployment_stats_at("a", 10, 1, step);
        }
        let a = r.get_deployment("a").unwrap();
        assert_eq!(a.get_total_requests(), a.get_successful_requests() + a.get_failed_requests());
        assert_eq!(a.get_total_requests(), step + 1);
        step += 1;
    }
    let a = r.get_deployment("a").unwrap();
    assert_eq!(a.get_failed_requests(), 4);
    assert_eq!(a.get_successful_requests(), 8);
}

#[test]
fn end_to_end_least_busy_with_failures() {
    let mut r = router(RoutingStrategy::LeastBusy);
    r.add_deployment(with_rpm("A", "m", 5));
    r.add_deployment(with_rpm("B", "m", 2));
    assert_eq!(r.route_request_at("m", 10).unwrap(), "B");
    r.mark_deployment_unhealthy_at("B", 11);
    r.mark_deployment_unhealthy_at("B", 12);
    r.mark_deployment_unhealthy_at("B", 13);
    assert_eq!(r.route_request_at("m", 14).unwrap(), "A");
    assert_eq!(r.route_request_at("m", 1_000_000).unwrap(), "A");
    match r.route_request_at("z", 15) {
        Err(RouterError::NoHealthyDeployments) => {}
        other => panic!("unexpected outcome {:?}", other),
    }
    let b = r.get_deployment("B").unwrap();
    assert_eq!(b.get_failed_requests(), 3);
    assert_eq!(b.get_total_requests(), 5);
}

#[test]
fn end_to_end_with_the_system_clock() {
    let mut r = router(RoutingStrategy::LeastBusy);
    r.add_deployment(with_rpm("A", "m", 5));
    r.add_deployment(with_rpm("B", "m", 2));
    assert_eq!(r.route_request("m").unwrap(), "B");
    r.mark_deployment_unhealthy("B");
    r.mark_deployment_unhealthy("B");
    r.mark_deployment_unhealthy("B");
    assert_eq!(r.route_request("m").unwrap(), "A");
    assert!(matches!(r.route_request("z"), Err(RouterError::NoHealthyDeployments)));
    let b = r.get_deployment("B").unwrap();
    assert!(b.cooldown_until_timestamp() >= 60);
    assert!(b.get_last_updated() > 1_600_000_000);
    assert_eq!(b.cooldown_until_timestamp(), b.get_last_updated() + 60);
    r.update_deployment_stats("A", 2_000, 9);
    let a = r.get_deployment("A").unwrap();
    assert_eq!(a.get_current_rpm(), 6);
    assert_eq!(a.get_current_tpm(), 9);
    let stats = r.get_stats();
    assert_eq!(stats.total_requests, 3);
    assert_eq!(stats.total_deployments, 2);
    assert_eq!(stats.healthy_deployments, 1);
}

#[test]
fn every_attempt_is_counted() {
    let mut r = router(RoutingStrategy::LeastBusy);
    r.add_deployment(deployment("a", "m"));
    assert!(r.route_request_at("m", 0).is_ok());
    assert!(r.route_request_at("nothing", 0).is_err());
    assert!(r.route_request_at("m", 0).is_ok());
    assert_eq!(r.get_stats_at(0).total_requests, 3);
}

#[test]
fn routing_leaves_the_registry_alone() {
    let mut r = router(RoutingStrategy::LatencyBased);
    r.add_deployment(with_rpm("a", "m", 2));
    r.add_deployment(with_rpm("b", "m", 1));
    let mut round = 0;
    while round < 5 {
        assert_eq!(r.route_request_at("m", 0).unwrap(), "a");
        round += 1;
    }
    assert_eq!(r.get_deployment_names(), vec!["a", "b"]);
    assert_eq!(r.get_deployment("a").unwrap().get_total_requests(), 2);
    assert_eq!(r.get_deployment("b").unwrap().get_total_requests(), 1);
}

#[test]
fn a_single_eligible_deployment_is_always_routed_to() {
    for code in 0..7 {
        let mut r = router(RoutingStrategy::from_code(code));
        r.add_deployment(deployment("down", "m"));
        r.add_deployment(deployment("only", "m"));
        r.add_deployment(deployment("elsewhere", "n"));
        r.mark_deployment_unhealthy_at("down", 5);
        let mut call = 0;
        while call < 50 {
            assert_eq!(r.route_request_at("m", 6).unwrap(), "only");
            call += 1;
        }
        assert_eq!(r.get_stats_at(6).total_requests, 50);
    }
}

#[test]
fn routing_under_each_strategy() {
    let cheap = ModelInfo { input_cost_per_token: Some(1), output_cost_per_token: Some(2) };
    let dear = ModelInfo { input_cost_per_token: Some(10), output_cost_per_token: None };
    let mut busy = Deployment::new("busy".into(), "m".into(), "{}".into(), Some(cheap));
    let mut idle = Deployment::new("idle".into(), "m".into(), "{}".into(), Some(dear));
    // busy: rpm 3, tpm 3, latency 10ms; idle: rpm 1, tpm 500, latency 900ms
    let mut i = 0;
    while i < 3 {
        busy.record_success(10_000, 1, 0);
        i += 1;
    }
    idle.record_success(900_000, 500, 0);
    let expect = [
        (RoutingStrategy::LeastBusy, "idle"),
        (RoutingStrategy::LatencyBased, "busy"),
        (RoutingStrategy::CostBased, "busy"),
        (RoutingStrategy::UsageBasedV1, "busy"),
        // busy: 0.003 + 0.00003, idle: 0.001 + 0.005
        (RoutingStrategy::UsageBasedV2, "busy"),
        // busy: 3 + 0.1, idle: 1 + 9
        (RoutingStrategy::LeastBusyWithPenalty, "busy"),
    ];
    for (strategy, winner) in expect.iter() {
        let mut r = router(*strategy);
        r.add_deployment(busy.clone());
        r.add_deployment(idle.clone());
        assert_eq!(r.route_request_at("m", 1).unwrap(), *winner);
    }
    let mut shuffled = router(RoutingStrategy::SimpleShuffle);
    shuffled.add_deployment(busy.clone());
    shuffled.add_deployment(idle.clone());
    let mut round = 0;
    while round < 30 {
        let key = shuffled.route_request_at("m", 1).unwrap();
        assert!(key == "busy" || key == "idle");
        round += 1;
    }
}

#[test]
fn stats_count_eligible_deployments_of_every_model() {
    let mut r = router(RoutingStrategy::LeastBusy);
    r.add_deployment(deployment("a", "m"));
    r.add_deployment(deployment("b", "n"));
    r.add_deployment(deployment("c", "m"));
    r.mark_deployment_unhealthy_at("b", 7);
    let _ = r.route_request_at("m", 8);
    assert_eq!(
        r.get_stats_at(8),
        RouterStats { total_requests: 1, total_deployments: 3, healthy_deployments: 2 }
    );
    assert_eq!(r.get_stats_at(u64::MAX).healthy_deployments, 2);
}

#[test]
fn configured_limits_reach_the_strategy() {
    let config = RouterConfig::new(RoutingStrategy::UsageBasedV2, 60, 0, 0);
    // a: rpm 10, tpm 0; b: rpm 1, tpm 1000
    let mut a = deployment("a", "m");
    let mut i = 0;
    while i < 10 {
        a.record_success(1, 0, 0);
        i += 1;
    }
    let mut b = deployment("b", "m");
    b.record_success(1, 1000, 0);
    let mut by_default = AdvancedRouter::new(config);
    by_default.add_deployment(a.clone());
    by_default.add_deployment(b.clone());
    // defaults: a = 0.010, b = 0.011
    assert_eq!(by_default.route_request_at("m", 0).unwrap(), "a");
    let mut limited = AdvancedRouter::new(config.with_usage_limits(10, 10_000));
    limited.add_deployment(a);
    limited.add_deployment(b);
    // limits 10 and 10000: a = 1.0, b = 0.2
    assert_eq!(limited.route_request_at("m", 0).unwrap(), "b");
}

#[test]
fn a_direct_lookup_reports_a_missing_key() {
    let mut r = router(RoutingStrategy::LeastBusy);
    r.add_deployment(with_rpm("a", "m", 3));
    match r.find_deployment("a") {
        Ok(found) => assert_eq!(found.get_current_rpm(), 3),
        Err(error) => panic!("unexpected error {:?}", error),
    }
    match r.find_deployment("b") {
        Err(RouterError::DeploymentNotFound(key)) => assert_eq!(key, "b"),
        other => panic!("unexpected outcome {:?}", other),
    }
    match r.find_deployment("b") {
        Err(error) => assert_eq!(error.message(), "Deployment not found: b"),
        Ok(found) => panic!("unexpected entry {:?}", found),
    }
}

#[test]
fn selecting_does_not_count_an_attempt() {
    let mut r = router(RoutingStrategy::LeastBusy);
    r.add_deployment(with_rpm("A", "m", 5));
    r.add_deployment(with_rpm("B", "m", 2));
    assert_eq!(r.select_deployment_at("m", 10).unwrap(), "B");
    assert_eq!(r.select_deployment("m").unwrap(), "B");
    assert!(matches!(r.select_deployment_at("z", 10), Err(RouterError::NoHealthyDeployments)));
    assert_eq!(r.get_stats_at(10).total_requests, 0);
    r.count_request();
    r.count_request();
    assert_eq!(r.get_stats_at(10).total_requests, 2);
    assert_eq!(r.route_request_at("m", 10).unwrap(), "B");
    assert_eq!(r.get_stats_at(10).total_requests, 3);
    assert_eq!(r.get_deployment_names(), vec!["A", "B"]);
}
