//! What a router reports when it cannot serve a call.

use crate::strategy::RoutingStrategy;
use vstd::prelude::*;
use vstd::string::StringExecFns;

verus! {

/// The failures a router or a selection strategy can report.
#[derive(Debug)]
pub enum RouterError {
    /// No eligible deployment serves the requested model.
    NoHealthyDeployments,
    /// A strategy was handed no candidate to select from.
    NoCandidates,
    /// A lookup by key found nothing.
    DeploymentNotFound(String),
    /// A strategy could not produce a selection.
    StrategyError(String),
    /// The deployment is in cooldown.
    CooldownActive(String),
    /// A health check failed.
    HealthCheckFailed(String),
    /// The registry's lock could not be taken.
    LockError(String),
    /// A deployment was described by unusable data.
    InvalidDeploymentData(String),
    /// Routing failed inside the configured strategy.
    RoutingFailed(String),
}

/// What a strategy reports when it is handed no candidate.
pub open spec fn no_candidates_text() -> Seq<char> {
    "No deployments available for routing"@
}

/// What the shuffle reports when the generator hands back nothing.
pub open spec fn no_selection_text() -> Seq<char> {
    "Failed to select deployment"@
}

/// The words that introduce a strategy's failure in a routing failure.
pub open spec fn failure_prefix(strategy: RoutingStrategy) -> Seq<char> {
    match strategy {
        RoutingStrategy::SimpleShuffle => "Simple shuffle routing failed: "@,
        RoutingStrategy::LeastBusy => "Least busy routing failed: "@,
        RoutingStrategy::LatencyBased => "Latency-based routing failed: "@,
        RoutingStrategy::CostBased => "Cost-based routing failed: "@,
        RoutingStrategy::UsageBasedV1 => "Usage-based v1 routing failed: "@,
        RoutingStrategy::UsageBasedV2 => "Usage-based v2 routing failed: "@,
        RoutingStrategy::LeastBusyWithPenalty => "Least busy with penalty routing failed: "@,
    }
}

impl RouterError {
    /// The human-readable text of the error.
    pub open spec fn text(self) -> Seq<char> {
        match self {
            RouterError::NoHealthyDeployments => "No healthy deployments available"@,
            RouterError::NoCandidates => no_candidates_text(),
            RouterError::DeploymentNotFound(key) => "Deployment not found: "@ + key@,
            RouterError::StrategyError(detail) => "Routing strategy error: "@ + detail@,
            RouterError::CooldownActive(key) => "Cooldown period active for deployment: "@ + key@,
            RouterError::HealthCheckFailed(detail) => "Health check failed: "@ + detail@,
            RouterError::LockError(detail) => "Lock acquisition error: "@ + detail@,
            RouterError::InvalidDeploymentData(detail) => "Invalid deployment data: "@ + detail@,
            RouterError::RoutingFailed(detail) => "Routing failed: "@ + detail@,
        }
    }

    /// The human-readable text of the error.
    pub fn message(&self) -> (text: String)
        ensures
            text@ == self.text(),
    {
        match self {
            RouterError::NoHealthyDeployments => String::from_str("No healthy deployments available"),
            RouterError::NoCandidates => String::from_str("No deployments available for routing"),
            RouterError::DeploymentNotFound(key) => String::from_str("Deployment not found: ").concat(
                key.as_str(),
            ),
            RouterError::StrategyError(detail) => String::from_str("Routing strategy error: ").concat(
                detail.as_str(),
            ),
            RouterError::CooldownActive(key) => String::from_str(
                "Cooldown period active for deployment: ",
            ).concat(key.as_str()),
            RouterError::HealthCheckFailed(detail) => String::from_str("Health check failed: ").concat(
                detail.as_str(),
            ),
            RouterError::LockError(detail) => String::from_str("Lock acquisition error: ").concat(
                detail.as_str(),
            ),
            RouterError::InvalidDeploymentData(detail) => String::from_str(
                "Invalid deployment data: ",
            ).concat(detail.as_str()),
            RouterError::RoutingFailed(detail) => String::from_str("Routing failed: ").concat(
                detail.as_str(),
            ),
        }
    }

    /// Wraps the failure of `strategy` for the caller of the router: the
    /// strategy's own text follows the words that name the strategy.
    pub fn routing_failed(strategy: RoutingStrategy, cause: &RouterError) -> (error: RouterError)
        ensures
            error matches RouterError::RoutingFailed(detail) && detail@ == failure_prefix(strategy)
                + cause.text(),
    {
        let prefix = match strategy {
            RoutingStrategy::SimpleShuffle => "Simple shuffle routing failed: ",
            RoutingStrategy::LeastBusy => "Least busy routing failed: ",
            RoutingStrategy::LatencyBased => "Latency-based routing failed: ",
            RoutingStrategy::CostBased => "Cost-based routing failed: ",
            RoutingStrategy::UsageBasedV1 => "Usage-based v1 routing failed: ",
            RoutingStrategy::UsageBasedV2 => "Usage-based v2 routing failed: ",
            RoutingStrategy::LeastBusyWithPenalty => "Least busy with penalty routing failed: ",
        };
        let cause_text = cause.message();
        RouterError::RoutingFailed(String::from_str(prefix).concat(cause_text.as_str()))
    }
}

} // verus!
