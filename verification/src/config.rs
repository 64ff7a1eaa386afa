//! The settings a router is built with.

use crate::strategy::RoutingStrategy;
use vstd::prelude::*;

verus! {

/// Requests per minute against which load is weighed where none is configured.
pub const DEFAULT_RPM_LIMIT: u64 = 1000;

/// Tokens per minute against which load is weighed where none is configured.
pub const DEFAULT_TPM_LIMIT: u64 = 100000;

/// The limit that applies: the configured one where it is positive, the
/// fallback otherwise. A limit of zero cannot divide a load and counts as not
/// configured.
pub open spec fn limit_or(configured: Option<u64>, fallback: u64) -> u64 {
    match configured {
        Some(limit) => if limit > 0 { limit } else { fallback },
        None => fallback,
    }
}

/// The executable form of [`limit_or`].
pub fn effective_limit(configured: Option<u64>, fallback: u64) -> (limit: u64)
    ensures
        limit == limit_or(configured, fallback),
{
    match configured {
        Some(limit) => if limit > 0 { limit } else { fallback },
        None => fallback,
    }
}

/// Settings of a router, fixed when it is built. `max_retries` and
/// `timeout_seconds` are kept for the caller; the router does not act on
/// them.
#[derive(Clone, Copy, Debug)]
pub struct RouterConfig {
    pub routing_strategy: RoutingStrategy,
    pub cooldown_time_seconds: u64,
    pub max_retries: usize,
    pub timeout_seconds: u64,
    /// Requests per minute a deployment is rated for; `None` for the default.
    pub rpm_limit: Option<u64>,
    /// Tokens per minute a deployment is rated for; `None` for the default.
    pub tpm_limit: Option<u64>,
}

impl RouterConfig {
    /// A configuration with the default usage limits.
    pub fn new(
        routing_strategy: RoutingStrategy,
        cooldown_time_seconds: u64,
        max_retries: usize,
        timeout_seconds: u64,
    ) -> (config: Self)
        ensures
            config == (RouterConfig {
                routing_strategy,
                cooldown_time_seconds,
                max_retries,
                timeout_seconds,
                rpm_limit: None,
                tpm_limit: None,
            }),
    {
        RouterConfig {
            routing_strategy,
            cooldown_time_seconds,
            max_retries,
            timeout_seconds,
            rpm_limit: None,
            tpm_limit: None,
        }
    }

    /// The same configuration with the given usage limits.
    pub fn with_usage_limits(self, rpm_limit: u64, tpm_limit: u64) -> (config: Self)
        ensures
            config == (RouterConfig { rpm_limit: Some(rpm_limit), tpm_limit: Some(tpm_limit), ..self }),
    {
        RouterConfig { rpm_limit: Some(rpm_limit), tpm_limit: Some(tpm_limit), ..self }
    }
}

} // verus!
