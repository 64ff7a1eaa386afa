//! One routable backend and the statistics the router keeps about it.

use crate::clock::unix_time_now;
use vstd::prelude::*;

verus! {

/// The part of a deployment's model metadata that selection reads.
///
/// Costs are fixed-point amounts per token, in a unit the caller chooses and
/// uses for every deployment alike. A field that a deployment does not expose
/// is `None`.
#[derive(Clone, Copy, Debug, PartialEq, Eq)]
pub struct ModelInfo {
    pub input_cost_per_token: Option<u64>,
    pub output_cost_per_token: Option<u64>,
}

/// Mathematical model of a [`Deployment`].
pub struct DeploymentView {
    pub deployment_id: Seq<char>,
    pub model_name: Seq<char>,
    pub litellm_params: Seq<char>,
    pub model_info: ModelInfo,
    pub total_requests: u64,
    pub successful_requests: u64,
    pub failed_requests: u64,
    pub avg_latency_us: u64,
    pub current_rpm: u64,
    pub current_tpm: u64,
    pub last_updated_timestamp: u64,
    pub cooldown_until_timestamp: u64,
    pub is_healthy: bool,
    pub last_health_check_timestamp: u64,
}

/// A latency average moved by one sample: nine parts old and one part new,
/// rounded down to a whole microsecond.
pub open spec fn blended_latency(average: u64, sample: u64) -> u64 {
    ((9 * average + sample) / 10) as u64
}

/// The moving average of latency after one more sample: the sample itself
/// where it is the first, that is where no success has been counted yet,
/// and the blend of the average and the sample afterwards.
pub open spec fn next_latency(successes: u64, average: u64, sample: u64) -> u64 {
    if successes == 0 {
        sample
    } else {
        blended_latency(average, sample)
    }
}

/// `a + b`, held at `u64::MAX` where the sum would pass it.
pub open spec fn capped_sum(a: u64, b: u64) -> u64 {
    if a + b > u64::MAX {
        u64::MAX
    } else {
        (a + b) as u64
    }
}

impl DeploymentView {
    /// Every request is counted as exactly one of success or failure.
    pub open spec fn balanced(self) -> bool {
        self.total_requests == self.successful_requests + self.failed_requests
    }

    /// A cooldown is set and `now` lies before its end.
    pub open spec fn in_cooldown_at(self, now: u64) -> bool {
        self.cooldown_until_timestamp > 0 && now < self.cooldown_until_timestamp
    }

    /// The deployment may be selected at `now`: it is flagged healthy and no
    /// cooldown is running. The health flag is never cleared by time, so a
    /// deployment that has failed stays excluded after its cooldown ends.
    pub open spec fn eligible_at(self, now: u64) -> bool {
        self.is_healthy && !self.in_cooldown_at(now)
    }

    /// The state a freshly registered deployment starts in.
    pub open spec fn fresh(
        deployment_id: Seq<char>,
        model_name: Seq<char>,
        litellm_params: Seq<char>,
        model_info: ModelInfo,
    ) -> DeploymentView {
        DeploymentView {
            deployment_id,
            model_name,
            litellm_params,
            model_info,
            total_requests: 0,
            successful_requests: 0,
            failed_requests: 0,
            avg_latency_us: 0,
            current_rpm: 0,
            current_tpm: 0,
            last_updated_timestamp: 0,
            cooldown_until_timestamp: 0,
            is_healthy: true,
            last_health_check_timestamp: 0,
        }
    }

    /// The state after one successful request of `latency_us` microseconds
    /// and `tokens` tokens, reported at `now`. The request counters stand
    /// still once `total_requests` has reached `u64::MAX`.
    pub open spec fn after_success(self, latency_us: u64, tokens: u32, now: u64) -> DeploymentView {
        let counted = self.total_requests < u64::MAX;
        DeploymentView {
            avg_latency_us: next_latency(
                self.successful_requests,
                self.avg_latency_us,
                latency_us,
            ),
            current_tpm: capped_sum(self.current_tpm, tokens as u64),
            current_rpm: capped_sum(self.current_rpm, 1),
            total_requests: if counted { (self.total_requests + 1) as u64 } else { self.total_requests },
            successful_requests: if counted { (self.successful_requests + 1) as u64 } else { self.successful_requests },
            last_updated_timestamp: now,
            ..self
        }
    }

    /// The state after one failed request reported at `now`, with a cooldown
    /// of `cooldown_seconds`. The request counters stand still once
    /// `total_requests` has reached `u64::MAX`.
    pub open spec fn after_failure(self, cooldown_seconds: u64, now: u64) -> DeploymentView {
        let counted = self.total_requests < u64::MAX;
        DeploymentView {
            is_healthy: false,
            cooldown_until_timestamp: capped_sum(now, cooldown_seconds),
            total_requests: if counted { (self.total_requests + 1) as u64 } else { self.total_requests },
            failed_requests: if counted { (self.failed_requests + 1) as u64 } else { self.failed_requests },
            last_updated_timestamp: now,
            ..self
        }
    }
}

/// The models of a sequence of deployments, in the same order.
pub open spec fn views_of(items: Seq<Deployment>) -> Seq<DeploymentView> {
    Seq::new(items.len(), |i: int| items[i]@)
}

/// The three request counters of a deployment. Every value of this type has
/// `total == successful + failed`.
#[derive(Clone, Copy, Debug)]
struct RequestCounters {
    total: u64,
    successful: u64,
    failed: u64,
}

impl RequestCounters {
    #[verifier::type_invariant]
    spec fn sums_up(self) -> bool {
        self.total == self.successful + self.failed
    }
}

/// One backend instance of a model, with its live counters and health state.
///
/// The fields are private: a deployment changes only through
/// [`Deployment::record_success`] and [`Deployment::record_failure`], which
/// keep `total_requests == successful_requests + failed_requests`.
#[derive(Debug)]
pub struct Deployment {
    deployment_id: String,
    model_name: String,
    litellm_params: String,
    model_info: ModelInfo,
    requests: RequestCounters,
    avg_latency_us: u64,
    current_rpm: u64,
    current_tpm: u64,
    last_updated_timestamp: u64,
    cooldown_until_timestamp: u64,
    is_healthy: bool,
    last_health_check_timestamp: u64,
}

impl View for Deployment {
    type V = DeploymentView;

    closed spec fn view(&self) -> DeploymentView {
        DeploymentView {
            deployment_id: self.deployment_id@,
            model_name: self.model_name@,
            litellm_params: self.litellm_params@,
            model_info: self.model_info,
            total_requests: self.requests.total,
            successful_requests: self.requests.successful,
            failed_requests: self.requests.failed,
            avg_latency_us: self.avg_latency_us,
            current_rpm: self.current_rpm,
            current_tpm: self.current_tpm,
            last_updated_timestamp: self.last_updated_timestamp,
            cooldown_until_timestamp: self.cooldown_until_timestamp,
            is_healthy: self.is_healthy,
            last_health_check_timestamp: self.last_health_check_timestamp,
        }
    }
}

impl Clone for Deployment {
    /// A snapshot: later changes to this deployment do not show in it.
    fn clone(&self) -> (copy: Self)
        ensures
            copy@ == self@,
    {
        Deployment {
            deployment_id: self.deployment_id.clone(),
            model_name: self.model_name.clone(),
            litellm_params: self.litellm_params.clone(),
            model_info: self.model_info,
            requests: self.requests,
            avg_latency_us: self.avg_latency_us,
            current_rpm: self.current_rpm,
            current_tpm: self.current_tpm,
            last_updated_timestamp: self.last_updated_timestamp,
            cooldown_until_timestamp: self.cooldown_until_timestamp,
            is_healthy: self.is_healthy,
            last_health_check_timestamp: self.last_health_check_timestamp,
        }
    }
}

impl Deployment {
    /// A deployment that has served nothing yet: all counters zero, healthy,
    /// no cooldown. Without `model_info` no cost field is exposed.
    pub fn new(
        deployment_id: String,
        model_name: String,
        litellm_params: String,
        model_info: Option<ModelInfo>,
    ) -> (fresh: Self)
        ensures
            fresh@ == DeploymentView::fresh(
                deployment_id@,
                model_name@,
                litellm_params@,
                match model_info {
                    Some(info) => info,
                    None => (ModelInfo { input_cost_per_token: None, output_cost_per_token: None }),
                },
            ),
            fresh@.balanced(),
    {
        let info = match model_info {
            Some(info) => info,
            None => ModelInfo { input_cost_per_token: None, output_cost_per_token: None },
        };
        Deployment {
            deployment_id,
            model_name,
            litellm_params,
            model_info: info,
            requests: RequestCounters { total: 0, successful: 0, failed: 0 },
            avg_latency_us: 0,
            current_rpm: 0,
            current_tpm: 0,
            last_updated_timestamp: 0,
            cooldown_until_timestamp: 0,
            is_healthy: true,
            last_health_check_timestamp: 0,
        }
    }

    /// Folds one successful request into the statistics. The first success
    /// that is counted seeds the average latency with its sample; every
    /// later one blends its sample into the average.
    pub fn record_success(&mut self, latency_us: u64, tokens: u32, now: u64)
        ensures
            final(self)@ == old(self)@.after_success(latency_us, tokens, now),
            final(self)@.balanced(),
    {
        proof {
            use_type_invariant(&self.requests);
        }
        if self.requests.successful == 0 {
            self.avg_latency_us = latency_us;
        } else {
            let blended: u128 = (9u128 * (self.avg_latency_us as u128) + (latency_us as u128)) / 10u128;
            self.avg_latency_us = blended as u64;
        }
        self.current_tpm = self.current_tpm.saturating_add(tokens as u64);
        self.current_rpm = self.current_rpm.saturating_add(1);
        let seen = self.requests;
        if seen.total < u64::MAX {
            self.requests = RequestCounters {
                total: seen.total + 1,
                successful: seen.successful + 1,
                failed: seen.failed,
            };
        }
        self.last_updated_timestamp = now;
    }

    /// Folds one failed request into the statistics: the deployment becomes
    /// unhealthy and enters a cooldown that ends `cooldown_seconds` after
    /// `now`.
    pub fn record_failure(&mut self, cooldown_seconds: u64, now: u64)
        ensures
            final(self)@ == old(self)@.after_failure(cooldown_seconds, now),
            final(self)@.balanced(),
            forall|later: u64| !final(self)@.eligible_at(later),
    {
        proof {
            use_type_invariant(&self.requests);
        }
        self.is_healthy = false;
        self.cooldown_until_timestamp = now.saturating_add(cooldown_seconds);
        let seen = self.requests;
        if seen.total < u64::MAX {
            self.requests = RequestCounters {
                total: seen.total + 1,
                successful: seen.successful,
                failed: seen.failed + 1,
            };
        }
        self.last_updated_timestamp = now;
    }

    /// Whether a cooldown is running at `now`.
    pub fn is_in_cooldown_at(&self, now: u64) -> (cooling: bool)
        ensures
            cooling == self@.in_cooldown_at(now),
    {
        if self.cooldown_until_timestamp > 0 {
            now < self.cooldown_until_timestamp
        } else {
            false
        }
    }

    /// Whether a cooldown is running according to the system clock.
    pub fn is_in_cooldown(&self) -> (cooling: bool)
        ensures
            exists|now: u64| cooling == self@.in_cooldown_at(now),
            self@.cooldown_until_timestamp == 0 ==> !cooling,
    {
        let now = unix_time_now();
        self.is_in_cooldown_at(now)
    }

    /// Whether the deployment may be selected at `now`.
    pub fn is_eligible_at(&self, now: u64) -> (eligible: bool)
        ensures
            eligible == self@.eligible_at(now),
            !self@.is_healthy ==> !eligible,
    {
        self.is_healthy && !self.is_in_cooldown_at(now)
    }

    /// The key under which the registry holds this deployment.
    pub fn deployment_id(&self) -> (id: &String)
        ensures
            id@ == self@.deployment_id,
    {
        &self.deployment_id
    }

    /// The logical model this deployment serves.
    pub fn model_name(&self) -> (name: &String)
        ensures
            name@ == self@.model_name,
    {
        &self.model_name
    }

    /// The provider parameters, passed through as given.
    pub fn litellm_params(&self) -> (params: &String)
        ensures
            params@ == self@.litellm_params,
    {
        &self.litellm_params
    }

    /// The model metadata that selection reads.
    pub fn model_info(&self) -> (info: ModelInfo)
        ensures
            info == self@.model_info,
    {
        self.model_info
    }

    /// Requests recorded so far; always the sum of the successful and the
    /// failed ones.
    pub fn get_total_requests(&self) -> (count: u64)
        ensures
            count == self@.total_requests,
            count == self@.successful_requests + self@.failed_requests,
    {
        proof {
            use_type_invariant(&self.requests);
        }
        self.requests.total
    }

    pub fn get_successful_requests(&self) -> (count: u64)
        ensures
            count == self@.successful_requests,
    {
        self.requests.successful
    }

    pub fn get_failed_requests(&self) -> (count: u64)
        ensures
            count == self@.failed_requests,
    {
        self.requests.failed
    }

    /// The moving average of latency in microseconds; zero before the first
    /// success.
    pub fn get_avg_latency(&self) -> (average: u64)
        ensures
            average == self@.avg_latency_us,
    {
        self.avg_latency_us
    }

    pub fn get_current_rpm(&self) -> (rpm: u64)
        ensures
            rpm == self@.current_rpm,
    {
        self.current_rpm
    }

    pub fn get_current_tpm(&self) -> (tpm: u64)
        ensures
            tpm == self@.current_tpm,
    {
        self.current_tpm
    }

    pub fn get_last_updated(&self) -> (timestamp: u64)
        ensures
            timestamp == self@.last_updated_timestamp,
    {
        self.last_updated_timestamp
    }

    /// End of the cooldown in seconds since the Unix epoch; zero means none.
    pub fn cooldown_until_timestamp(&self) -> (timestamp: u64)
        ensures
            timestamp == self@.cooldown_until_timestamp,
    {
        self.cooldown_until_timestamp
    }

    pub fn is_healthy(&self) -> (healthy: bool)
        ensures
            healthy == self@.is_healthy,
    {
        self.is_healthy
    }

    pub fn last_health_check_timestamp(&self) -> (timestamp: u64)
        ensures
            timestamp == self@.last_health_check_timestamp,
    {
        self.last_health_check_timestamp
    }
}

} // verus!
