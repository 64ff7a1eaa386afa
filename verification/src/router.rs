//! The router: a registry of deployments, the choice of one of them for a
//! request, and the feedback that updates their state.

use crate::clock::unix_time_now;
use crate::config::RouterConfig;
use crate::deployment::{capped_sum, views_of, Deployment, DeploymentView};
use crate::error::RouterError;
use crate::selection::{configured_index, select};
use crate::strategy::RoutingStrategy;
use crate::text::str_eq;
use vstd::prelude::*;

verus! {

/// Mathematical model of an [`AdvancedRouter`]: the registered deployments in
/// the order in which their keys were first added, the configuration, and the
/// number of routing attempts.
pub struct RouterView {
    pub deployments: Seq<DeploymentView>,
    pub config: RouterConfig,
    pub request_count: u64,
}

/// Counters that a router reports about itself.
#[derive(Clone, Copy, Debug, PartialEq, Eq)]
pub struct RouterStats {
    /// Routing attempts, successful or not.
    pub total_requests: u64,
    /// Deployments in the registry.
    pub total_deployments: usize,
    /// Deployments that are eligible for selection.
    pub healthy_deployments: usize,
}

/// The entry at place `i` is registered under `id`.
pub open spec fn holds_id_at(all: Seq<DeploymentView>, id: Seq<char>, i: int) -> bool {
    0 <= i < all.len() && all[i].deployment_id == id
}

/// Some entry is registered under `id`.
pub open spec fn has_id(all: Seq<DeploymentView>, id: Seq<char>) -> bool {
    exists|i: int| holds_id_at(all, id, i)
}

/// The place of the entry registered under `id`, where there is one.
pub open spec fn position_of(all: Seq<DeploymentView>, id: Seq<char>) -> int {
    choose|i: int| holds_id_at(all, id, i)
}

/// No two entries share a key.
pub open spec fn distinct_ids(all: Seq<DeploymentView>) -> bool {
    forall|i: int, j: int|
        0 <= i < all.len() && 0 <= j < all.len() && all[i].deployment_id == all[j].deployment_id
            ==> i == j
}

/// The deployment serves `model` and may be selected at `now`.
pub open spec fn serves(entry: DeploymentView, model: Seq<char>, now: u64) -> bool {
    entry.model_name == model && entry.eligible_at(now)
}

/// The entries that serve `model` at `now`, in registry order.
pub open spec fn eligible_for(all: Seq<DeploymentView>, model: Seq<char>, now: u64) -> Seq<
    DeploymentView,
>
    decreases all.len(),
{
    if all.len() == 0 {
        Seq::empty()
    } else if serves(all.last(), model, now) {
        eligible_for(all.drop_last(), model, now).push(all.last())
    } else {
        eligible_for(all.drop_last(), model, now)
    }
}

/// How many entries, of any model, may be selected at `now`.
pub open spec fn eligible_count(all: Seq<DeploymentView>, now: u64) -> nat
    decreases all.len(),
{
    if all.len() == 0 {
        0
    } else if all.last().eligible_at(now) {
        eligible_count(all.drop_last(), now) + 1
    } else {
        eligible_count(all.drop_last(), now)
    }
}

/// The registry after `entry` was added: it replaces the entry with its key
/// where there is one, and is appended otherwise.
pub open spec fn after_add(all: Seq<DeploymentView>, entry: DeploymentView) -> Seq<DeploymentView> {
    if has_id(all, entry.deployment_id) {
        all.update(position_of(all, entry.deployment_id), entry)
    } else {
        all.push(entry)
    }
}

/// The registry after the entry under `id` was removed, where there is one.
pub open spec fn after_remove(all: Seq<DeploymentView>, id: Seq<char>) -> Seq<DeploymentView> {
    if has_id(all, id) {
        all.remove(position_of(all, id))
    } else {
        all
    }
}

/// The registry after a success was recorded for `id`: unchanged where no
/// entry has that key.
pub open spec fn after_success(
    all: Seq<DeploymentView>,
    id: Seq<char>,
    latency_us: u64,
    tokens: u32,
    now: u64,
) -> Seq<DeploymentView> {
    if has_id(all, id) {
        let at = position_of(all, id);
        all.update(at, all[at].after_success(latency_us, tokens, now))
    } else {
        all
    }
}

/// The registry after a failure was recorded for `id`: unchanged where no
/// entry has that key.
pub open spec fn after_failure(
    all: Seq<DeploymentView>,
    id: Seq<char>,
    cooldown_seconds: u64,
    now: u64,
) -> Seq<DeploymentView> {
    if has_id(all, id) {
        let at = position_of(all, id);
        all.update(at, all[at].after_failure(cooldown_seconds, now))
    } else {
        all
    }
}

/// What routing `model` at `now` returns for a router in state `router`:
/// the no-healthy-deployments error where nothing serves the model, and
/// otherwise the key of one eligible deployment, which for every strategy
/// but the shuffle is the one at the configured place.
pub open spec fn routed(
    router: RouterView,
    model: Seq<char>,
    now: u64,
    outcome: Result<String, RouterError>,
) -> bool {
    let candidates = eligible_for(router.deployments, model, now);
    if candidates.len() == 0 {
        outcome is Err && outcome->Err_0 is NoHealthyDeployments
    } else if router.config.routing_strategy == RoutingStrategy::SimpleShuffle {
        outcome matches Ok(key) && exists|i: int|
            0 <= i < candidates.len() && candidates[i].deployment_id == key@
    } else {
        let at = configured_index(router.config, candidates);
        &&& 0 <= at < candidates.len()
        &&& outcome matches Ok(key) && key@ == candidates[at].deployment_id
    }
}

/// A router over a registry of deployments.
///
/// The registry keeps at most one deployment per key and lists them in the
/// order in which their keys were first added, so that ties between
/// candidates are broken the same way on every call.
#[derive(Debug)]
pub struct AdvancedRouter {
    deployments: Vec<Deployment>,
    config: RouterConfig,
    request_counter: u64,
}

impl View for AdvancedRouter {
    type V = RouterView;

    closed spec fn view(&self) -> RouterView {
        RouterView {
            deployments: views_of(self.deployments@),
            config: self.config,
            request_count: self.request_counter,
        }
    }
}

impl AdvancedRouter {
    #[verifier::type_invariant]
    spec fn keys_are_unique(self) -> bool {
        distinct_ids(views_of(self.deployments@))
    }

    /// A router with an empty registry.
    pub fn new(config: RouterConfig) -> (router: Self)
        ensures
            router@ == (RouterView { deployments: Seq::empty(), config, request_count: 0 }),
    {
        let router = AdvancedRouter { deployments: Vec::new(), config, request_counter: 0 };
        assert(views_of(router.deployments@) =~= Seq::empty());
        router
    }

    /// Whether the router can be used; it always can.
    pub fn is_available(&self) -> (available: bool)
        ensures
            available,
    {
        true
    }

    /// The configuration the router was built with.
    pub fn config(&self) -> (config: RouterConfig)
        ensures
            config == self@.config,
    {
        self.config
    }

    /// The place of the entry registered under `id`.
    fn find(&self, id: &str) -> (found: Option<usize>)
        ensures
            distinct_ids(self@.deployments),
            match found {
                Some(at) => holds_id_at(self@.deployments, id@, at as int) && position_of(
                    self@.deployments,
                    id@,
                ) == at && has_id(self@.deployments, id@),
                None => !has_id(self@.deployments, id@),
            },
    {
        proof {
            use_type_invariant(self);
        }
        let ghost all = views_of(self.deployments@);
        let mut i: usize = 0;
        while i < self.deployments.len()
            invariant
                all == views_of(self.deployments@),
                all == self@.deployments,
                distinct_ids(all),
                i <= self.deployments.len(),
                forall|j: int| 0 <= j < i ==> !holds_id_at(all, id@, j),
            decreases self.deployments.len() - i,
        {
            if str_eq(self.deployments[i].deployment_id().as_str(), id) {
                assert(holds_id_at(all, id@, i as int));
                return Some(i);
            }
            i += 1;
        }
        None
    }

    /// Moves the list of entries out of the router, which holds an empty
    /// list until the caller stores the changed one.
    fn take_entries(&mut self) -> (entries: Vec<Deployment>)
        ensures
            entries == old(self).deployments,
            final(self).deployments@.len() == 0,
            final(self).config == old(self).config,
            final(self).request_counter == old(self).request_counter,
    {
        let mut entries: Vec<Deployment> = Vec::new();
        core::mem::swap(&mut self.deployments, &mut entries);
        entries
    }

    /// Registers `deployment` under its key: it takes the place of the entry
    /// with the same key where there is one, and is appended otherwise.
    pub fn add_deployment(&mut self, deployment: Deployment)
        ensures
            final(self)@.deployments == after_add(old(self)@.deployments, deployment@),
            final(self)@.config == old(self)@.config,
            final(self)@.request_count == old(self)@.request_count,
            distinct_ids(final(self)@.deployments),
            has_id(final(self)@.deployments, deployment@.deployment_id),
    {
        let found = self.find(deployment.deployment_id().as_str());
        let ghost before = self.deployments@;
        match found {
            Some(at) => {
                proof {
                    assert(views_of(before.update(at as int, deployment)) =~= views_of(before).update(
                        at as int,
                        deployment@,
                    ));
                    lemma_update_keeps_distinct(views_of(before), at as int, deployment@);
                }
                let mut entries = self.take_entries();
                entries[at] = deployment;
                self.deployments = entries;
                assert(holds_id_at(self@.deployments, deployment@.deployment_id, at as int));
            },
            None => {
                proof {
                    assert(views_of(before.push(deployment)) =~= views_of(before).push(deployment@));
                    lemma_push_keeps_distinct(views_of(before), deployment@);
                }
                let mut entries = self.take_entries();
                entries.push(deployment);
                self.deployments = entries;
                assert(holds_id_at(
                    self@.deployments,
                    deployment@.deployment_id,
                    before.len() as int,
                ));
            },
        }
    }

    /// Takes the entry under `deployment_id` out of the registry and says
    /// whether there was one.
    pub fn remove_deployment(&mut self, deployment_id: &str) -> (removed: bool)
        ensures
            removed == has_id(old(self)@.deployments, deployment_id@),
            final(self)@.deployments == after_remove(old(self)@.deployments, deployment_id@),
            final(self)@.config == old(self)@.config,
            final(self)@.request_count == old(self)@.request_count,
            distinct_ids(final(self)@.deployments),
            !has_id(final(self)@.deployments, deployment_id@),
    {
        let found = self.find(deployment_id);
        let ghost before = self.deployments@;
        match found {
            Some(at) => {
                proof {
                    assert(views_of(before.remove(at as int)) =~= views_of(before).remove(at as int));
                    lemma_remove_keeps_distinct(views_of(before), at as int);
                }
                let mut entries = self.take_entries();
                let _ = entries.remove(at);
                self.deployments = entries;
                true
            },
            None => false,
        }
    }

    /// The keys of all registered deployments, in registry order.
    pub fn get_deployment_names(&self) -> (names: Vec<String>)
        ensures
            names@.len() == self@.deployments.len(),
            forall|i: int| 0 <= i < names@.len() ==> names@[i]@ == self@.deployments[i].deployment_id,
            forall|i: int, j: int|
                0 <= i < names@.len() && 0 <= j < names@.len() && names@[i]@ == names@[j]@ ==> i == j,
    {
        proof {
            use_type_invariant(self);
        }
        let ghost all = views_of(self.deployments@);
        let mut names: Vec<String> = Vec::new();
        let mut i: usize = 0;
        while i < self.deployments.len()
            invariant
                all == views_of(self.deployments@),
                i <= self.deployments.len(),
                distinct_ids(all),
                names@.len() == i,
                forall|j: int| 0 <= j < i ==> names@[j]@ == all[j].deployment_id,
            decreases self.deployments.len() - i,
        {
            names.push(self.deployments[i].deployment_id().clone());
            i += 1;
        }
        assert forall|i: int, j: int|
            0 <= i < names@.len() && 0 <= j < names@.len() && names@[i]@ == names@[j]@ implies i
            == j by {
            assert(all[i].deployment_id == all[j].deployment_id);
        }
        names
    }

    /// A snapshot of the entry under `deployment_id`. Later changes to the
    /// registry do not show in it.
    pub fn get_deployment(&self, deployment_id: &str) -> (snapshot: Option<Deployment>)
        ensures
            match snapshot {
                Some(entry) => has_id(self@.deployments, deployment_id@) && entry@
                    == self@.deployments[position_of(self@.deployments, deployment_id@)],
                None => !has_id(self@.deployments, deployment_id@),
            },
    {
        match self.find(deployment_id) {
            Some(at) => Some(self.deployments[at].clone()),
            None => None,
        }
    }

    /// A snapshot of the entry under `deployment_id`, or the not-found error
    /// that names the key.
    pub fn find_deployment(&self, deployment_id: &str) -> (snapshot: Result<
        Deployment,
        RouterError,
    >)
        ensures
            match snapshot {
                Ok(entry) => has_id(self@.deployments, deployment_id@) && entry@
                    == self@.deployments[position_of(self@.deployments, deployment_id@)],
                Err(error) => !has_id(self@.deployments, deployment_id@) && (error
                    matches RouterError::DeploymentNotFound(key) && key@ == deployment_id@),
            },
    {
        match self.get_deployment(deployment_id) {
            Some(entry) => Ok(entry),
            None => Err(RouterError::DeploymentNotFound(deployment_id.to_owned())),
        }
    }

    /// Snapshots of the deployments that serve `model_name` and may be
    /// selected at `now`, in registry order. None of them is unhealthy.
    pub fn get_healthy_deployments_at(&self, model_name: &str, now: u64) -> (candidates: Vec<
        Deployment,
    >)
        ensures
            views_of(candidates@) == eligible_for(self@.deployments, model_name@, now),
            forall|i: int|
                0 <= i < candidates@.len() ==> serves(#[trigger] candidates@[i]@, model_name@, now),
    {
        let ghost all = views_of(self.deployments@);
        let mut candidates: Vec<Deployment> = Vec::new();
        let mut i: usize = 0;
        assert(all.take(0) =~= Seq::empty());
        assert(views_of(candidates@) =~= Seq::empty());
        while i < self.deployments.len()
            invariant
                all == views_of(self.deployments@),
                i <= self.deployments.len(),
                views_of(candidates@) == eligible_for(all.take(i as int), model_name@, now),
                forall|j: int|
                    0 <= j < candidates@.len() ==> serves(
                        #[trigger] candidates@[j]@,
                        model_name@,
                        now,
                    ),
            decreases self.deployments.len() - i,
        {
            let entry = &self.deployments[i];
            let ghost so_far = candidates@;
            assert(all.take(i + 1).drop_last() =~= all.take(i as int));
            assert(all.take(i + 1).last() == all[i as int]);
            if str_eq(entry.model_name().as_str(), model_name) && entry.is_eligible_at(now) {
                let snapshot = entry.clone();
                candidates.push(snapshot);
                assert(views_of(candidates@) =~= views_of(so_far).push(all[i as int]));
            }
            i += 1;
        }
        assert(all.take(i as int) =~= all);
        candidates
    }

    /// Snapshots of the deployments that serve `model_name` and may be
    /// selected at the time the system clock shows.
    pub fn get_healthy_deployments(&self, model_name: &str) -> (candidates: Vec<Deployment>)
        ensures
            exists|now: u64|
                views_of(candidates@) == eligible_for(self@.deployments, model_name@, now),
            forall|i: int|
                0 <= i < candidates@.len() ==> (#[trigger] candidates@[i]@).is_healthy
                    && candidates@[i]@.model_name == model_name@,
    {
        let now = unix_time_now();
        self.get_healthy_deployments_at(model_name, now)
    }

    /// Selects a deployment for `model_name` at `now` without counting an
    /// attempt: gathers the eligible deployments of the model and returns
    /// the key of the one that the configured strategy selects. A strategy
    /// that fails is reported as a routing failure with its text attached.
    pub fn select_deployment_at(&self, model_name: &str, now: u64) -> (outcome: Result<
        String,
        RouterError,
    >)
        ensures
            routed(self@, model_name@, now, outcome),
    {
        let candidates = self.get_healthy_deployments_at(model_name, now);
        if candidates.len() == 0 {
            return Err(RouterError::NoHealthyDeployments);
        }
        match select(&self.config, &candidates) {
            Ok(chosen) => {
                proof {
                    if self.config.routing_strategy == RoutingStrategy::SimpleShuffle {
                        let i = choose|i: int| 0 <= i < candidates@.len() && candidates@[i] == *chosen;
                        assert(views_of(candidates@)[i].deployment_id == chosen@.deployment_id);
                    }
                }
                Ok(chosen.deployment_id().clone())
            },
            Err(cause) => Err(RouterError::routing_failed(self.config.routing_strategy, &cause)),
        }
    }

    /// Selects a deployment for `model_name` at the time the system clock
    /// shows, without counting an attempt. It reads the router only, so any
    /// number of callers may select side by side.
    pub fn select_deployment(&self, model_name: &str) -> (outcome: Result<String, RouterError>)
        ensures
            exists|now: u64| routed(self@, model_name@, now, outcome),
    {
        let now = unix_time_now();
        self.select_deployment_at(model_name, now)
    }

    /// Counts one routing attempt. The count stops at `u64::MAX`.
    pub fn count_request(&mut self)
        ensures
            final(self)@ == (RouterView {
                request_count: capped_sum(old(self)@.request_count, 1),
                ..old(self)@
            }),
    {
        proof {
            use_type_invariant(&*self);
        }
        self.request_counter = self.request_counter.saturating_add(1);
    }

    /// Routes one request for `model_name` at `now`: counts the attempt,
    /// whether or not it succeeds, and selects a deployment. The registry
    /// itself is left as it was.
    pub fn route_request_at(&mut self, model_name: &str, now: u64) -> (outcome: Result<
        String,
        RouterError,
    >)
        ensures
            final(self)@ == (RouterView {
                request_count: capped_sum(old(self)@.request_count, 1),
                ..old(self)@
            }),
            routed(old(self)@, model_name@, now, outcome),
    {
        self.count_request();
        self.select_deployment_at(model_name, now)
    }

    /// Routes one request for `model_name` at the time the system clock
    /// shows.
    pub fn route_request(&mut self, model_name: &str) -> (outcome: Result<String, RouterError>)
        ensures
            final(self)@ == (RouterView {
                request_count: capped_sum(old(self)@.request_count, 1),
                ..old(self)@
            }),
            exists|now: u64| routed(old(self)@, model_name@, now, outcome),
    {
        let now = unix_time_now();
        self.route_request_at(model_name, now)
    }

    /// Records a successful request of `latency_us` microseconds and
    /// `tokens` tokens for the deployment under `deployment_id`, reported at
    /// `now`. Nothing changes where no deployment has that key.
    pub fn update_deployment_stats_at(
        &mut self,
        deployment_id: &str,
        latency_us: u64,
        tokens: u32,
        now: u64,
    )
        ensures
            final(self)@.deployments == after_success(
                old(self)@.deployments,
                deployment_id@,
                latency_us,
                tokens,
                now,
            ),
            final(self)@.config == old(self)@.config,
            final(self)@.request_count == old(self)@.request_count,
            distinct_ids(final(self)@.deployments),
    {
        let found = self.find(deployment_id);
        let ghost before = self.deployments@;
        match found {
            Some(at) => {
                proof {
                    lemma_changed_entry_keeps_keys(before, at as int);
                }
                let mut entries = self.take_entries();
                entries[at].record_success(latency_us, tokens, now);
                self.deployments = entries;
                assert(views_of(self.deployments@) =~= views_of(before).update(
                    at as int,
                    before[at as int]@.after_success(latency_us, tokens, now),
                ));
            },
            None => {},
        }
    }

    /// Records a successful request at the time the system clock shows.
    pub fn update_deployment_stats(&mut self, deployment_id: &str, latency_us: u64, tokens: u32)
        ensures
            exists|now: u64|
                final(self)@.deployments == after_success(
                    old(self)@.deployments,
                    deployment_id@,
                    latency_us,
                    tokens,
                    now,
                ),
            final(self)@.config == old(self)@.config,
            final(self)@.request_count == old(self)@.request_count,
    {
        let now = unix_time_now();
        self.update_deployment_stats_at(deployment_id, latency_us, tokens, now)
    }

    /// Records a failed request for the deployment under `deployment_id`,
    /// reported at `now`: the deployment becomes unhealthy and enters the
    /// configured cooldown. Nothing changes where no deployment has that key.
    pub fn mark_deployment_unhealthy_at(&mut self, deployment_id: &str, now: u64)
        ensures
            final(self)@.deployments == after_failure(
                old(self)@.deployments,
                deployment_id@,
                old(self)@.config.cooldown_time_seconds,
                now,
            ),
            final(self)@.config == old(self)@.config,
            final(self)@.request_count == old(self)@.request_count,
            distinct_ids(final(self)@.deployments),
    {
        let found = self.find(deployment_id);
        let ghost before = self.deployments@;
        let cooldown_seconds: u64 = self.config.cooldown_time_seconds;
        match found {
            Some(at) => {
                proof {
                    lemma_changed_entry_keeps_keys(before, at as int);
                }
                let mut entries = self.take_entries();
                entries[at].record_failure(cooldown_seconds, now);
                self.deployments = entries;
                assert(views_of(self.deployments@) =~= views_of(before).update(
                    at as int,
                    before[at as int]@.after_failure(cooldown_seconds, now),
                ));
            },
            None => {},
        }
    }

    /// Records a failed request at the time the system clock shows.
    pub fn mark_deployment_unhealthy(&mut self, deployment_id: &str)
        ensures
            exists|now: u64|
                final(self)@.deployments == after_failure(
                    old(self)@.deployments,
                    deployment_id@,
                    old(self)@.config.cooldown_time_seconds,
                    now,
                ),
            final(self)@.config == old(self)@.config,
            final(self)@.request_count == old(self)@.request_count,
    {
        let now = unix_time_now();
        self.mark_deployment_unhealthy_at(deployment_id, now)
    }

    /// The router's counters, with eligibility judged at `now`.
    pub fn get_stats_at(&self, now: u64) -> (stats: RouterStats)
        ensures
            stats.total_requests == self@.request_count,
            stats.total_deployments == self@.deployments.len(),
            stats.healthy_deployments == eligible_count(self@.deployments, now),
    {
        let ghost all = views_of(self.deployments@);
        let mut healthy: usize = 0;
        let mut i: usize = 0;
        assert(all.take(0) =~= Seq::empty());
        while i < self.deployments.len()
            invariant
                all == views_of(self.deployments@),
                i <= self.deployments.len(),
                healthy <= i,
                healthy == eligible_count(all.take(i as int), now),
            decreases self.deployments.len() - i,
        {
            assert(all.take(i + 1).drop_last() =~= all.take(i as int));
            assert(all.take(i + 1).last() == all[i as int]);
            if self.deployments[i].is_eligible_at(now) {
                healthy += 1;
            }
            i += 1;
        }
        assert(all.take(i as int) =~= all);
        RouterStats {
            total_requests: self.request_counter,
            total_deployments: self.deployments.len(),
            healthy_deployments: healthy,
        }
    }

    /// The router's counters, with eligibility judged at the time the system
    /// clock shows.
    pub fn get_stats(&self) -> (stats: RouterStats)
        ensures
            stats.total_requests == self@.request_count,
            stats.total_deployments == self@.deployments.len(),
            exists|now: u64| stats.healthy_deployments == eligible_count(self@.deployments, now),
    {
        let now = unix_time_now();
        self.get_stats_at(now)
    }
}

/// Reports that the routing component is in working order; it always is.
pub fn advanced_router_health_check() -> (healthy: bool)
    ensures
        healthy,
{
    true
}

/// Whatever an entry changes into, the keys stay unique as long as its own
/// key stays.
proof fn lemma_changed_entry_keeps_keys(before: Seq<Deployment>, at: int)
    requires
        distinct_ids(views_of(before)),
        0 <= at < before.len(),
    ensures
        forall|next: Deployment|
            next@.deployment_id == before[at]@.deployment_id ==> distinct_ids(
                views_of(#[trigger] before.update(at, next)),
            ),
{
    assert forall|next: Deployment|
        next@.deployment_id == before[at]@.deployment_id implies distinct_ids(
        views_of(#[trigger] before.update(at, next)),
    ) by {
        assert(views_of(before.update(at, next)) =~= views_of(before).update(at, next@));
        lemma_update_keeps_distinct(views_of(before), at, next@);
    }
}

/// Replacing an entry by one with the same key keeps the keys unique.
pub proof fn lemma_update_keeps_distinct(all: Seq<DeploymentView>, at: int, entry: DeploymentView)
    requires
        distinct_ids(all),
        0 <= at < all.len(),
        entry.deployment_id == all[at].deployment_id,
    ensures
        distinct_ids(all.update(at, entry)),
{
    let next = all.update(at, entry);
    assert forall|i: int, j: int|
        0 <= i < next.len() && 0 <= j < next.len() && next[i].deployment_id
            == next[j].deployment_id implies i == j by {
        assert(next[i].deployment_id == all[i].deployment_id);
        assert(next[j].deployment_id == all[j].deployment_id);
    }
}

/// Appending an entry under a key that is not taken keeps the keys unique.
pub proof fn lemma_push_keeps_distinct(all: Seq<DeploymentView>, entry: DeploymentView)
    requires
        distinct_ids(all),
        !has_id(all, entry.deployment_id),
    ensures
        distinct_ids(all.push(entry)),
{
    let next = all.push(entry);
    assert forall|i: int, j: int|
        0 <= i < next.len() && 0 <= j < next.len() && next[i].deployment_id
            == next[j].deployment_id implies i == j by {
        if i < all.len() && j == all.len() {
            assert(holds_id_at(all, entry.deployment_id, i));
        }
        if j < all.len() && i == all.len() {
            assert(holds_id_at(all, entry.deployment_id, j));
        }
    }
}

/// Removing an entry keeps the keys unique, and its key is then free.
pub proof fn lemma_remove_keeps_distinct(all: Seq<DeploymentView>, at: int)
    requires
        distinct_ids(all),
        0 <= at < all.len(),
    ensures
        distinct_ids(all.remove(at)),
        !has_id(all.remove(at), all[at].deployment_id),
{
    let next = all.remove(at);
    assert forall|i: int, j: int|
        0 <= i < next.len() && 0 <= j < next.len() && next[i].deployment_id
            == next[j].deployment_id implies i == j by {
        let from_i = if i < at { i } else { i + 1 };
        let from_j = if j < at { j } else { j + 1 };
        assert(next[i] == all[from_i]);
        assert(next[j] == all[from_j]);
    }
    assert forall|i: int| !holds_id_at(next, all[at].deployment_id, i) by {
        if 0 <= i < next.len() {
            let from_i = if i < at { i } else { i + 1 };
            assert(next[i] == all[from_i]);
        }
    }
}

} // verus!
