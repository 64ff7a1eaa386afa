//! What holds of the router, stated over the models of its parts and proved
//! from the definitions that the contracts use.

use crate::deployment::{next_latency, DeploymentView};
use crate::error::RouterError;
use crate::router::{
    after_add, after_failure, after_remove, after_success, distinct_ids, eligible_count,
    eligible_for, has_id, holds_id_at, lemma_push_keeps_distinct, lemma_remove_keeps_distinct,
    lemma_update_keeps_distinct, position_of, routed, serves, RouterView,
};
use crate::selection::{configured_index, lemma_selected_is_candidate};
use crate::strategy::RoutingStrategy;
use vstd::prelude::*;

verus! {

/// In a registry with unique keys, the place at which a key is found is the
/// place that `position_of` names.
pub proof fn lemma_position_is_unique(all: Seq<DeploymentView>, id: Seq<char>, at: int)
    requires
        distinct_ids(all),
        holds_id_at(all, id, at),
    ensures
        has_id(all, id),
        position_of(all, id) == at,
{
    assert(holds_id_at(all, id, position_of(all, id)));
}

/// Adding an entry leaves every other key where it led before.
proof fn lemma_add_keeps_others(all: Seq<DeploymentView>, entry: DeploymentView, other: Seq<char>)
    requires
        distinct_ids(all),
        distinct_ids(after_add(all, entry)),
        other != entry.deployment_id,
    ensures
        has_id(after_add(all, entry), other) <==> has_id(all, other),
        has_id(all, other) ==> after_add(all, entry)[position_of(after_add(all, entry), other)]
            == all[position_of(all, other)],
{
    let next = after_add(all, entry);
    if has_id(all, entry.deployment_id) {
        assert(holds_id_at(all, entry.deployment_id, position_of(all, entry.deployment_id)));
    }
    if has_id(all, other) {
        let i = position_of(all, other);
        assert(holds_id_at(all, other, i));
        assert(next[i] == all[i]);
        assert(holds_id_at(next, other, i));
        lemma_position_is_unique(next, other, i);
    }
    if has_id(next, other) {
        let i = position_of(next, other);
        assert(holds_id_at(next, other, i));
        assert(i < all.len());
        assert(holds_id_at(all, other, i));
    }
}

/// The registry is a map from keys to deployments: after an entry was
/// added, its key leads to it, and every other key leads where it led
/// before.
pub proof fn lemma_add_then_lookup(
    all: Seq<DeploymentView>,
    entry: DeploymentView,
    other: Seq<char>,
)
    requires
        distinct_ids(all),
    ensures
        distinct_ids(after_add(all, entry)),
        has_id(after_add(all, entry), entry.deployment_id),
        after_add(all, entry)[position_of(after_add(all, entry), entry.deployment_id)] == entry,
        other != entry.deployment_id ==> (has_id(after_add(all, entry), other) <==> has_id(
            all,
            other,
        )),
        other != entry.deployment_id && has_id(all, other) ==> after_add(all, entry)[position_of(
            after_add(all, entry),
            other,
        )] == all[position_of(all, other)],
{
    let id = entry.deployment_id;
    let next = after_add(all, entry);
    if has_id(all, id) {
        let at = position_of(all, id);
        assert(holds_id_at(all, id, at));
        lemma_update_keeps_distinct(all, at, entry);
        assert(holds_id_at(next, id, at));
        lemma_position_is_unique(next, id, at);
    } else {
        lemma_push_keeps_distinct(all, entry);
        assert(holds_id_at(next, id, all.len() as int));
        lemma_position_is_unique(next, id, all.len() as int);
    }
    if other != id {
        lemma_add_keeps_others(all, entry, other);
    }
}

/// Removing the entry at `at` leaves every other key where it led before.
proof fn lemma_remove_keeps_others(all: Seq<DeploymentView>, at: int, other: Seq<char>)
    requires
        distinct_ids(all),
        distinct_ids(all.remove(at)),
        0 <= at < all.len(),
        other != all[at].deployment_id,
    ensures
        has_id(all.remove(at), other) <==> has_id(all, other),
        has_id(all, other) ==> all.remove(at)[position_of(all.remove(at), other)]
            == all[position_of(all, other)],
{
    let next = all.remove(at);
    if has_id(all, other) {
        let i = position_of(all, other);
        assert(holds_id_at(all, other, i));
        let moved = if i < at { i } else { i - 1 };
        assert(next[moved] == all[i]);
        assert(holds_id_at(next, other, moved));
        lemma_position_is_unique(next, other, moved);
    }
    if has_id(next, other) {
        let i = position_of(next, other);
        assert(holds_id_at(next, other, i));
        let from = if i < at { i } else { i + 1 };
        assert(next[i] == all[from]);
        assert(holds_id_at(all, other, from));
    }
}

/// After a key was removed it leads nowhere, and every other key leads
/// where it led before.
pub proof fn lemma_remove_then_lookup(all: Seq<DeploymentView>, id: Seq<char>, other: Seq<char>)
    requires
        distinct_ids(all),
    ensures
        distinct_ids(after_remove(all, id)),
        !has_id(after_remove(all, id), id),
        other != id ==> (has_id(after_remove(all, id), other) <==> has_id(all, other)),
        other != id && has_id(all, other) ==> after_remove(all, id)[position_of(
            after_remove(all, id),
            other,
        )] == all[position_of(all, other)],
{
    if has_id(all, id) {
        let at = position_of(all, id);
        assert(holds_id_at(all, id, at));
        lemma_remove_keeps_distinct(all, at);
        if other != id {
            lemma_remove_keeps_others(all, at, other);
        }
    }
}

/// Every entry that the filter returns is an entry of the registry that
/// serves the model and is eligible; the filter keeps the registry's order.
pub proof fn lemma_eligible_are_registered(all: Seq<DeploymentView>, model: Seq<char>, now: u64)
    ensures
        eligible_for(all, model, now).len() <= all.len(),
        forall|k: int|
            0 <= k < eligible_for(all, model, now).len() ==> serves(
                #[trigger] eligible_for(all, model, now)[k],
                model,
                now,
            ) && all.contains(eligible_for(all, model, now)[k]),
    decreases all.len(),
{
    if all.len() > 0 {
        let front = all.drop_last();
        lemma_eligible_are_registered(front, model, now);
        let found = eligible_for(all, model, now);
        assert forall|k: int| 0 <= k < found.len() implies serves(#[trigger] found[k], model, now)
            && all.contains(found[k]) by {
            if k < eligible_for(front, model, now).len() {
                let entry = eligible_for(front, model, now)[k];
                assert(front.contains(entry));
                let j = choose|j: int| 0 <= j < front.len() && front[j] == entry;
                assert(all[j] == entry);
            } else {
                assert(found[k] == all[all.len() - 1]);
            }
        }
    }
}

/// Every entry of the registry that serves the model and is eligible is
/// returned by the filter.
pub proof fn lemma_serving_are_eligible(all: Seq<DeploymentView>, model: Seq<char>, now: u64, at: int)
    requires
        0 <= at < all.len(),
        serves(all[at], model, now),
    ensures
        eligible_for(all, model, now).contains(all[at]),
    decreases all.len(),
{
    let last = all.len() - 1;
    let front = all.drop_last();
    let found = eligible_for(all, model, now);
    if at == last {
        assert(found[found.len() - 1] == all[at]);
    } else {
        lemma_serving_are_eligible(front, model, now, at);
        let before = eligible_for(front, model, now);
        let k = choose|k: int| 0 <= k < before.len() && before[k] == front[at];
        assert(found[k] == all[at]);
    }
}

/// A deployment that is flagged unhealthy is not returned by the filter,
/// whatever its cooldown says.
pub proof fn lemma_unhealthy_is_never_eligible(
    all: Seq<DeploymentView>,
    model: Seq<char>,
    now: u64,
)
    ensures
        forall|k: int|
            0 <= k < eligible_for(all, model, now).len() ==> (#[trigger] eligible_for(
                all,
                model,
                now,
            )[k]).is_healthy,
        forall|j: int|
            0 <= j < all.len() && !(#[trigger] all[j]).is_healthy && distinct_ids(all)
                ==> !has_id(eligible_for(all, model, now), all[j].deployment_id),
{
    lemma_eligible_are_registered(all, model, now);
    let found = eligible_for(all, model, now);
    assert forall|j: int|
        0 <= j < all.len() && !(#[trigger] all[j]).is_healthy && distinct_ids(all) implies !has_id(
        found,
        all[j].deployment_id,
    ) by {
        if has_id(found, all[j].deployment_id) {
            let k = choose|k: int| holds_id_at(found, all[j].deployment_id, k);
            assert(all.contains(found[k]));
            let i = choose|i: int| 0 <= i < all.len() && all[i] == found[k];
            assert(i == j);
        }
    }
}

/// A deployment that has failed at `failed_at` is in cooldown exactly until
/// the cooldown time has passed, and is excluded from selection at every
/// time, before and after: the health flag is not cleared by time.
pub proof fn lemma_failure_excludes(
    entry: DeploymentView,
    cooldown_seconds: u64,
    failed_at: u64,
    now: u64,
)
    ensures
        !entry.after_failure(cooldown_seconds, failed_at).eligible_at(now),
        failed_at + cooldown_seconds <= u64::MAX ==> (entry.after_failure(
            cooldown_seconds,
            failed_at,
        ).in_cooldown_at(now) <==> now < failed_at + cooldown_seconds),
{
}

/// After a failure was recorded for a registered key, the filter returns no
/// entry under that key, for any model and at any time.
pub proof fn lemma_marked_is_excluded(
    all: Seq<DeploymentView>,
    id: Seq<char>,
    cooldown_seconds: u64,
    failed_at: u64,
    model: Seq<char>,
    now: u64,
)
    requires
        distinct_ids(all),
        has_id(all, id),
    ensures
        !has_id(
            eligible_for(after_failure(all, id, cooldown_seconds, failed_at), model, now),
            id,
        ),
{
    let at = position_of(all, id);
    assert(holds_id_at(all, id, at));
    let failed = all[at].after_failure(cooldown_seconds, failed_at);
    let next = after_failure(all, id, cooldown_seconds, failed_at);
    lemma_update_keeps_distinct(all, at, failed);
    lemma_unhealthy_is_never_eligible(next, model, now);
    assert(!next[at].is_healthy);
    assert(next[at].deployment_id == id);
}

/// Feedback never makes an unhealthy deployment eligible again.
pub proof fn lemma_feedback_keeps_exclusion(
    entry: DeploymentView,
    latency_us: u64,
    tokens: u32,
    cooldown_seconds: u64,
    reported_at: u64,
    now: u64,
)
    requires
        !entry.is_healthy,
    ensures
        !entry.after_success(latency_us, tokens, reported_at).eligible_at(now),
        !entry.after_failure(cooldown_seconds, reported_at).eligible_at(now),
{
}

/// The first success of a deployment seeds the average latency with its
/// sample, whatever the sample is; the next one moves the average to nine
/// parts old and one part new.
pub proof fn lemma_latency_average(
    entry: DeploymentView,
    first_us: u64,
    second_us: u64,
    tokens: u32,
    now: u64,
)
    requires
        entry.total_requests == 0,
        entry.successful_requests == 0,
    ensures
        entry.after_success(first_us, tokens, now).avg_latency_us == first_us,
        entry.after_success(first_us, tokens, now).after_success(
            second_us,
            tokens,
            now,
        ).avg_latency_us == (9 * first_us + second_us) / 10,
        next_latency(0, 0, 100000) == 100000,
        next_latency(1, 100000, 200000) == 110000,
        next_latency(1, 0, 100000) == 10000,
{
}

/// Once a success has been counted, every further success blends: the
/// average is never seeded a second time.
pub proof fn lemma_later_samples_blend(entry: DeploymentView, sample_us: u64, tokens: u32, now: u64)
    requires
        entry.balanced(),
        entry.successful_requests > 0,
    ensures
        entry.after_success(sample_us, tokens, now).avg_latency_us == (9 * entry.avg_latency_us
            + sample_us) / 10,
        entry.after_success(sample_us, tokens, now).successful_requests > 0,
{
}

/// A fresh deployment is balanced, and feedback keeps a deployment balanced:
/// `total_requests == successful_requests + failed_requests`.
pub proof fn lemma_feedback_keeps_balance(
    entry: DeploymentView,
    latency_us: u64,
    tokens: u32,
    cooldown_seconds: u64,
    now: u64,
)
    requires
        entry.balanced(),
    ensures
        entry.after_success(latency_us, tokens, now).balanced(),
        entry.after_failure(cooldown_seconds, now).balanced(),
        DeploymentView::fresh(
            entry.deployment_id,
            entry.model_name,
            entry.litellm_params,
            entry.model_info,
        ).balanced(),
{
}

/// All entries of the registry are balanced.
pub open spec fn all_balanced(all: Seq<DeploymentView>) -> bool {
    forall|i: int| 0 <= i < all.len() ==> (#[trigger] all[i]).balanced()
}

/// Feedback through the registry, for any key, keeps every entry balanced
/// and the keys unique.
pub proof fn lemma_registry_feedback_keeps_balance(
    all: Seq<DeploymentView>,
    id: Seq<char>,
    latency_us: u64,
    tokens: u32,
    cooldown_seconds: u64,
    now: u64,
)
    requires
        all_balanced(all),
        distinct_ids(all),
    ensures
        all_balanced(after_success(all, id, latency_us, tokens, now)),
        all_balanced(after_failure(all, id, cooldown_seconds, now)),
        distinct_ids(after_success(all, id, latency_us, tokens, now)),
        distinct_ids(after_failure(all, id, cooldown_seconds, now)),
{
    if has_id(all, id) {
        let at = position_of(all, id);
        assert(holds_id_at(all, id, at));
        lemma_update_keeps_distinct(all, at, all[at].after_success(latency_us, tokens, now));
        lemma_update_keeps_distinct(all, at, all[at].after_failure(cooldown_seconds, now));
    }
}

/// A key that routing returns is the key of a registered deployment that
/// serves the model and is eligible: routing never makes up a deployment.
pub proof fn lemma_routed_key_is_eligible(
    router: RouterView,
    model: Seq<char>,
    now: u64,
    outcome: Result<String, RouterError>,
)
    requires
        routed(router, model, now, outcome),
    ensures
        outcome matches Ok(key) ==> exists|i: int|
            holds_id_at(router.deployments, key@, i) && serves(
                #[trigger] router.deployments[i],
                model,
                now,
            ),
        outcome is Err <==> eligible_for(router.deployments, model, now).len() == 0,
{
    let all = router.deployments;
    let found = eligible_for(all, model, now);
    lemma_eligible_are_registered(all, model, now);
    if let Ok(key) = outcome {
        let k = if router.config.routing_strategy == RoutingStrategy::SimpleShuffle {
            choose|k: int| 0 <= k < found.len() && found[k].deployment_id == key@
        } else {
            configured_index(router.config, found)
        };
        assert(serves(found[k], model, now));
        assert(all.contains(found[k]));
        let i = choose|i: int| 0 <= i < all.len() && all[i] == found[k];
        assert(holds_id_at(all, key@, i) && serves(all[i], model, now));
    }
}

/// Under every strategy but the shuffle, routing the same model at the same
/// time over the same registry gives the same outcome, however many
/// attempts were counted in between.
pub proof fn lemma_routing_is_repeatable(
    router: RouterView,
    attempts_later: u64,
    model: Seq<char>,
    now: u64,
    first: Result<String, RouterError>,
    second: Result<String, RouterError>,
)
    requires
        router.config.routing_strategy != RoutingStrategy::SimpleShuffle,
        routed(router, model, now, first),
        routed(RouterView { request_count: attempts_later, ..router }, model, now, second),
    ensures
        first is Ok <==> second is Ok,
        first is Ok ==> first->Ok_0@ == second->Ok_0@,
        first is Err ==> first->Err_0 is NoHealthyDeployments && second->Err_0
            is NoHealthyDeployments,
{
}

/// Where exactly one deployment serves the model, every strategy, the
/// shuffle included, routes to it, on every call.
pub proof fn lemma_single_candidate_is_routed(
    router: RouterView,
    model: Seq<char>,
    now: u64,
    outcome: Result<String, RouterError>,
)
    requires
        eligible_for(router.deployments, model, now).len() == 1,
        routed(router, model, now, outcome),
    ensures
        outcome matches Ok(key) && key@ == eligible_for(
            router.deployments,
            model,
            now,
        )[0].deployment_id,
{
    let found = eligible_for(router.deployments, model, now);
    if router.config.routing_strategy != RoutingStrategy::SimpleShuffle {
        match router.config.routing_strategy {
            RoutingStrategy::UsageBasedV2 => {
                lemma_selected_is_candidate(
                    RoutingStrategy::UsageBasedV2,
                    router.config.rpm_limit,
                    router.config.tpm_limit,
                    found,
                );
            },
            ranking => {
                lemma_selected_is_candidate(ranking, None, None, found);
            },
        }
    }
}

/// The number of eligible deployments never exceeds the size of the
/// registry.
pub proof fn lemma_eligible_count_is_bounded(all: Seq<DeploymentView>, now: u64)
    ensures
        eligible_count(all, now) <= all.len(),
    decreases all.len(),
{
    if all.len() > 0 {
        lemma_eligible_count_is_bounded(all.drop_last(), now);
    }
}

} // verus!
