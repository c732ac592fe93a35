//! What holds of a worker's metrics over a run of requests.
use core::time::Duration;
use vstd::prelude::*;

use crate::fnv;
use crate::metrics::{self, CollectorsModel, CounterChild, HistogramChild, Metrics};
use crate::text;

verus! {

/// A request that has ended.
pub struct Outcome {
    pub endpoint: Seq<char>,
    pub status: u16,
    pub duration: Duration,
}

/// What collectors hold after a run of requests.
pub open spec fn after_requests(model: CollectorsModel, requests: Seq<Outcome>) -> CollectorsModel
    decreases requests.len(),
{
    if requests.len() == 0 {
        model
    } else {
        let last = requests.last();
        metrics::recorded(
            after_requests(model, requests.drop_last()),
            last.endpoint,
            last.status,
            last.duration,
        )
    }
}

/// The label values under which a request is counted by endpoint and status.
pub open spec fn both_labels(request: Outcome) -> Seq<Seq<char>> {
    seq![request.endpoint, text::decimal(request.status as nat)]
}

/// The label values under which a request is measured by endpoint.
pub open spec fn endpoint_label(request: Outcome) -> Seq<Seq<char>> {
    seq![request.endpoint]
}

/// The requests whose endpoint and status have this hash.
pub open spec fn with_both(hash: u64) -> spec_fn(Outcome) -> bool {
    |request: Outcome| fnv::values_hash(both_labels(request)) == hash
}

/// The requests whose endpoint and status have this hash, and that took so long.
pub open spec fn with_both_and_duration(hash: u64, duration: Duration) -> spec_fn(Outcome) -> bool {
    |request: Outcome|
        fnv::values_hash(both_labels(request)) == hash && request.duration == duration
}

/// The requests whose endpoint has this hash, and that took so long.
pub open spec fn with_endpoint_and_duration(hash: u64, duration: Duration) -> spec_fn(
    Outcome,
) -> bool {
    |request: Outcome|
        fnv::values_hash(endpoint_label(request)) == hash && request.duration == duration
}

/// How many requests of a run are such.
pub open spec fn number(requests: Seq<Outcome>, such: spec_fn(Outcome) -> bool) -> nat
    decreases requests.len(),
{
    if requests.len() == 0 {
        0
    } else {
        number(requests.drop_last(), such) + if such(requests.last()) {
            1nat
        } else {
            0nat
        }
    }
}

/// What the counter with this hash has counted.
pub open spec fn counted(children: Map<u64, CounterChild>, hash: u64) -> nat {
    if children.contains_key(hash) {
        children[hash].count
    } else {
        0
    }
}

/// How often the histogram with this hash has observed this duration.
pub open spec fn times_observed(
    children: Map<u64, HistogramChild>,
    hash: u64,
    duration: Duration,
) -> nat {
    if children.contains_key(hash) {
        children[hash].observed.to_multiset().count(duration)
    } else {
        0
    }
}

/// One more observation adds one to the histogram of its hash and its duration,
/// and to nothing else.
proof fn lemma_observing(
    children: Map<u64, HistogramChild>,
    values: Seq<Seq<char>>,
    observed: Duration,
    hash: u64,
    duration: Duration,
)
    ensures
        times_observed(metrics::observing(children, values, observed), hash, duration)
            == times_observed(children, hash, duration) + if fnv::values_hash(values) == hash
            && observed == duration {
            1nat
        } else {
            0nat
        },
{
    broadcast use vstd::seq_lib::group_to_multiset_ensures;

    let own = fnv::values_hash(values);
    if own == hash {
        let before = if children.contains_key(hash) {
            children[hash].observed
        } else {
            Seq::empty()
        };
        assert(metrics::observing(children, values, observed)[hash].observed == before.push(
            observed,
        ));
        assert(before.push(observed).to_multiset() =~= before.to_multiset().insert(observed));
        assert(Seq::<Duration>::empty().to_multiset().count(duration) == 0);
    }
}

/// No request is lost: after a run of requests the total has gone up by their
/// number, each counter by the number of those whose label values have its hash,
/// and each histogram has observed the duration of each of those.
pub proof fn every_request_is_counted(
    model: CollectorsModel,
    requests: Seq<Outcome>,
    hash: u64,
    duration: Duration,
)
    ensures
        ({
            let after = after_requests(model, requests);
            &&& after.requests_total.count == model.requests_total.count + requests.len()
            &&& counted(after.status_codes.children, hash) == counted(
                model.status_codes.children,
                hash,
            ) + number(requests, with_both(hash))
            &&& times_observed(after.latency_by_status.children, hash, duration)
                == times_observed(model.latency_by_status.children, hash, duration) + number(
                requests,
                with_both_and_duration(hash, duration),
            )
            &&& times_observed(after.latency.children, hash, duration) == times_observed(
                model.latency.children,
                hash,
                duration,
            ) + number(requests, with_endpoint_and_duration(hash, duration))
        }),
    decreases requests.len(),
{
    if requests.len() > 0 {
        let last = requests.last();
        let rest = requests.drop_last();
        every_request_is_counted(model, rest, hash, duration);
        let before = after_requests(model, rest);
        lemma_observing(
            before.latency_by_status.children,
            both_labels(last),
            last.duration,
            hash,
            duration,
        );
        lemma_observing(
            before.latency.children,
            endpoint_label(last),
            last.duration,
            hash,
            duration,
        );
    }
}

/// How many requests are such does not depend on their order.
proof fn lemma_number(requests: Seq<Outcome>, such: spec_fn(Outcome) -> bool)
    ensures
        number(requests, such) == requests.to_multiset().filter(such).len(),
    decreases requests.len(),
{
    broadcast use vstd::seq_lib::group_to_multiset_ensures;
    broadcast use vstd::multiset::group_multiset_axioms;

    if requests.len() == 0 {
        assert(requests.to_multiset().filter(such) =~= vstd::multiset::Multiset::empty());
    } else {
        let rest = requests.drop_last();
        let last = requests.last();
        lemma_number(rest, such);
        assert(requests =~= rest.push(last));
        assert(requests.to_multiset() =~= rest.to_multiset().insert(last));
        if such(last) {
            assert(requests.to_multiset().filter(such) =~= rest.to_multiset().filter(such).insert(
                last,
            ));
        } else {
            assert(requests.to_multiset().filter(such) =~= rest.to_multiset().filter(such));
        }
    }
}

/// The order of the requests changes no count: the same requests in another
/// order lead to the same total, the same counters, and histograms that have
/// observed the same durations equally often.
pub proof fn the_order_changes_no_count(
    model: CollectorsModel,
    requests: Seq<Outcome>,
    reordered: Seq<Outcome>,
    hash: u64,
    duration: Duration,
)
    requires
        requests.to_multiset() == reordered.to_multiset(),
    ensures
        ({
            let one = after_requests(model, requests);
            let other = after_requests(model, reordered);
            &&& one.requests_total == other.requests_total
            &&& counted(one.status_codes.children, hash) == counted(
                other.status_codes.children,
                hash,
            )
            &&& times_observed(one.latency.children, hash, duration) == times_observed(
                other.latency.children,
                hash,
                duration,
            )
            &&& times_observed(one.latency_by_status.children, hash, duration)
                == times_observed(other.latency_by_status.children, hash, duration)
        }),
{
    broadcast use vstd::seq_lib::group_to_multiset_ensures;

    every_request_is_counted(model, requests, hash, duration);
    every_request_is_counted(model, reordered, hash, duration);
    lemma_number(requests, with_both(hash));
    lemma_number(reordered, with_both(hash));
    lemma_number(requests, with_both_and_duration(hash, duration));
    lemma_number(reordered, with_both_and_duration(hash, duration));
    lemma_number(requests, with_endpoint_and_duration(hash, duration));
    lemma_number(reordered, with_endpoint_and_duration(hash, duration));
    assert(requests.len() == requests.to_multiset().len());
    assert(reordered.len() == reordered.to_multiset().len());
    lemma_total(model, requests);
    lemma_total(model, reordered);
}

/// Nothing but the count of the total changes.
proof fn lemma_total(model: CollectorsModel, requests: Seq<Outcome>)
    ensures
        after_requests(model, requests).requests_total.name == model.requests_total.name,
        after_requests(model, requests).requests_total.help == model.requests_total.help,
    decreases requests.len(),
{
    if requests.len() > 0 {
        lemma_total(model, requests.drop_last());
    }
}

/// Whether no two requests of a run have different label values of one hash.
pub open spec fn hash_apart(requests: Seq<Outcome>) -> bool {
    forall|i: int, j: int|
        0 <= i < requests.len() && 0 <= j < requests.len() && fnv::values_hash(
            both_labels(#[trigger] requests[i]),
        ) == fnv::values_hash(both_labels(#[trigger] requests[j])) ==> both_labels(requests[i])
            == both_labels(requests[j])
}

/// Every counter was made for a request of the run.
proof fn lemma_made_for(requests: Seq<Outcome>, hash: u64) -> (i: int)
    requires
        after_requests(metrics::fresh_model(), requests).status_codes.children.contains_key(hash),
    ensures
        0 <= i < requests.len(),
        fnv::values_hash(both_labels(requests[i])) == hash,
        after_requests(metrics::fresh_model(), requests).status_codes.children[hash].values
            == both_labels(requests[i]),
    decreases requests.len(),
{
    let rest = requests.drop_last();
    let last = requests.last();
    let before = after_requests(metrics::fresh_model(), rest);
    if before.status_codes.children.contains_key(hash) {
        let i = lemma_made_for(rest, hash);
        assert(rest[i] == requests[i]);
        i
    } else {
        requests.len() - 1
    }
}

/// Two ways to pick the same requests pick equally many.
proof fn lemma_same_number(
    requests: Seq<Outcome>,
    one: spec_fn(Outcome) -> bool,
    other: spec_fn(Outcome) -> bool,
)
    requires
        forall|i: int|
            0 <= i < requests.len() ==> one(#[trigger] requests[i]) == other(requests[i]),
    ensures
        number(requests, one) == number(requests, other),
    decreases requests.len(),
{
    if requests.len() > 0 {
        let rest = requests.drop_last();
        assert forall|i: int| 0 <= i < rest.len() implies one(#[trigger] rest[i]) == other(
            rest[i],
        ) by {
            assert(rest[i] == requests[i]);
        }
        lemma_same_number(rest, one, other);
        assert(one(requests[requests.len() - 1]) == other(requests[requests.len() - 1]));
    }
}

/// Where the hashes tell the label values of a run apart, each endpoint and
/// status has a counter of its own, which has counted the requests of that
/// endpoint and status and no others.
pub proof fn requests_are_counted_under_their_own_labels(requests: Seq<Outcome>, i: int)
    requires
        hash_apart(requests),
        0 <= i < requests.len(),
    ensures
        ({
            let children = after_requests(
                metrics::fresh_model(),
                requests,
            ).status_codes.children;
            let own = both_labels(requests[i]);
            let hash = fnv::values_hash(own);
            &&& children.contains_key(hash)
            &&& children[hash].values == own
            &&& children[hash].count == number(
                requests,
                |request: Outcome| both_labels(request) == own,
            )
        }),
{
    let own = both_labels(requests[i]);
    let hash = fnv::values_hash(own);
    let by_labels = |request: Outcome| both_labels(request) == own;
    every_request_is_counted(metrics::fresh_model(), requests, hash, requests[i].duration);
    lemma_same_number(requests, with_both(hash), by_labels);
    lemma_positive(requests, with_both(hash), i);
    let k = lemma_made_for(requests, hash);
    assert(both_labels(requests[k]) == both_labels(requests[i]));
}

/// A run that has such a request has some.
proof fn lemma_positive(requests: Seq<Outcome>, such: spec_fn(Outcome) -> bool, i: int)
    requires
        0 <= i < requests.len(),
        such(requests[i]),
    ensures
        number(requests, such) > 0,
    decreases requests.len(),
{
    if i < requests.len() - 1 {
        assert(requests.drop_last()[i] == requests[i]);
        lemma_positive(requests.drop_last(), such, i);
    }
}

/// Whether the counters of status codes and the latencies by status tell of the
/// same requests.
pub open spec fn agree(model: CollectorsModel) -> bool {
    &&& model.status_codes.children.dom() == model.latency_by_status.children.dom()
    &&& forall|hash: u64| #[trigger]
        model.status_codes.children.contains_key(hash) ==> {
            let counter = model.status_codes.children[hash];
            let histogram = model.latency_by_status.children[hash];
            &&& counter.values == histogram.values
            &&& counter.count == histogram.observed.len()
        }
}

/// For every counter of a status code there is a histogram of the same label
/// values, which has observed as many requests as the counter has counted; at
/// first, and after every request.
pub proof fn counters_and_histograms_agree(
    model: CollectorsModel,
    endpoint: Seq<char>,
    status: u16,
    duration: Duration,
)
    ensures
        agree(metrics::fresh_model()),
        agree(model) ==> agree(metrics::recorded(model, endpoint, status, duration)),
{
    if agree(model) {
        let after = metrics::recorded(model, endpoint, status, duration);
        assert(after.status_codes.children.dom() =~= after.latency_by_status.children.dom());
    }
}

/// The sum of `f` over what a map holds.
pub open spec fn sum<A>(map: Map<u64, A>, f: spec_fn(A) -> nat) -> nat
    decreases map.dom().len(),
{
    if map.dom().finite() && map.dom().len() > 0 {
        let key = map.dom().choose();
        f(map[key]) + sum(map.remove(key), f)
    } else {
        0
    }
}

/// What a counter has counted.
pub open spec fn count_of() -> spec_fn(CounterChild) -> nat {
    |child: CounterChild| child.count
}

/// What a counter has counted, if it was made for this endpoint.
pub open spec fn count_of_endpoint(endpoint: Seq<char>) -> spec_fn(CounterChild) -> nat {
    |child: CounterChild|
        if child.values.len() == 2 && child.values[0] == endpoint {
            child.count
        } else {
            0
        }
}

/// How much a histogram has observed.
pub open spec fn observations_of() -> spec_fn(HistogramChild) -> nat {
    |child: HistogramChild| child.observed.len()
}

/// The sum does not depend on where one begins.
proof fn lemma_sum_remove<A>(map: Map<u64, A>, f: spec_fn(A) -> nat, key: u64)
    requires
        map.dom().finite(),
        map.contains_key(key),
    ensures
        sum(map, f) == f(map[key]) + sum(map.remove(key), f),
    decreases map.dom().len(),
{
    assert(map.dom().len() > 0) by {
        assert(map.dom().contains(key));
        if map.dom().len() == 0 {
            assert(map.dom() =~= Set::empty());
        }
    }
    let first = map.dom().choose();
    if first != key {
        lemma_sum_remove(map.remove(first), f, key);
        lemma_sum_remove(map.remove(key), f, first);
        assert(map.remove(first).remove(key) =~= map.remove(key).remove(first));
    }
}

/// A value that is put in place of another changes the sum by their difference.
proof fn lemma_sum_insert<A>(map: Map<u64, A>, f: spec_fn(A) -> nat, key: u64, value: A)
    requires
        map.dom().finite(),
    ensures
        sum(map.insert(key, value), f) + (if map.contains_key(key) {
            f(map[key])
        } else {
            0
        }) == sum(map, f) + f(value),
{
    lemma_sum_remove(map.insert(key, value), f, key);
    assert(map.insert(key, value).remove(key) =~= map.remove(key));
    if map.contains_key(key) {
        lemma_sum_remove(map, f, key);
    } else {
        assert(map.remove(key) =~= map);
    }
}

/// Whether the counters of status codes, the latencies and the latencies by status
/// each add up to the number of requests.
pub open spec fn adds_up(model: CollectorsModel) -> bool {
    &&& model.status_codes.children.dom().finite()
    &&& model.latency.children.dom().finite()
    &&& model.latency_by_status.children.dom().finite()
    &&& sum(model.status_codes.children, count_of()) == model.requests_total.count
    &&& sum(model.latency.children, observations_of()) == model.requests_total.count
    &&& sum(model.latency_by_status.children, observations_of()) == model.requests_total.count
}

/// The counters of all endpoints and statuses add up to the number of requests,
/// and so do the latencies, by endpoint and by endpoint and status; at first, and
/// after every request.
pub proof fn the_counts_add_up(
    model: CollectorsModel,
    endpoint: Seq<char>,
    status: u16,
    duration: Duration,
)
    ensures
        adds_up(metrics::fresh_model()),
        adds_up(model) ==> adds_up(metrics::recorded(model, endpoint, status, duration)),
{
    if adds_up(model) {
        let both = seq![endpoint, text::decimal(status as nat)];
        let own = seq![endpoint];
        let after = metrics::recorded(model, endpoint, status, duration);
        let (h, g) = (fnv::values_hash(both), fnv::values_hash(own));
        lemma_sum_insert(
            model.status_codes.children,
            count_of(),
            h,
            after.status_codes.children[h],
        );
        lemma_sum_insert(
            model.latency.children,
            observations_of(),
            g,
            after.latency.children[g],
        );
        lemma_sum_insert(
            model.latency_by_status.children,
            observations_of(),
            h,
            after.latency_by_status.children[h],
        );
    }
}

/// The counts of a worker's metrics add up after every run of requests.
pub proof fn the_counts_of_a_run_add_up(requests: Seq<Outcome>)
    ensures
        adds_up(after_requests(metrics::fresh_model(), requests)),
        after_requests(metrics::fresh_model(), requests).requests_total.count == requests.len(),
    decreases requests.len(),
{
    if requests.len() > 0 {
        let last = requests.last();
        the_counts_of_a_run_add_up(requests.drop_last());
        the_counts_add_up(
            after_requests(metrics::fresh_model(), requests.drop_last()),
            last.endpoint,
            last.status,
            last.duration,
        );
    }
}

/// The requests to this endpoint.
pub open spec fn to_endpoint(endpoint: Seq<char>) -> spec_fn(Outcome) -> bool {
    |request: Outcome| request.endpoint == endpoint
}

/// The requests whose endpoint has this hash.
pub open spec fn with_endpoint(hash: u64) -> spec_fn(Outcome) -> bool {
    |request: Outcome| fnv::values_hash(endpoint_label(request)) == hash
}

/// Whether no two requests of a run have different endpoints of one hash.
pub open spec fn endpoints_hash_apart(requests: Seq<Outcome>) -> bool {
    forall|i: int, j: int|
        0 <= i < requests.len() && 0 <= j < requests.len() && fnv::values_hash(
            endpoint_label(#[trigger] requests[i]),
        ) == fnv::values_hash(endpoint_label(#[trigger] requests[j])) ==> requests[i].endpoint
            == requests[j].endpoint
}

/// Where the hashes tell label values apart, the counters of an endpoint add up
/// to the requests to it.
proof fn lemma_endpoint_counts(requests: Seq<Outcome>, endpoint: Seq<char>)
    requires
        hash_apart(requests),
    ensures
        sum(
            after_requests(metrics::fresh_model(), requests).status_codes.children,
            count_of_endpoint(endpoint),
        ) == number(requests, to_endpoint(endpoint)),
    decreases requests.len(),
{
    if requests.len() > 0 {
        let rest = requests.drop_last();
        let last = requests.last();
        assert(requests[requests.len() - 1] == last);
        assert(hash_apart(rest)) by {
            assert forall|i: int, j: int|
                0 <= i < rest.len() && 0 <= j < rest.len() && fnv::values_hash(
                    both_labels(#[trigger] rest[i]),
                ) == fnv::values_hash(both_labels(#[trigger] rest[j])) implies both_labels(rest[i])
                == both_labels(rest[j]) by {
                assert(rest[i] == requests[i] && rest[j] == requests[j]);
            }
        }
        lemma_endpoint_counts(rest, endpoint);
        the_counts_of_a_run_add_up(rest);
        let before = after_requests(metrics::fresh_model(), rest).status_codes.children;
        let after = after_requests(metrics::fresh_model(), requests).status_codes.children;
        let own = both_labels(last);
        let hash = fnv::values_hash(own);
        lemma_sum_insert(before, count_of_endpoint(endpoint), hash, after[hash]);
        assert(own[0] == last.endpoint);
        if before.contains_key(hash) {
            let i = lemma_made_for(rest, hash);
            assert(rest[i] == requests[i]);
            assert(before[hash].values == own);
        }
    }
}

/// The histogram with this hash has observed every request whose endpoint has it.
proof fn lemma_endpoint_observations(requests: Seq<Outcome>, hash: u64)
    ensures
        ({
            let children = after_requests(metrics::fresh_model(), requests).latency.children;
            let n = number(requests, with_endpoint(hash));
            &&& children.contains_key(hash) <==> n > 0
            &&& children.contains_key(hash) ==> children[hash].observed.len() == n
        }),
    decreases requests.len(),
{
    if requests.len() > 0 {
        lemma_endpoint_observations(requests.drop_last(), hash);
    }
}

/// Where the hashes tell the label values and the endpoints of a run apart, the
/// latencies of an endpoint are as many as its counters of all statuses add up
/// to, which are the requests to it.
pub proof fn the_counts_of_an_endpoint_add_up(requests: Seq<Outcome>, i: int)
    requires
        hash_apart(requests),
        endpoints_hash_apart(requests),
        0 <= i < requests.len(),
    ensures
        ({
            let after = after_requests(metrics::fresh_model(), requests);
            let endpoint = requests[i].endpoint;
            let hash = fnv::values_hash(seq![endpoint]);
            &&& after.latency.children.contains_key(hash)
            &&& after.latency.children[hash].observed.len() == sum(
                after.status_codes.children,
                count_of_endpoint(endpoint),
            )
            &&& after.latency.children[hash].observed.len() == number(
                requests,
                to_endpoint(endpoint),
            )
        }),
{
    let endpoint = requests[i].endpoint;
    let hash = fnv::values_hash(endpoint_label(requests[i]));
    lemma_endpoint_counts(requests, endpoint);
    lemma_endpoint_observations(requests, hash);
    lemma_same_number(requests, with_endpoint(hash), to_endpoint(endpoint));
    lemma_positive(requests, with_endpoint(hash), i);
}

/// New metrics have the four collectors under their names, with their help texts
/// and their labels; both sets of histograms have the same twelve bounds, from a
/// millisecond to ten seconds; and nothing has been counted or observed.
pub proof fn new_metrics_are_set_up(r: Metrics)
    requires
        call_ensures(Metrics::new, (), r),
    ensures
        r@.requests_total.name == "rwrk_requests_total"@,
        r@.requests_total.help == "Total requests sent"@,
        r@.requests_total.count == 0,
        r@.status_codes.name == "rwrk_status_codes_total"@,
        r@.status_codes.help == "HTTP status code counts"@,
        r@.status_codes.labels == seq!["endpoint"@, "status"@],
        r@.latency.name == "rwrk_request_duration_seconds"@,
        r@.latency.help == "Request latency"@,
        r@.latency.labels == seq!["endpoint"@],
        r@.latency.bounds == seq![
            1u64,
            5,
            10,
            25,
            50,
            100,
            250,
            500,
            1000,
            2500,
            5000,
            10000,
        ],
        r@.latency_by_status.name == "rwrk_request_duration_by_status_seconds"@,
        r@.latency_by_status.help
            == "Request latency by status code (use histogram_quantile for p90/p95/p99)"@,
        r@.latency_by_status.labels == seq!["endpoint"@, "status"@],
        r@.latency_by_status.bounds == seq![
            1u64,
            5,
            10,
            25,
            50,
            100,
            250,
            500,
            1000,
            2500,
            5000,
            10000,
        ],
        forall|hash: u64| !(#[trigger] r@.status_codes.children.contains_key(hash)),
        forall|hash: u64| !(#[trigger] r@.latency.children.contains_key(hash)),
        forall|hash: u64| !(#[trigger] r@.latency_by_status.children.contains_key(hash)),
{
}

/// Whether a counter is one more, or a new one at one for these label values.
pub open spec fn is_increased(
    before: Map<u64, CounterChild>,
    after: Map<u64, CounterChild>,
    values: Seq<Seq<char>>,
) -> bool {
    let hash = fnv::values_hash(values);
    &&& after.contains_key(hash)
    &&& before.contains_key(hash) ==> after[hash].count == before[hash].count + 1
        && after[hash].values == before[hash].values
    &&& !before.contains_key(hash) ==> after[hash].count == 1 && after[hash].values == values
    &&& forall|other: u64|
        #![trigger after.contains_key(other)]
        #![trigger before.contains_key(other)]
        other != hash ==> {
            &&& after.contains_key(other) <==> before.contains_key(other)
            &&& after[other] == before[other]
        }
}

/// Whether a histogram has observed one duration more, or a new one has observed
/// it first for these label values.
pub open spec fn has_observed(
    before: Map<u64, HistogramChild>,
    after: Map<u64, HistogramChild>,
    values: Seq<Seq<char>>,
    duration: Duration,
) -> bool {
    let hash = fnv::values_hash(values);
    &&& after.contains_key(hash)
    &&& before.contains_key(hash) ==> after[hash].observed == before[hash].observed.push(duration)
        && after[hash].values == before[hash].values
    &&& !before.contains_key(hash) ==> after[hash].observed == seq![duration]
        && after[hash].values == values
    &&& forall|other: u64|
        #![trigger after.contains_key(other)]
        #![trigger before.contains_key(other)]
        other != hash ==> {
            &&& after.contains_key(other) <==> before.contains_key(other)
            &&& after[other] == before[other]
        }
}

/// A request is counted once in all, once under its endpoint and its status in
/// decimal, and its duration is observed once under its endpoint and once under
/// both, whatever the endpoint, the status and the duration; and nothing else
/// changes.
pub proof fn requests_are_recorded_once(
    metrics: &mut Metrics,
    endpoint: &str,
    status: u16,
    duration: Duration,
)
    requires
        call_ensures(Metrics::record_request, (metrics, endpoint, status, duration), ()),
    ensures
        ({
            let before = old(metrics)@;
            let after = final(metrics)@;
            let both = seq![endpoint@, text::decimal(status as nat)];
            &&& after.requests_total.count == before.requests_total.count + 1
            &&& after.requests_total.name == before.requests_total.name
            &&& after.requests_total.help == before.requests_total.help
            &&& is_increased(before.status_codes.children, after.status_codes.children, both)
            &&& after.status_codes.name == before.status_codes.name
            &&& after.status_codes.help == before.status_codes.help
            &&& after.status_codes.labels == before.status_codes.labels
            &&& has_observed(
                before.latency.children,
                after.latency.children,
                seq![endpoint@],
                duration,
            )
            &&& after.latency.name == before.latency.name
            &&& after.latency.help == before.latency.help
            &&& after.latency.labels == before.latency.labels
            &&& after.latency.bounds == before.latency.bounds
            &&& has_observed(
                before.latency_by_status.children,
                after.latency_by_status.children,
                both,
                duration,
            )
            &&& after.latency_by_status.name == before.latency_by_status.name
            &&& after.latency_by_status.help == before.latency_by_status.help
            &&& after.latency_by_status.labels == before.latency_by_status.labels
            &&& after.latency_by_status.bounds == before.latency_by_status.bounds
        }),
{
    assert(Seq::<Duration>::empty().push(duration) =~= seq![duration]);
}

/// The text that is shown is the whole of what prometheus shows of the collectors,
/// and is the same for metrics that hold the same.
pub proof fn what_is_held_is_shown(one: &Metrics, other: &Metrics, r: String, q: String)
    requires
        call_ensures(Metrics::gather, (one,), r),
        call_ensures(Metrics::gather, (other,), q),
    ensures
        r@ == metrics::exposition(one@),
        one@ == other@ ==> r@ == q@,
{
}

} // verus!
