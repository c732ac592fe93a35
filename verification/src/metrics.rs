//! What a worker counts and measures of its requests, and how it shows that to
//! Prometheus.
use core::time::Duration;
use prometheus::{
    HistogramOpts, HistogramVec, IntCounter, IntCounterVec, Opts, Registry, TextEncoder,
};
use vstd::prelude::*;

use crate::fnv;
use crate::metric_names::{
    self, LATENCY_BY_STATUS_NAME, LATENCY_NAME, REQUESTS_NAME, STATUS_NAME,
};
use crate::text::{self, decimal_text};

verus! {

/// The errors of the crate prometheus.
#[verifier::external_type_specification]
#[verifier::external_body]
pub struct ExPrometheusError(prometheus::Error);

/// A counter: its name and help text, and how often it was increased.
#[verifier::ext_equal]
pub struct CounterModel {
    pub name: Seq<char>,
    pub help: Seq<char>,
    pub count: nat,
}

/// A counter of a set: the label values that it was made for, and how often it
/// was increased.
#[verifier::ext_equal]
pub struct CounterChild {
    pub values: Seq<Seq<char>>,
    pub count: nat,
}

/// A set of counters: its name, help text and label names, and its counters by
/// the hash of the label values that they were made for.
#[verifier::ext_equal]
pub struct CounterSetModel {
    pub name: Seq<char>,
    pub help: Seq<char>,
    pub labels: Seq<Seq<char>>,
    pub children: Map<u64, CounterChild>,
}

/// A histogram of a set: the label values that it was made for, and what it has
/// observed, one after the other.
#[verifier::ext_equal]
pub struct HistogramChild {
    pub values: Seq<Seq<char>>,
    pub observed: Seq<Duration>,
}

/// A set of histograms of durations: its name, help text and label names, the
/// upper bounds of its buckets in milliseconds, and its histograms by the hash of
/// the label values that they were made for.
#[verifier::ext_equal]
pub struct HistogramSetModel {
    pub name: Seq<char>,
    pub help: Seq<char>,
    pub labels: Seq<Seq<char>>,
    pub bounds: Seq<u64>,
    pub children: Map<u64, HistogramChild>,
}

/// A counter of the crate prometheus.
#[verifier::external_body]
pub struct Counter {
    inner: IntCounter,
}

/// A set of counters of the crate prometheus.
#[verifier::external_body]
pub struct CounterSet {
    inner: IntCounterVec,
}

/// A set of histograms of the crate prometheus.
#[verifier::external_body]
pub struct HistogramSet {
    inner: HistogramVec,
}

/// A registry of the crate prometheus, with the collectors that are registered
/// in it. The registry shares the collectors, so they are one value with it.
#[verifier::external_body]
pub struct Collectors {
    registry: Registry,
    requests_total: IntCounter,
    status_codes: IntCounterVec,
    latency: HistogramVec,
    latency_by_status: HistogramVec,
}

/// What the registered collectors hold.
#[verifier::ext_equal]
pub struct CollectorsModel {
    pub requests_total: CounterModel,
    pub status_codes: CounterSetModel,
    pub latency: HistogramSetModel,
    pub latency_by_status: HistogramSetModel,
}

/// What a counter holds.
pub uninterp spec fn counter_model(counter: Counter) -> CounterModel;

/// What a set of counters holds.
pub uninterp spec fn counter_set_model(counters: CounterSet) -> CounterSetModel;

/// What a set of histograms holds.
pub uninterp spec fn histogram_set_model(histograms: HistogramSet) -> HistogramSetModel;

/// What the registered collectors hold.
pub uninterp spec fn collectors_model(collectors: Collectors) -> CollectorsModel;

/// The text in which prometheus shows what collectors hold.
pub uninterp spec fn exposition(model: CollectorsModel) -> Seq<char>;

/// The characters that a label name may begin with.
pub open spec fn is_label_char(c: char) -> bool {
    ('a' as int <= c as int <= 'z' as int) || ('A' as int <= c as int <= 'Z' as int) || c == '_'
}

/// Whether prometheus takes `s` as the name of a label.
pub open spec fn is_label_name(s: Seq<char>) -> bool {
    &&& s.len() > 0
    &&& is_label_char(s[0])
    &&& forall|i: int|
        0 <= i < s.len() ==> is_label_char(#[trigger] s[i]) || text::is_digit(s[i])
}

/// Whether prometheus takes `s` as the name of a metric: a label name that may
/// hold colons.
pub open spec fn is_metric_name(s: Seq<char>) -> bool {
    &&& s.len() > 0
    &&& is_label_char(s[0]) || s[0] == ':'
    &&& forall|i: int|
        0 <= i < s.len() ==> is_label_char(#[trigger] s[i]) || s[i] == ':' || text::is_digit(s[i])
}

/// Whether prometheus makes a collector of this name, help text and labels.
pub open spec fn describable(
    name: Seq<char>,
    help: Seq<char>,
    labels: Seq<Seq<char>>,
) -> bool {
    &&& help.len() > 0
    &&& is_metric_name(name)
    &&& forall|i: int| 0 <= i < labels.len() ==> is_label_name(#[trigger] labels[i])
    &&& forall|i: int, j: int|
        0 <= i < j < labels.len() ==> #[trigger] labels[i] != #[trigger] labels[j]
}

/// The texts of `strs`.
pub open spec fn texts(strs: Seq<&str>) -> Seq<Seq<char>> {
    strs.map_values(|s: &str| s@)
}

/// Calls `IntCounter::new`. Trusted: it succeeds if and only if the name and the
/// help text are acceptable, and the counter is then at zero.
#[verifier::external_body]
fn new_counter(name: &str, help: &str) -> (r: Result<Counter, prometheus::Error>)
    ensures
        r is Ok <==> describable(name@, help@, Seq::empty()),
        r matches Ok(c) ==> counter_model(c) == (CounterModel {
            name: name@,
            help: help@,
            count: 0,
        }),
{
    IntCounter::new(name, help).map(|inner| Counter { inner })
}

/// Calls `IntCounterVec::new`. Trusted: it succeeds if and only if the name, the
/// help text and the labels are acceptable, and the set then has no counter.
#[verifier::external_body]
fn new_counter_set(name: &str, help: &str, labels: &Vec<&str>) -> (r: Result<
    CounterSet,
    prometheus::Error,
>)
    ensures
        r is Ok <==> describable(name@, help@, texts(labels@)),
        r matches Ok(c) ==> counter_set_model(c) == (CounterSetModel {
            name: name@,
            help: help@,
            labels: texts(labels@),
            children: Map::empty(),
        }),
{
    IntCounterVec::new(Opts::new(name, help), labels).map(|inner| CounterSet { inner })
}

/// A day, in milliseconds.
pub const LONGEST_BOUND: u64 = 86400000;

/// Calls `HistogramVec::new` with the bounds in seconds. Trusted: it succeeds if
/// and only if the name, the help text and the labels are acceptable, and the set
/// then has no histogram. A label `le` and bounds that do not increase would make
/// a later observation panic; bounds of at most a day keep their order in
/// seconds.
#[verifier::external_body]
fn new_histogram_set(name: &str, help: &str, labels: &Vec<&str>, bounds: &Vec<u64>) -> (r: Result<
    HistogramSet,
    prometheus::Error,
>)
    requires
        forall|i: int| 0 <= i < labels@.len() ==> (#[trigger] labels@[i])@ != "le"@,
        bounds@.len() > 0,
        forall|i: int| 0 <= i < bounds@.len() ==> #[trigger] bounds@[i] <= LONGEST_BOUND,
        forall|i: int, j: int|
            0 <= i < j < bounds@.len() ==> #[trigger] bounds@[i] < #[trigger] bounds@[j],
    ensures
        r is Ok <==> describable(name@, help@, texts(labels@)),
        r matches Ok(h) ==> histogram_set_model(h) == (HistogramSetModel {
            name: name@,
            help: help@,
            labels: texts(labels@),
            bounds: bounds@,
            children: Map::empty(),
        }),
{
    let seconds = bounds.iter().map(|ms| Duration::from_millis(*ms).as_secs_f64()).collect();
    let opts = HistogramOpts::new(name, help).buckets(seconds);
    HistogramVec::new(opts, labels).map(|inner| HistogramSet { inner })
}

/// Whether no two of these numbers are the same.
pub open spec fn all_differ(a: u64, b: u64, c: u64, d: u64) -> bool {
    a != b && a != c && a != d && b != c && b != d && c != d
}

/// Calls `Registry::new`, and `Registry::register` for each collector. Trusted:
/// the registry, which tells collectors apart by the hash of their names, takes
/// them if and only if no two of the hashes are the same, and they then hold what
/// they held.
#[verifier::external_body]
fn register_all(
    requests_total: Counter,
    status_codes: CounterSet,
    latency: HistogramSet,
    latency_by_status: HistogramSet,
) -> (r: Result<Collectors, prometheus::Error>)
    ensures
        r is Ok <==> all_differ(
            fnv::name_hash(counter_model(requests_total).name),
            fnv::name_hash(counter_set_model(status_codes).name),
            fnv::name_hash(histogram_set_model(latency).name),
            fnv::name_hash(histogram_set_model(latency_by_status).name),
        ),
        r matches Ok(c) ==> collectors_model(c) == (CollectorsModel {
            requests_total: counter_model(requests_total),
            status_codes: counter_set_model(status_codes),
            latency: histogram_set_model(latency),
            latency_by_status: histogram_set_model(latency_by_status),
        }),
{
    let registry = Registry::new();
    let requests_total = requests_total.inner;
    let status_codes = status_codes.inner;
    let latency = latency.inner;
    let latency_by_status = latency_by_status.inner;
    registry.register(Box::new(requests_total.clone()))?;
    registry.register(Box::new(status_codes.clone()))?;
    registry.register(Box::new(latency.clone()))?;
    registry.register(Box::new(latency_by_status.clone()))?;
    Ok(Collectors { registry, requests_total, status_codes, latency, latency_by_status })
}

/// Calls `IntCounter::inc`. Trusted: the counter of requests goes up by one, and
/// nothing else changes. The call does not panic.
#[verifier::external_body]
fn count_request(collectors: &mut Collectors)
    ensures
        collectors_model(*final(collectors)) == with_request(collectors_model(*old(collectors))),
    no_unwind
{
    collectors.requests_total.inc();
}

/// Calls `IntCounterVec::with_label_values` and `inc` on the counter that it
/// gives. Trusted: the counter of the status codes that was first made with the
/// hash of these label values is increased; one is made where there is none; and
/// nothing else changes. The call panics if the set does not have two labels, and
/// on no other account.
#[verifier::external_body]
fn count_status(collectors: &mut Collectors, endpoint: &str, status: &str)
    requires
        collectors_model(*old(collectors)).status_codes.labels.len() == 2,
    ensures
        collectors_model(*final(collectors)) == with_status(
            collectors_model(*old(collectors)),
            endpoint@,
            status@,
        ),
    no_unwind
{
    collectors.status_codes.with_label_values(&[endpoint, status]).inc();
}

/// Calls `HistogramVec::with_label_values` and `observe`, with the duration in
/// seconds, on the histogram that it gives. Trusted: the histogram of the
/// latencies that was first made with the hash of the endpoint observes the
/// duration; one is made where there is none; and nothing else changes. The call
/// panics if the set does not have one label, and on no other account.
#[verifier::external_body]
fn observe_latency(collectors: &mut Collectors, endpoint: &str, duration: Duration)
    requires
        collectors_model(*old(collectors)).latency.labels.len() == 1,
    ensures
        collectors_model(*final(collectors)) == with_latency(
            collectors_model(*old(collectors)),
            endpoint@,
            duration,
        ),
    no_unwind
{
    collectors.latency.with_label_values(&[endpoint]).observe(duration.as_secs_f64());
}

/// Calls `HistogramVec::with_label_values` and `observe`, with the duration in
/// seconds, on the histogram that it gives. Trusted: the histogram of the
/// latencies by status that was first made with the hash of these label values
/// observes the duration; one is made where there is none; and nothing else
/// changes. The call panics if the set does not have two labels, and on no other
/// account.
#[verifier::external_body]
fn observe_latency_by_status(
    collectors: &mut Collectors,
    endpoint: &str,
    status: &str,
    duration: Duration,
)
    requires
        collectors_model(*old(collectors)).latency_by_status.labels.len() == 2,
    ensures
        collectors_model(*final(collectors)) == with_latency_by_status(
            collectors_model(*old(collectors)),
            endpoint@,
            status@,
            duration,
        ),
    no_unwind
{
    let histogram = collectors.latency_by_status.with_label_values(&[endpoint, status]);
    histogram.observe(duration.as_secs_f64());
}

/// Calls `Registry::gather`, and `TextEncoder::encode_to_string` on what it
/// gives. Trusted: the encoder takes whatever the registry gathers, and the text
/// depends on what the collectors hold alone.
#[verifier::external_body]
fn gather_text(collectors: &Collectors) -> (r: Result<String, prometheus::Error>)
    ensures
        r is Ok,
        r matches Ok(shown) ==> shown@ == exposition(collectors_model(*collectors)),
{
    TextEncoder::new().encode_to_string(&collectors.registry.gather())
}

/// What collectors hold after one more request.
pub open spec fn with_request(model: CollectorsModel) -> CollectorsModel {
    CollectorsModel {
        requests_total: CounterModel {
            count: model.requests_total.count + 1,
            ..model.requests_total
        },
        ..model
    }
}

/// Counters after one more increase for these label values. Counters are told
/// apart by the hash of the label values alone, so the one that is increased may
/// have been made for others.
pub open spec fn increased(
    children: Map<u64, CounterChild>,
    values: Seq<Seq<char>>,
) -> Map<u64, CounterChild> {
    let hash = fnv::values_hash(values);
    let child = if children.contains_key(hash) {
        children[hash]
    } else {
        CounterChild { values, count: 0 }
    };
    children.insert(hash, CounterChild { count: child.count + 1, ..child })
}

/// Histograms after one more observation for these label values. They are told
/// apart as counters are.
pub open spec fn observing(
    children: Map<u64, HistogramChild>,
    values: Seq<Seq<char>>,
    duration: Duration,
) -> Map<u64, HistogramChild> {
    let hash = fnv::values_hash(values);
    let child = if children.contains_key(hash) {
        children[hash]
    } else {
        HistogramChild { values, observed: Seq::empty() }
    };
    children.insert(hash, HistogramChild { observed: child.observed.push(duration), ..child })
}

/// What collectors hold after one more response of this status.
pub open spec fn with_status(
    model: CollectorsModel,
    endpoint: Seq<char>,
    status: Seq<char>,
) -> CollectorsModel {
    CollectorsModel {
        status_codes: CounterSetModel {
            children: increased(model.status_codes.children, seq![endpoint, status]),
            ..model.status_codes
        },
        ..model
    }
}

/// What collectors hold after one more latency.
pub open spec fn with_latency(
    model: CollectorsModel,
    endpoint: Seq<char>,
    duration: Duration,
) -> CollectorsModel {
    CollectorsModel {
        latency: HistogramSetModel {
            children: observing(model.latency.children, seq![endpoint], duration),
            ..model.latency
        },
        ..model
    }
}

/// What collectors hold after one more latency of this status.
pub open spec fn with_latency_by_status(
    model: CollectorsModel,
    endpoint: Seq<char>,
    status: Seq<char>,
    duration: Duration,
) -> CollectorsModel {
    CollectorsModel {
        latency_by_status: HistogramSetModel {
            children: observing(
                model.latency_by_status.children,
                seq![endpoint, status],
                duration,
            ),
            ..model.latency_by_status
        },
        ..model
    }
}

/// The upper bounds of the latency buckets, in milliseconds.
pub open spec fn bucket_bounds() -> Seq<u64> {
    seq![1, 5, 10, 25, 50, 100, 250, 500, 1000, 2500, 5000, 10000]
}

/// What collectors hold at first.
pub open spec fn fresh_model() -> CollectorsModel {
    CollectorsModel {
        requests_total: CounterModel {
            name: REQUESTS_NAME@,
            help: "Total requests sent"@,
            count: 0,
        },
        status_codes: CounterSetModel {
            name: STATUS_NAME@,
            help: "HTTP status code counts"@,
            labels: seq!["endpoint"@, "status"@],
            children: Map::empty(),
        },
        latency: HistogramSetModel {
            name: LATENCY_NAME@,
            help: "Request latency"@,
            labels: seq!["endpoint"@],
            bounds: bucket_bounds(),
            children: Map::empty(),
        },
        latency_by_status: HistogramSetModel {
            name: LATENCY_BY_STATUS_NAME@,
            help: "Request latency by status code (use histogram_quantile for p90/p95/p99)"@,
            labels: seq!["endpoint"@, "status"@],
            bounds: bucket_bounds(),
            children: Map::empty(),
        },
    }
}

/// What collectors hold after a request to `endpoint` that ended with `status`
/// after `duration`.
pub open spec fn recorded(
    model: CollectorsModel,
    endpoint: Seq<char>,
    status: u16,
    duration: Duration,
) -> CollectorsModel {
    let label = text::decimal(status as nat);
    with_latency_by_status(
        with_latency(with_status(with_request(model), endpoint, label), endpoint, duration),
        endpoint,
        label,
        duration,
    )
}

/// The metrics of a worker.
pub struct Metrics {
    collectors: Collectors,
}

impl View for Metrics {
    type V = CollectorsModel;

    closed spec fn view(&self) -> CollectorsModel {
        collectors_model(self.collectors)
    }
}

/// Whether collectors have the labels of a worker's metrics.
pub open spec fn well_formed(model: CollectorsModel) -> bool {
    &&& model.status_codes.labels.len() == 2
    &&& model.latency.labels.len() == 1
    &&& model.latency_by_status.labels.len() == 2
}

/// The names, help texts and labels of the metrics are acceptable.
proof fn lemma_fresh_is_describable()
    ensures
        describable(
            fresh_model().requests_total.name,
            fresh_model().requests_total.help,
            Seq::empty(),
        ),
        describable(
            fresh_model().status_codes.name,
            fresh_model().status_codes.help,
            fresh_model().status_codes.labels,
        ),
        describable(
            fresh_model().latency.name,
            fresh_model().latency.help,
            fresh_model().latency.labels,
        ),
        describable(
            fresh_model().latency_by_status.name,
            fresh_model().latency_by_status.help,
            fresh_model().latency_by_status.labels,
        ),
        "endpoint"@ != "le"@,
        "status"@ != "le"@,
{
    reveal_strlit("rwrk_requests_total");
    reveal_strlit("rwrk_status_codes_total");
    reveal_strlit("rwrk_request_duration_seconds");
    reveal_strlit("rwrk_request_duration_by_status_seconds");
    reveal_strlit("Total requests sent");
    reveal_strlit("HTTP status code counts");
    reveal_strlit("Request latency");
    reveal_strlit("Request latency by status code (use histogram_quantile for p90/p95/p99)");
    reveal_strlit("endpoint");
    reveal_strlit("status");
    reveal_strlit("le");
    assert("endpoint"@.len() != "status"@.len());
    assert("endpoint"@.len() != "le"@.len());
    assert("status"@.len() != "le"@.len());
}

/// The upper bounds of the latency buckets, in milliseconds.
fn bounds() -> (r: Vec<u64>)
    ensures
        r@ == bucket_bounds(),
{
    let r: Vec<u64> = vec![1, 5, 10, 25, 50, 100, 250, 500, 1000, 2500, 5000, 10000];
    assert(r@ =~= bucket_bounds());
    r
}

impl Metrics {
    #[verifier::type_invariant]
    spec fn has_labels(&self) -> bool {
        well_formed(collectors_model(self.collectors))
    }

    /// The metrics of a worker that has sent nothing.
    pub fn new() -> (r: Metrics)
        ensures
            r@ == fresh_model(),
            well_formed(r@),
    {
        let by_endpoint: Vec<&str> = vec!["endpoint"];
        let by_both: Vec<&str> = vec!["endpoint", "status"];
        let bounds = bounds();
        proof {
            lemma_fresh_is_describable();
            metric_names::names_hash_apart();
            assert(texts(by_endpoint@) =~= seq!["endpoint"@]);
            assert(texts(by_both@) =~= seq!["endpoint"@, "status"@]);
        }
        let requests_total = new_counter(REQUESTS_NAME, "Total requests sent").unwrap();
        let status_codes = new_counter_set(
            STATUS_NAME,
            "HTTP status code counts",
            &by_both,
        ).unwrap();
        let latency = new_histogram_set(
            LATENCY_NAME,
            "Request latency",
            &by_endpoint,
            &bounds,
        ).unwrap();
        let latency_by_status = new_histogram_set(
            LATENCY_BY_STATUS_NAME,
            "Request latency by status code (use histogram_quantile for p90/p95/p99)",
            &by_both,
            &bounds,
        ).unwrap();
        let collectors = register_all(
            requests_total,
            status_codes,
            latency,
            latency_by_status,
        ).unwrap();
        Metrics { collectors }
    }

    /// Records a request to `endpoint` that ended with `status` after `duration`.
    pub fn record_request(&mut self, endpoint: &str, status: u16, duration: Duration)
        ensures
            well_formed(old(self)@),
            final(self)@ == recorded(old(self)@, endpoint@, status, duration),
            well_formed(final(self)@),
    {
        proof {
            use_type_invariant(&*self);
        }
        let label = decimal_text(status as u64);
        count_request(&mut self.collectors);
        count_status(&mut self.collectors, endpoint, label.as_str());
        observe_latency(&mut self.collectors, endpoint, duration);
        observe_latency_by_status(&mut self.collectors, endpoint, label.as_str(), duration);
    }

    /// The metrics in the text format of Prometheus.
    pub fn gather(&self) -> (r: String)
        ensures
            r@ == exposition(self@),
    {
        gather_text(&self.collectors).unwrap()
    }
}

} // verus!
