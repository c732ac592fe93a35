use rwrk::metrics::Metrics;
use std::time::Duration;

fn has_line(text: &str, line: &str) -> bool {
    text.lines().any(|l| l == line)
}

#[test]
fn fresh_metrics_show_a_zero_count() {
    let metrics = Metrics::new();
    let text = metrics.gather();
    assert!(has_line(&text, "# HELP rwrk_requests_total Total requests sent"));
    assert!(has_line(&text, "# TYPE rwrk_requests_total counter"));
    assert!(has_line(&text, "rwrk_requests_total 0"));
    assert!(!text.contains("rwrk_status_codes_total"));
    assert_eq!(text, metrics.gather());
}

#[test]
fn requests_are_counted_and_measured() {
    let mut metrics = Metrics::new();
    metrics.record_request("http://h", 200, Duration::from_millis(3));
    metrics.record_request("http://h", 200, Duration::from_millis(250));
    metrics.record_request("http://h", 0, Duration::from_secs(20));
    let text = metrics.gather();
    for line in [
        "rwrk_requests_total 3",
        "# HELP rwrk_status_codes_total HTTP status code counts",
        "# TYPE rwrk_status_codes_total counter",
        "rwrk_status_codes_total{endpoint=\"http://h\",status=\"200\"} 2",
        "rwrk_status_codes_total{endpoint=\"http://h\",status=\"0\"} 1",
        "# HELP rwrk_request_duration_seconds Request latency",
        "# TYPE rwrk_request_duration_seconds histogram",
        "rwrk_request_duration_seconds_bucket{endpoint=\"http://h\",le=\"0.001\"} 0",
        "rwrk_request_duration_seconds_bucket{endpoint=\"http://h\",le=\"0.005\"} 1",
        "rwrk_request_duration_seconds_bucket{endpoint=\"http://h\",le=\"0.01\"} 1",
        "rwrk_request_duration_seconds_bucket{endpoint=\"http://h\",le=\"0.025\"} 1",
        "rwrk_request_duration_seconds_bucket{endpoint=\"http://h\",le=\"0.05\"} 1",
        "rwrk_request_duration_seconds_bucket{endpoint=\"http://h\",le=\"0.1\"} 1",
        "rwrk_request_duration_seconds_bucket{endpoint=\"http://h\",le=\"0.25\"} 2",
        "rwrk_request_duration_seconds_bucket{endpoint=\"http://h\",le=\"0.5\"} 2",
        "rwrk_request_duration_seconds_bucket{endpoint=\"http://h\",le=\"1\"} 2",
        "rwrk_request_duration_seconds_bucket{endpoint=\"http://h\",le=\"2.5\"} 2",
        "rwrk_request_duration_seconds_bucket{endpoint=\"http://h\",le=\"5\"} 2",
        "rwrk_request_duration_seconds_bucket{endpoint=\"http://h\",le=\"10\"} 2",
        "rwrk_request_duration_seconds_bucket{endpoint=\"http://h\",le=\"+Inf\"} 3",
        "rwrk_request_duration_seconds_count{endpoint=\"http://h\"} 3",
        "# HELP rwrk_request_duration_by_status_seconds Request latency by status code (use histogram_quantile for p90/p95/p99)",
        "rwrk_request_duration_by_status_seconds_count{endpoint=\"http://h\",status=\"200\"} 2",
        "rwrk_request_duration_by_status_seconds_count{endpoint=\"http://h\",status=\"0\"} 1",
        "rwrk_request_duration_by_status_seconds_sum{endpoint=\"http://h\",status=\"200\"} 0.253",
    ] {
        assert!(has_line(&text, line), "{}\n{}", line, text);
    }
    assert_eq!(text, metrics.gather());
}

#[test]
fn bucket_bounds_are_those_of_the_decimal_seconds() {
    let expected = [0.001, 0.005, 0.01, 0.025, 0.05, 0.1, 0.25, 0.5, 1.0, 2.5, 5.0, 10.0];
    let millis = [1, 5, 10, 25, 50, 100, 250, 500, 1000, 2500, 5000, 10000];
    for (seconds, ms) in expected.iter().zip(millis.iter()) {
        assert_eq!(*seconds, Duration::from_millis(*ms).as_secs_f64());
    }
}

#[test]
fn metrics_are_apart_from_each_other() {
    let mut one = Metrics::new();
    let other = Metrics::new();
    one.record_request("http://h", 200, Duration::from_millis(3));
    assert_eq!(other.gather(), Metrics::new().gather());
    assert_ne!(one.gather(), other.gather());
}

#[test]
fn the_order_of_requests_changes_no_count() {
    let requests = [("http://h", 200, 3), ("http://g", 0, 40), ("http://h", 500, 3), ("http://h", 200, 9)];
    let mut one = Metrics::new();
    let mut other = Metrics::new();
    for (endpoint, status, millis) in requests {
        one.record_request(endpoint, status, Duration::from_millis(millis));
    }
    for (endpoint, status, millis) in requests.iter().rev() {
        other.record_request(endpoint, *status, Duration::from_millis(*millis));
    }
    let counts = |text: String| -> Vec<String> {
        text.lines().filter(|l| !l.contains("_sum{")).map(|l| l.to_string()).collect()
    };
    assert_eq!(counts(one.gather()), counts(other.gather()));
}

#[test]
fn label_values_are_told_apart_by_their_hash() {
    let mut metrics = Metrics::new();
    metrics.record_request("http://h", 200, Duration::from_millis(3));
    metrics.record_request("http://h20", 0, Duration::from_millis(3));
    let text = metrics.gather();
    assert!(has_line(&text, "rwrk_requests_total 2"));
    assert!(has_line(&text, "rwrk_status_codes_total{endpoint=\"http://h\",status=\"200\"} 2"));
    assert!(!text.contains("status=\"0\""));
    assert!(has_line(&text, "rwrk_request_duration_seconds_count{endpoint=\"http://h20\"} 1"));
}

fn values(text: &str, name: &str, with: &str) -> u64 {
    text.lines()
        .filter(|l| l.starts_with(&format!("{}{{", name)) && l.contains(with))
        .map(|l| l.rsplit(' ').next().unwrap().parse::<u64>().unwrap())
        .sum()
}

#[test]
fn the_counts_add_up() {
    let mut metrics = Metrics::new();
    for n in 0..40u16 {
        let endpoint = ["http://a", "http://b", "http://c"][usize::from(n) % 3];
        let status = [200, 404, 0, 500][usize::from(n) % 4];
        metrics.record_request(endpoint, status, Duration::from_millis(u64::from(n)));
        let text = metrics.gather();
        let total = u64::from(n) + 1;
        assert!(has_line(&text, &format!("rwrk_requests_total {}", total)));
        assert_eq!(values(&text, "rwrk_status_codes_total", ""), total);
        assert_eq!(values(&text, "rwrk_request_duration_seconds_count", ""), total);
        assert_eq!(values(&text, "rwrk_request_duration_by_status_seconds_count", ""), total);
    }
    let text = metrics.gather();
    for (endpoint, count) in [("http://a", 14), ("http://b", 13), ("http://c", 13)] {
        assert_eq!(values(&text, "rwrk_status_codes_total", endpoint), count);
        assert_eq!(values(&text, "rwrk_request_duration_seconds_count", endpoint), count);
    }
}
