use godon_metrics_exporter::cache::{FetchOutcome, MetricsCache};
use godon_metrics_exporter::exporter::{metrics_url_of, status_is_success, GodonExporter, SharedCache};

const UP_BLOCK: &str = "# HELP godon_metrics_exporter_up Status of the Godon metrics exporter\n# TYPE godon_metrics_exporter_up gauge\ngodon_metrics_exporter_up{status=\"success\"} 1\n\n";
const REACH_PREFIX: &str = "# HELP godon_metrics_pushgateway_reachable Whether Push Gateway is reachable\n# TYPE godon_metrics_pushgateway_reachable gauge\ngodon_metrics_pushgateway_reachable ";

fn blocks(reachable: bool) -> String {
    format!(
        "{}{}{}\n\n",
        UP_BLOCK,
        REACH_PREFIX,
        if reachable { "1" } else { "0" }
    )
}

fn exporter() -> GodonExporter {
    GodonExporter::new(String::from("http://pushgateway:9091"))
}

#[test]
fn success_forwards_metric_lines() {
    let e = exporter();
    e.apply_fetch_outcome(&FetchOutcome::Success {
        body: String::from("foo_metric 1\n# comment\n\nbar_metric 2\n"),
    });
    let out = e.get_metrics_text();
    let expected = format!("{}foo_metric 1\nbar_metric 2\n", blocks(true));
    assert_eq!(out, expected);
    assert!(!out.contains("# Last error"));
}

#[test]
fn connection_refused_reports_error() {
    let e = exporter();
    e.apply_fetch_outcome(&FetchOutcome::TransportFailure {
        details: String::from("connection refused"),
    });
    let out = e.get_metrics_text();
    let expected = format!(
        "{}# Last error: Connection failed: connection refused\n",
        blocks(false)
    );
    assert_eq!(out, expected);
}

#[test]
fn upstream_status_503_reports_http_error() {
    let e = exporter();
    e.apply_fetch_outcome(&FetchOutcome::UpstreamStatus { code: 503 });
    let out = e.get_metrics_text();
    let expected = format!("{}# Last error: HTTP 503\n", blocks(false));
    assert_eq!(out, expected);
}

#[test]
fn body_read_failure_reports_error() {
    let e = exporter();
    e.apply_fetch_outcome(&FetchOutcome::BodyReadFailure {
        details: String::from("unexpected end of body"),
    });
    let out = e.get_metrics_text();
    let expected = format!(
        "{}# Last error: Failed to read response: unexpected end of body\n",
        blocks(false)
    );
    assert_eq!(out, expected);
}

#[test]
fn stale_text_not_forwarded_after_failure() {
    let e = exporter();
    e.apply_fetch_outcome(&FetchOutcome::Success {
        body: String::from("foo_metric 1\n"),
    });
    e.apply_fetch_outcome(&FetchOutcome::TransportFailure {
        details: String::from("timed out"),
    });
    let out = e.get_metrics_text();
    let expected = format!("{}# Last error: Connection failed: timed out\n", blocks(false));
    assert_eq!(out, expected);
    assert!(!out.contains("foo_metric"));
}

#[test]
fn render_is_idempotent_without_fetch() {
    let e = exporter();
    e.apply_fetch_outcome(&FetchOutcome::Success {
        body: String::from("foo_metric 1\nbar_metric 2\n"),
    });
    let first = e.get_metrics_text();
    let second = e.get_metrics_text();
    assert_eq!(first, second);
}

#[test]
fn liveness_gauge_present_in_every_state() {
    let gauge_line = "godon_metrics_exporter_up{status=\"success\"} 1\n";
    let e = exporter();
    let out = e.get_metrics_text();
    assert!(out.starts_with(UP_BLOCK));
    assert!(out.contains(gauge_line));
    e.apply_fetch_outcome(&FetchOutcome::UpstreamStatus { code: 500 });
    let out = e.get_metrics_text();
    assert!(out.starts_with(UP_BLOCK));
    assert!(out.contains(gauge_line));
    e.apply_fetch_outcome(&FetchOutcome::Success {
        body: String::from("x 1\n"),
    });
    let out = e.get_metrics_text();
    assert!(out.starts_with(UP_BLOCK));
    assert!(out.contains(gauge_line));
}

#[test]
fn initial_state_renders_gauges_only() {
    let e = exporter();
    let out = e.get_metrics_text();
    assert_eq!(out, blocks(false));
}

#[test]
fn empty_success_body_renders_gauges_only() {
    let e = exporter();
    e.apply_fetch_outcome(&FetchOutcome::Success { body: String::new() });
    let out = e.get_metrics_text();
    assert_eq!(out, blocks(true));
}

#[test]
fn lines_are_trimmed_and_comments_dropped() {
    let e = exporter();
    e.apply_fetch_outcome(&FetchOutcome::Success {
        body: String::from("  spaced_metric 1  \n\t \n### heavy comment\nlast_metric 2"),
    });
    let out = e.get_metrics_text();
    let expected = format!("{}spaced_metric 1\nlast_metric 2\n", blocks(true));
    assert_eq!(out, expected);
}

#[test]
fn carriage_returns_are_stripped() {
    let e = exporter();
    e.apply_fetch_outcome(&FetchOutcome::Success {
        body: String::from("a_total 1\r\nb_total 2\r\n"),
    });
    let out = e.get_metrics_text();
    let expected = format!("{}a_total 1\nb_total 2\n", blocks(true));
    assert_eq!(out, expected);
}

#[test]
fn cache_invariant_after_each_outcome() {
    let outcomes = vec![
        FetchOutcome::Success { body: String::from("m 1\n") },
        FetchOutcome::TransportFailure { details: String::from("refused") },
        FetchOutcome::Success { body: String::new() },
        FetchOutcome::UpstreamStatus { code: 404 },
        FetchOutcome::BodyReadFailure { details: String::from("cut off") },
    ];
    let mut cache = MetricsCache::new();
    for outcome in &outcomes {
        cache.apply_fetch(outcome);
        let (_, reachable, error) = cache.read();
        assert_eq!(reachable, error.is_empty());
    }
}

#[test]
fn failure_keeps_previous_text_in_cache() {
    let mut cache = MetricsCache::new();
    cache.apply_fetch(&FetchOutcome::Success { body: String::from("kept 1\n") });
    cache.apply_fetch(&FetchOutcome::UpstreamStatus { code: 502 });
    let (text, reachable, error) = cache.read();
    assert_eq!(text, "kept 1\n");
    assert!(!reachable);
    assert_eq!(error, "HTTP 502");
}

#[test]
fn write_replaces_whole_triple() {
    let mut cache = MetricsCache::new();
    cache.write(String::from("t 3\n"), true, String::new());
    let (text, reachable, error) = cache.read();
    assert_eq!(text, "t 3\n");
    assert!(reachable);
    assert_eq!(error, "");
}

#[test]
fn shared_cache_write_then_read_snapshot() {
    let c = SharedCache::new();
    let (text, reachable, error) = c.read();
    assert_eq!(text, "");
    assert!(!reachable);
    assert_eq!(error, "");
    c.write(String::from("m 1\n"), true, String::new());
    let (text, reachable, error) = c.read();
    assert_eq!(text, "m 1\n");
    assert!(reachable);
    assert_eq!(error, "");
}

#[test]
fn status_code_rendering_in_error_line() {
    for (code, expected) in [(7u16, "HTTP 7"), (100, "HTTP 100"), (65535, "HTTP 65535")] {
        let mut cache = MetricsCache::new();
        cache.apply_fetch(&FetchOutcome::UpstreamStatus { code });
        let (_, _, error) = cache.read();
        assert_eq!(error, expected);
    }
}

#[test]
fn status_is_success_matches_2xx() {
    assert!(status_is_success(200));
    assert!(status_is_success(204));
    assert!(status_is_success(299));
    assert!(!status_is_success(199));
    assert!(!status_is_success(300));
    assert!(!status_is_success(404));
    assert!(!status_is_success(503));
}

#[test]
fn metrics_url_appends_path() {
    assert_eq!(
        metrics_url_of("http://pushgateway:9091"),
        "http://pushgateway:9091/metrics"
    );
}

#[test]
fn metrics_url_strips_trailing_slash() {
    assert_eq!(
        metrics_url_of("http://pushgateway:9091/"),
        "http://pushgateway:9091/metrics"
    );
}

#[test]
fn exporter_builds_metrics_url() {
    let e = GodonExporter::new(String::from("http://gw:9091/"));
    assert_eq!(e.metrics_url(), "http://gw:9091/metrics");
}
