use godon_metrics_exporter::routes::{metrics_content_type, plan_request, RequestPlan};

#[test]
fn metrics_path_triggers_scrape() {
    assert!(matches!(plan_request("/metrics"), RequestPlan::Scrape));
}

#[test]
fn health_path_gets_ok_without_scrape() {
    match plan_request("/health") {
        RequestPlan::Respond { status, body } => {
            assert_eq!(status, 200);
            assert_eq!(body, "OK");
        }
        RequestPlan::Scrape => panic!("health must not scrape the upstream gateway"),
    }
}

#[test]
fn unknown_path_gets_404() {
    match plan_request("/unknown") {
        RequestPlan::Respond { status, body } => {
            assert_eq!(status, 404);
            assert_eq!(body, "Try /metrics");
        }
        RequestPlan::Scrape => panic!("unknown paths must not scrape"),
    }
}

#[test]
fn root_path_gets_404() {
    match plan_request("/") {
        RequestPlan::Respond { status, body } => {
            assert_eq!(status, 404);
            assert_eq!(body, "Try /metrics");
        }
        RequestPlan::Scrape => panic!("the root path must not scrape"),
    }
}

#[test]
fn content_type_names_text_format() {
    assert_eq!(
        metrics_content_type(),
        "text/plain; version=0.0.4; charset=utf-8"
    );
}
