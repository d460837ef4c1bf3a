use inheritx_metrics::lifecycle::{request_abandoned, request_arrived, response_ready, GaugeStep};

fn apply(level: i64, step: GaugeStep) -> i64 {
    match step {
        GaugeStep::Increment => level + 1,
        GaugeStep::Decrement => level - 1,
    }
}

#[test]
fn arrival_counts_request_and_keeps_labels() {
    let arrival = request_arrived("POST", Some("/api/plans/:id"), "/api/plans/7");
    assert_eq!(arrival.active, GaugeStep::Increment);
    assert_eq!(arrival.request.method, "POST");
    assert_eq!(arrival.request.route, "/api/plans/:id");
}

#[test]
fn arrival_without_matched_route_uses_uri_path() {
    let arrival = request_arrived("GET", None, "/nowhere");
    assert_eq!(arrival.request.route, "/nowhere");
}

#[test]
fn completion_records_method_route_status() {
    let arrival = request_arrived("GET", Some("/metrics"), "/metrics");
    let completion = response_ready(arrival.request, 200);
    assert_eq!(completion.active, GaugeStep::Decrement);
    assert_eq!(completion.labels, vec!["GET", "/metrics", "200"]);
}

#[test]
fn completed_requests_leave_gauge_unchanged() {
    let mut level = 3i64;
    let a = request_arrived("GET", Some("/a"), "/a");
    level = apply(level, a.active);
    assert_eq!(level, 4);
    let b = request_arrived("GET", None, "/b");
    level = apply(level, b.active);
    assert_eq!(level, 5);
    let done_a = response_ready(a.request, 404);
    level = apply(level, done_a.active);
    assert_eq!(level, 4);
    assert_eq!(done_a.labels, vec!["GET", "/a", "404"]);
    let done_b = response_ready(b.request, 500);
    level = apply(level, done_b.active);
    assert_eq!(level, 3);
    assert_eq!(done_b.labels, vec!["GET", "/b", "500"]);
}

#[test]
fn abandoned_request_is_counted_out() {
    let mut level = 0i64;
    let a = request_arrived("GET", Some("/slow"), "/slow");
    level = apply(level, a.active);
    let b = request_arrived("POST", None, "/x");
    level = apply(level, b.active);
    assert_eq!(level, 2);
    level = apply(level, request_abandoned(a.request));
    assert_eq!(level, 1);
    let done_b = response_ready(b.request, 201);
    level = apply(level, done_b.active);
    assert_eq!(level, 0);
}
