use inheritx_metrics::labels::{latency_label_names, latency_label_values, route_label, status_label};

#[test]
fn status_label_renders_common_codes() {
    assert_eq!(status_label(200), "200");
    assert_eq!(status_label(404), "404");
    assert_eq!(status_label(500), "500");
    assert_eq!(status_label(101), "101");
}

#[test]
fn status_label_edge_values() {
    assert_eq!(status_label(0), "0");
    assert_eq!(status_label(7), "7");
    assert_eq!(status_label(10), "10");
    assert_eq!(status_label(65535), "65535");
}

#[test]
fn status_label_reads_back_as_the_code() {
    for code in [0u16, 1, 9, 10, 99, 100, 204, 301, 418, 503, 1000, 65535] {
        assert_eq!(status_label(code).parse::<u16>().unwrap(), code);
    }
}

#[test]
fn status_labels_of_distinct_codes_differ() {
    assert_ne!(status_label(200), status_label(201));
    assert_ne!(status_label(5), status_label(50));
    assert_ne!(status_label(10), status_label(100));
}

#[test]
fn route_label_prefers_matched_pattern() {
    assert_eq!(route_label(Some("/api/plans/:id"), "/api/plans/42"), "/api/plans/:id");
}

#[test]
fn route_label_falls_back_to_uri_path() {
    assert_eq!(route_label(None, "/unknown/route"), "/unknown/route");
    assert_eq!(route_label(None, ""), "");
}

#[test]
fn route_label_is_shared_by_paths_of_one_route() {
    assert_eq!(
        route_label(Some("/api/plans/:id"), "/api/plans/1"),
        route_label(Some("/api/plans/:id"), "/api/plans/2")
    );
}

#[test]
fn latency_label_names_in_order() {
    assert_eq!(latency_label_names(), vec!["method", "path", "status"]);
}

#[test]
fn latency_label_values_in_order() {
    let values = latency_label_values("GET", "/api/plans", 200);
    assert_eq!(values, vec!["GET", "/api/plans", "200"]);
    assert_eq!(values.len(), latency_label_names().len());
}
