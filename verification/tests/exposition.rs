use inheritx_metrics::exposition::{
    encode_families, encoding_outcome, metrics_reply, metrics_response, render_metrics, ExpositionError, MetricsResponse,
};

#[test]
fn metrics_response_success_carries_bytes_and_type() {
    let response = metrics_response(Ok(vec![1, 2, 3]), "text/plain; version=0.0.4".to_string());
    assert_eq!(response.status(), 200);
    match response {
        MetricsResponse::Exposition { content_type, body } => {
            assert_eq!(content_type, "text/plain; version=0.0.4");
            assert_eq!(body, vec![1, 2, 3]);
        }
        MetricsResponse::Failure { .. } => panic!("expected the metrics"),
    }
}

#[test]
fn metrics_response_failure_is_500_encoding_error() {
    let response = metrics_response(Err(ExpositionError::Encoding), "ignored".to_string());
    assert_eq!(response.status(), 500);
    match response {
        MetricsResponse::Failure { message } => assert_eq!(message, "encoding error"),
        MetricsResponse::Exposition { .. } => panic!("expected a failure"),
    }
}

#[test]
fn encode_families_of_nothing_is_empty() {
    assert_eq!(encode_families(&Vec::new()), Ok(Vec::new()));
}

#[test]
fn encode_families_writes_text_format() {
    let gauge = prometheus::Gauge::new("exposition_test_gauge", "a test gauge").unwrap();
    gauge.set(3.0);
    let registry = prometheus::Registry::new();
    registry.register(Box::new(gauge.clone())).unwrap();
    let encoded = encode_families(&registry.gather()).unwrap();
    let text = String::from_utf8(encoded).unwrap();
    assert!(text.contains("# HELP exposition_test_gauge a test gauge"));
    assert!(text.contains("# TYPE exposition_test_gauge gauge"));
    assert!(text.contains("exposition_test_gauge 3"));
    assert!(text.starts_with("# "));
    assert!(text.ends_with('\n'));
}

#[test]
fn encode_families_refuses_family_without_metrics() {
    let mut bare = prometheus::proto::MetricFamily::default();
    bare.set_name("empty_counters".to_string());
    assert_eq!(encode_families(&vec![bare]), Err(ExpositionError::Encoding));
}

#[test]
fn render_metrics_exposes_registered_metrics() {
    let gauge = prometheus::Gauge::new("render_test_gauge", "gauge seen by the endpoint").unwrap();
    prometheus::register(Box::new(gauge.clone())).unwrap();
    gauge.set(2.0);
    let response = render_metrics();
    assert_eq!(response.status(), 200);
    match response {
        MetricsResponse::Exposition { content_type, body } => {
            assert_eq!(content_type, prometheus::TEXT_FORMAT);
            let text = String::from_utf8(body).unwrap();
            assert!(text.contains("render_test_gauge 2"));
        }
        MetricsResponse::Failure { .. } => panic!("expected the metrics"),
    }
}

#[test]
fn encoding_outcome_keeps_written_bytes() {
    assert_eq!(encoding_outcome(Ok(()), vec![35, 32]), Ok(vec![35, 32]));
}

#[test]
fn encoding_outcome_maps_encoder_error() {
    let err = prometheus::Error::Msg("MetricFamily has no metrics".to_string());
    assert_eq!(encoding_outcome(Err(err), vec![1]), Err(ExpositionError::Encoding));
}

fn untyped_family() -> prometheus::proto::MetricFamily {
    let mut family = prometheus::proto::MetricFamily::default();
    family.set_name("untyped_family".to_string());
    family.set_field_type(prometheus::proto::MetricType::UNTYPED);
    family.mut_metric().push(prometheus::proto::Metric::default());
    family
}

fn gauge_families(name: &str, value: f64) -> Vec<prometheus::proto::MetricFamily> {
    let gauge = prometheus::Gauge::new(name, "a test gauge").unwrap();
    gauge.set(value);
    let registry = prometheus::Registry::new();
    registry.register(Box::new(gauge)).unwrap();
    registry.gather()
}

#[test]
fn encode_families_refuses_untyped_family() {
    assert_eq!(encode_families(&vec![untyped_family()]), Err(ExpositionError::Untyped));
}

#[test]
fn encode_families_refuses_untyped_after_valid_family() {
    let mut families = gauge_families("typed_before_untyped", 1.0);
    families.push(untyped_family());
    assert_eq!(encode_families(&families), Err(ExpositionError::Untyped));
}

#[test]
fn encode_families_encodes_each_family_once() {
    let families = gauge_families("encoded_once_gauge", 5.0);
    let text = String::from_utf8(encode_families(&families).unwrap()).unwrap();
    assert_eq!(
        text,
        "# HELP encoded_once_gauge a test gauge\n# TYPE encoded_once_gauge gauge\nencoded_once_gauge 5\n"
    );
}

#[test]
fn metrics_reply_exposes_given_families() {
    let families = gauge_families("reply_gauge", 4.0);
    let response = metrics_reply(&families);
    assert_eq!(response.status(), 200);
    match response {
        MetricsResponse::Exposition { content_type, body } => {
            assert_eq!(content_type, "text/plain; version=0.0.4");
            assert_eq!(
                String::from_utf8(body).unwrap(),
                "# HELP reply_gauge a test gauge\n# TYPE reply_gauge gauge\nreply_gauge 4\n"
            );
        }
        MetricsResponse::Failure { .. } => panic!("expected the metrics"),
    }
}

#[test]
fn metrics_reply_of_no_families_is_empty_exposition() {
    match metrics_reply(&Vec::new()) {
        MetricsResponse::Exposition { body, .. } => assert!(body.is_empty()),
        MetricsResponse::Failure { .. } => panic!("expected the metrics"),
    }
}

#[test]
fn metrics_reply_of_untyped_family_is_failure() {
    let response = metrics_reply(&vec![untyped_family()]);
    assert_eq!(response.status(), 500);
    match response {
        MetricsResponse::Failure { message } => assert_eq!(message, "encoding error"),
        MetricsResponse::Exposition { .. } => panic!("expected a failure"),
    }
}
