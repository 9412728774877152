use feathergate::metrics::Metrics;

#[test]
fn test_metrics_record() {
    let mut metrics = Metrics::new();

    metrics.record_success();
    metrics.record_success();
    metrics.record_failure();

    assert_eq!(metrics.total_requests, 3);
    assert_eq!(metrics.successful_requests, 2);
    assert_eq!(metrics.failed_requests, 1);
}

#[test]
fn test_export_prometheus() {
    let mut metrics = Metrics::new();
    metrics.record_success();
    metrics.record_failure();

    let output = metrics.export_prometheus();
    assert!(output.contains("feathergate_requests_total 2"));
    assert!(output.contains("feathergate_requests_successful 1"));
    assert!(output.contains("feathergate_requests_failed 1"));
}
