use rds_exporter::cloudwatch::{
    AttemptOutcome, CallStep, CloudWatchCollector, CloudWatchError, MetricCall, MetricConfig,
    MetricRequest, SeriesResult,
};

fn request(ns: &str, name: &str) -> MetricRequest {
    MetricRequest {
        namespace: ns.to_string(),
        metric_name: name.to_string(),
        dimension_name: "DBInstanceIdentifier".to_string(),
        dimension_value: "test-instance".to_string(),
    }
}

fn response() -> Vec<SeriesResult> {
    vec![SeriesResult { id: "m0".to_string(), values: vec![1.5f64.to_bits()] }]
}

#[test]
fn test_invalid_parameters() {
    let config = MetricConfig::default();
    let collector = CloudWatchCollector::new(config);

    let result = collector.collect_all_metrics(&vec![request("", "CPUUtilization")]);

    assert!(result.is_err());
    match result {
        Err(CloudWatchError::InvalidParameter(_)) => (),
        _ => panic!("wrong error kind"),
    }
}

#[test]
fn empty_metric_name_is_rejected() {
    let collector = CloudWatchCollector::new(MetricConfig::default());
    let result = collector.collect_all_metrics(&vec![request("AWS/RDS", "CPUUtilization"), request("AWS/RDS", "")]);
    assert!(matches!(result, Err(CloudWatchError::InvalidParameter(_))));
}

#[test]
fn queries_get_positional_ids() {
    let collector = CloudWatchCollector::new(MetricConfig::default());
    let reqs: Vec<MetricRequest> = (0..12).map(|_| request("AWS/RDS", "ReadIOPS")).collect();
    let queries = collector.collect_all_metrics(&reqs).expect("valid requests");
    assert_eq!(queries.len(), 12);
    assert_eq!(queries[0].id, "m0");
    assert_eq!(queries[1].id, "m1");
    assert_eq!(queries[11].id, "m11");
    assert_eq!(queries[0].metric_stat.period, 60);
    assert_eq!(queries[0].metric_stat.stat, "Average");
    assert_eq!(queries[0].metric_stat.dimension_value, "test-instance");
}

#[test]
fn timeout_is_not_retried() {
    let config = MetricConfig::default();
    let mut call = MetricCall::new();
    assert!(matches!(call.start(&config), CallStep::Attempt));
    let step = call.on_outcome(&config, AttemptOutcome::TimedOut);
    assert!(matches!(step, CallStep::Finished(Err(CloudWatchError::Timeout(_)))));
    assert_eq!(call.attempts, 0);
}

#[test]
fn service_errors_then_success_returns_the_response() {
    let config = MetricConfig::default();
    let mut call = MetricCall::new();
    let step = call.on_outcome(&config, AttemptOutcome::ServiceError("throttled".to_string()));
    assert!(matches!(step, CallStep::WaitThenAttempt(1000)));
    let step = call.on_outcome(&config, AttemptOutcome::ServiceError("throttled".to_string()));
    assert!(matches!(step, CallStep::WaitThenAttempt(1000)));
    match call.on_outcome(&config, AttemptOutcome::Success(response())) {
        CallStep::Finished(Ok(v)) => {
            assert_eq!(v.len(), 1);
            assert_eq!(v[0].id, "m0");
            assert_eq!(f64::from_bits(v[0].values[0]), 1.5);
        }
        other => panic!("unexpected step {:?}", other),
    }
}

#[test]
fn exhaustion_reports_the_last_failure() {
    let config = MetricConfig::default();
    let mut call = MetricCall::new();
    call.on_outcome(&config, AttemptOutcome::ServiceError("first".to_string()));
    call.on_outcome(&config, AttemptOutcome::ServiceError("second".to_string()));
    match call.on_outcome(&config, AttemptOutcome::ServiceError("third".to_string())) {
        CallStep::Finished(Err(CloudWatchError::RetryExhausted(m))) => assert_eq!(m, "third"),
        other => panic!("unexpected step {:?}", other),
    }
    assert_eq!(call.attempts, 3);
}

#[test]
fn zero_attempt_budget_fails_at_once() {
    let config = MetricConfig { retry_attempts: 0, ..MetricConfig::default() };
    let call = MetricCall::new();
    assert!(matches!(call.start(&config), CallStep::Finished(Err(CloudWatchError::RetryExhausted(_)))));
}
