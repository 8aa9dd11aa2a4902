use rds_exporter::cloudwatch::{decimal_string, CloudWatchCollector, CloudWatchError, MetricConfig, SeriesResult};
use rds_exporter::collector::{
    get_instance_tags, instance_labels, CollectionCycle, CollectorState, MetricPoint, RdsMetricCollector,
};
use rds_exporter::config::Settings;
use rds_exporter::instance::{
    engine_kind, get_common_metrics, get_mysql_metrics, get_postgresql_metrics, metrics_for,
    EngineKind, Instance,
};
use rds_exporter::publisher::{prefixed_series_name, PrometheusPublisher, RegistryError};
use rds_exporter::rds::{ListingAction, ListingEvent, ListingSession, RdsError, RdsInstanceManager};
use rds_exporter::tags::Tag;

fn instance(id: &str, engine: &str) -> Instance {
    Instance {
        identifier: Some(id.to_string()),
        arn: Some(format!("arn:{}", id)),
        engine: Some(engine.to_string()),
        engine_version: Some("1".to_string()),
        instance_class: Some("db.t3.micro".to_string()),
        availability_zone: Some("az-1".to_string()),
        tags: Vec::new(),
    }
}

fn full_response(n: usize) -> Vec<SeriesResult> {
    (0..n).map(|i| SeriesResult { id: format!("m{}", i), values: vec![(i as f64).to_bits()] }).collect()
}

fn point(name: &str, tags: &[(&str, &str)], value: f64) -> MetricPoint {
    MetricPoint {
        value: value.to_bits(),
        metric_name: name.to_string(),
        additional_tags: tags.iter().map(|(k, v)| (k.to_string(), v.to_string())).collect(),
    }
}

fn labels(tags: &[(&str, &str)]) -> Vec<(String, String)> {
    tags.iter().map(|(k, v)| (k.to_string(), v.to_string())).collect()
}

#[test]
fn metric_sets_by_engine() {
    assert_eq!(engine_kind("mysql"), EngineKind::MySqlFamily);
    assert_eq!(engine_kind("aurora-mysql"), EngineKind::MySqlFamily);
    assert_eq!(engine_kind("postgres"), EngineKind::PostgresFamily);
    assert_eq!(engine_kind("aurora-postgresql"), EngineKind::PostgresFamily);
    assert_eq!(engine_kind("oracle-ee"), EngineKind::Common);
    let common = get_common_metrics();
    assert_eq!(common.len(), 20);
    assert_eq!(common[0], "CPUUtilization");
    let mysql = get_mysql_metrics();
    assert_eq!(mysql.len(), 26);
    assert_eq!(&mysql[..20], &common[..]);
    assert_eq!(mysql[25], "DeadlocksCount");
    let pg = get_postgresql_metrics();
    assert_eq!(pg.len(), 28);
    assert_eq!(pg[20], "ActiveTransactions");
    assert_eq!(metrics_for(EngineKind::Common), common);
}

#[test]
fn instance_labels_include_instance_id() {
    let mut inst = instance("db-1", "mysql");
    inst.engine_version = None;
    let attributes = labels(&[
        ("db_instance_identifier", "db-1"),
        ("engine", "mysql"),
        ("class", "db.t3.micro"),
        ("availability_zone", "az-1"),
    ]);
    assert_eq!(get_instance_tags(&inst), attributes);
    let mut all = attributes.clone();
    all.push(("instance_id".to_string(), "db-1".to_string()));
    assert_eq!(instance_labels(&inst), all);
}

#[test]
fn end_to_end_cycle_keeps_only_the_filtered_fleet() {
    let manager = RdsInstanceManager::new(Settings::default().rds_config());
    let filters = manager.get_prd_instances();
    let (mut session, _) = ListingSession::start(&filters, 100);
    let fleet = vec![instance("db-1", "aurora-mysql"), instance("db-2", "postgres")];
    session.step(ListingEvent::Page { instances: fleet, next_token: None });
    session.step(ListingEvent::Tags(vec![Tag::new("env", "prd")]));
    let found = match session.step(ListingEvent::Tags(vec![Tag::new("env", "dev")])) {
        ListingAction::Complete(v) => v,
        other => panic!("unexpected action {:?}", other),
    };
    assert_eq!(found.len(), 1);

    let collector = CloudWatchCollector::new(MetricConfig::default());
    let mut cycle = CollectionCycle::new(found, 1_700_000_000);
    let (names, requests) = cycle.next_requests().expect("one instance");
    assert_eq!(names, get_mysql_metrics());
    assert!(requests.iter().all(|r| r.namespace == "AWS/RDS" && r.dimension_value == "db-1"));
    let queries = collector.collect_all_metrics(&requests).expect("valid");
    assert_eq!(queries.len(), 26);
    cycle.record(Ok(full_response(26)));
    assert!(cycle.is_done());
    assert!(cycle.next_requests().is_none());
    let batch = cycle.finish();
    assert_eq!(batch.len(), 26);
    assert!(batch.iter().all(|p| p.has_distinct_labels()));
    let mysql = get_mysql_metrics();
    for (i, p) in batch.iter().enumerate() {
        assert_eq!(p.metric_name, mysql[i]);
        assert_eq!(f64::from_bits(p.value), i as f64);
        assert!(p.additional_tags.contains(&("instance_id".to_string(), "db-1".to_string())));
    }
    assert!(!batch.iter().any(|p| p.additional_tags.iter().any(|(_, v)| v == "db-2")));
}

#[test]
fn failed_instance_is_skipped_and_results_follow_ids() {
    let mut cycle = CollectionCycle::new(vec![instance("a", "mysql"), instance("b", "oracle-ee")], 1_000);
    assert_eq!((cycle.start_secs, cycle.end_secs), (700, 1_000));
    cycle.record(Err(CloudWatchError::Timeout("late".to_string())));
    let response = vec![
        SeriesResult { id: "m1".to_string(), values: vec![7, 8] },
        SeriesResult { id: "zz".to_string(), values: vec![9] },
        SeriesResult { id: "m0".to_string(), values: vec![] },
    ];
    cycle.record(Ok(response));
    let batch = cycle.finish();
    assert_eq!(batch.len(), 2);
    assert_eq!(batch[0].metric_name, "FreeableMemory");
    assert_eq!(batch[0].value, 7);
    assert_eq!(batch[1].value, 8);
    assert!(batch[0].additional_tags.contains(&("instance_id".to_string(), "b".to_string())));
}

#[test]
fn failed_cycle_returns_to_idle_and_next_tick_starts_again() {
    let mut c = RdsMetricCollector::new(60);
    assert!(c.on_tick());
    assert_eq!(c.state, CollectorState::Collecting);
    assert!(!c.on_tick());
    let wait = c.on_cycle_end::<RdsError>(Err(RdsError::DescribeInstancesError("down".to_string())));
    assert_eq!(wait, 60);
    assert_eq!(c.state, CollectorState::Idle);
    assert!(c.on_tick());
}

#[test]
fn series_name_is_lowercased_with_prefix() {
    let p = PrometheusPublisher::new();
    assert_eq!(p.create_metric_name(&point("CPUUtilization", &[], 0.0)), "rds_cpuutilization");
    assert_eq!(p.create_metric_name(&point("ReadIOPS", &[], 0.0)), "rds_readiops");
}

#[test]
fn same_labels_different_values_are_independent_cells_and_conflicts_drop() {
    let mut p = PrometheusPublisher::new();
    let a = point("CPUUtilization", &[("instance_id", "a")], 1.0);
    let b = point("CPUUtilization", &[("instance_id", "b")], 2.0);
    let c = point("CPUUtilization", &[("instance_id", "c"), ("engine", "mysql")], 3.0);
    let errors = p.publish(&vec![a, b, c]);
    assert_eq!(errors.len(), 1);
    assert!(matches!(&errors[0], RegistryError::RegistrationConflict(n) if n == "rds_cpuutilization"));
    let name = "rds_cpuutilization".to_string();
    assert_eq!(p.get(&name, &labels(&[("instance_id", "a")])), Some(1.0f64.to_bits()));
    assert_eq!(p.get(&name, &labels(&[("instance_id", "b")])), Some(2.0f64.to_bits()));
    assert_eq!(p.get(&name, &labels(&[("instance_id", "c")])), None);
    assert_eq!(p.series.len(), 1);
    assert_eq!(p.series[0].cells.len(), 2);
}

#[test]
fn latest_value_wins_for_a_cell() {
    let mut p = PrometheusPublisher::new();
    let tags = [("engine", "mysql"), ("instance_id", "a")];
    assert!(p.observe(&point("FreeableMemory", &tags, 1.0)).is_ok());
    let swapped = [("instance_id", "a"), ("engine", "mysql")];
    assert!(p.observe(&point("FreeableMemory", &swapped, 5.0)).is_ok());
    let name = "rds_freeablememory".to_string();
    assert_eq!(p.get(&name, &labels(&tags)), Some(5.0f64.to_bits()));
    assert_eq!(p.series[0].cells.len(), 1);
}

#[test]
fn settings_defaults_and_derived_configs() {
    let s = Settings::default();
    assert_eq!(s.exporter.port, 9043);
    let m = s.metric_config();
    assert_eq!(m.retry_attempts, 3);
    assert_eq!(m.retry_delay_ms, 1000);
    let r = s.rds_config();
    assert_eq!(r.target_tag_key, "env");
    assert_eq!(r.cache_ttl_ms, 300_000);
}

#[test]
fn duplicate_label_names_are_detected() {
    assert!(point("x", &[("a", "1"), ("b", "2")], 0.0).has_distinct_labels());
    assert!(!point("x", &[("a", "1"), ("b", "2"), ("a", "3")], 0.0).has_distinct_labels());
}

#[test]
fn observe_as_uses_the_given_series_name() {
    assert_eq!(prefixed_series_name("readiops"), "rds_readiops");
    let mut p = PrometheusPublisher::new();
    let a = point("Ignored", &[("instance_id", "a")], 4.0);
    assert!(p.observe_as("custom".to_string(), &a).is_ok());
    let b = point("Ignored", &[("engine", "x")], 4.0);
    assert!(matches!(p.observe_as("custom".to_string(), &b), Err(RegistryError::RegistrationConflict(n)) if n == "custom"));
    assert_eq!(p.get(&"custom".to_string(), &labels(&[("instance_id", "a")])), Some(4.0f64.to_bits()));
}

#[test]
fn decimal_ids() {
    assert_eq!(decimal_string(0), "0");
    assert_eq!(decimal_string(7), "7");
    assert_eq!(decimal_string(120), "120");
    assert_eq!(decimal_string(usize::MAX), usize::MAX.to_string());
}
