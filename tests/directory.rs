use rds_exporter::instance::Instance;
use rds_exporter::rds::{
    Backoff, ListingAction, ListingEvent, ListingSession, RdsConfig, RdsError, RdsInstanceManager,
    RetryDecision,
};
use rds_exporter::tags::{eq_ignore_case, matches_all, Tag, TagFilter};

fn instance(id: &str, engine: &str, arn: Option<&str>) -> Instance {
    Instance {
        identifier: Some(id.to_string()),
        arn: arn.map(|a| a.to_string()),
        engine: Some(engine.to_string()),
        engine_version: Some("8.0".to_string()),
        instance_class: Some("db.r5.large".to_string()),
        availability_zone: Some("ap-northeast-2a".to_string()),
        tags: Vec::new(),
    }
}

fn complete(action: ListingAction) -> Vec<Instance> {
    match action {
        ListingAction::Complete(v) => v,
        other => panic!("unexpected action {:?}", other),
    }
}

#[test]
fn test_tag_filter_matching() {
    let filter = TagFilter::new("env", "prd");
    let tags = vec![Tag::new("env", "prd")];

    assert!(filter.matches(&tags));
}

#[test]
fn test_multiple_tag_filters() {
    let mut manager = RdsInstanceManager::new(RdsConfig::default());
    let filters = vec![TagFilter::new("env", "prd")];
    assert!(manager.get_instances_by_tags(&filters, 0).is_none());
    let (mut session, first) = ListingSession::start(&filters, 100);
    assert!(matches!(first, ListingAction::FetchPage { token: None, max_records: 100 }));
    let result = complete(session.step(ListingEvent::Page { instances: Vec::new(), next_token: None }));
    assert!(result.is_empty());
    manager.store(&filters, &result, 0);
    assert_eq!(manager.get_instances_by_tags(&filters, 1).map(|v| v.len()), Some(0));
}

#[test]
fn tag_filter_ignores_ascii_case() {
    assert!(eq_ignore_case("Env-PRD", "env-prd"));
    assert!(!eq_ignore_case("env", "envs"));
    assert!(!eq_ignore_case("[", "{"));
    let filter = TagFilter::new("ENV", "Prd");
    assert!(filter.matches(&[Tag::new("env", "PRD")]));
    assert!(!filter.matches(&[Tag::new("env", "dev")]));
    assert!(!filter.matches(&[Tag { key: Some("env".to_string()), value: None }]));
    assert!(!filter.matches(&[]));
}

#[test]
fn filter_set_is_a_conjunction() {
    let filters = vec![TagFilter::new("env", "prd"), TagFilter::new("team", "db")];
    let both = vec![Tag::new("team", "db"), Tag::new("env", "prd")];
    let one = vec![Tag::new("env", "prd")];
    assert!(matches_all(&filters, &both));
    assert!(!matches_all(&filters, &one));
    assert!(matches_all(&Vec::new(), &one));
}

#[test]
fn listing_pages_filters_and_skips_failed_lookups() {
    let filters = vec![TagFilter::new("env", "prd")];
    let (mut session, _) = ListingSession::start(&filters, 100);
    let page1 = vec![
        instance("a", "mysql", Some("arn:a")),
        instance("b", "mysql", None),
        instance("c", "postgres", Some("arn:c")),
    ];
    let action = session.step(ListingEvent::Page { instances: page1, next_token: Some("t1".to_string()) });
    assert!(matches!(&action, ListingAction::FetchTags(a) if a == "arn:a"));
    let action = session.step(ListingEvent::Tags(vec![Tag::new("env", "prd")]));
    // "b" has no resource name and is passed over.
    assert!(matches!(&action, ListingAction::FetchTags(a) if a == "arn:c"));
    let action = session.step(ListingEvent::TagsFailed(RdsError::TagLookupError("throttled".to_string())));
    assert!(matches!(&action, ListingAction::FetchPage { token: Some(t), max_records: 100 } if t == "t1"));
    let action = session.step(ListingEvent::Page {
        instances: vec![instance("d", "aurora-mysql", Some("arn:d"))],
        next_token: None,
    });
    assert!(matches!(&action, ListingAction::FetchTags(a) if a == "arn:d"));
    let found = complete(session.step(ListingEvent::Tags(vec![Tag::new("env", "dev")])));
    assert_eq!(found.len(), 1);
    assert_eq!(found[0].identifier.as_deref(), Some("a"));
    assert_eq!(found[0].tags.len(), 1);
}

#[test]
fn listing_page_failure_aborts() {
    let filters = vec![TagFilter::new("env", "prd")];
    let (mut session, _) = ListingSession::start(&filters, 100);
    let action = session.step(ListingEvent::PageFailed(RdsError::DescribeInstancesError("down".to_string())));
    assert!(matches!(action, ListingAction::Abort(RdsError::DescribeInstancesError(m)) if m == "down"));
}

#[test]
fn fresh_cache_entry_is_served_and_expired_one_is_not() {
    let mut manager = RdsInstanceManager::new(RdsConfig::default());
    let filters = vec![TagFilter::new("env", "prd")];
    let mut inst = instance("a", "mysql", Some("arn:a"));
    inst.tags = vec![Tag::new("env", "prd")];
    manager.store(&filters, &vec![inst], 1_000);
    let hit = manager.get_instances_by_tags(&filters, 1_000 + 299_999).expect("fresh entry");
    assert_eq!(hit.len(), 1);
    assert_eq!(hit[0].identifier.as_deref(), Some("a"));
    assert!(manager.get_instances_by_tags(&filters, 1_000 + 300_000).is_none());
    let other = vec![TagFilter::new("env", "dev")];
    assert!(manager.get_instances_by_tags(&other, 1_000).is_none());
    manager.store(&filters, &Vec::new(), 400_000);
    assert_eq!(manager.get_instances_by_tags(&filters, 400_001).map(|v| v.len()), Some(0));
    assert_eq!(manager.cache.len(), 1);
}

#[test]
fn prd_filter_comes_from_config() {
    let manager = RdsInstanceManager::new(RdsConfig::default());
    let f = manager.get_prd_instances();
    assert_eq!(f, vec![TagFilter::new("env", "prd")]);
}

#[test]
fn backoff_doubles_then_gives_up_with_last_error() {
    let config = RdsConfig::default();
    let mut b = Backoff::new(&config);
    assert!(b.may_attempt(&config));
    let fail = |m: &str| RdsError::DescribeInstancesError(m.to_string());
    assert!(matches!(b.on_failure(&config, fail("e1")), RetryDecision::RetryAfter(1000)));
    assert!(matches!(b.on_failure(&config, fail("e2")), RetryDecision::RetryAfter(2000)));
    match b.on_failure(&config, fail("e3")) {
        RetryDecision::GiveUp(RdsError::RetryExhausted(m)) => assert_eq!(m, "e3"),
        other => panic!("unexpected decision {:?}", other),
    }
    assert!(!b.may_attempt(&config));
}

#[test]
fn zero_budget_reports_exhaustion() {
    let config = RdsConfig { max_retries: 0, ..RdsConfig::default() };
    let b = Backoff::new(&config);
    assert!(!b.may_attempt(&config));
    assert!(matches!(Backoff::exhausted_error(), RdsError::RetryExhausted(_)));
}
