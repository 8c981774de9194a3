use kapot::client::{ClientPhysicalPlan, KapotQueryPlanner, LogicalStatement};
use kapot::config::KapotConfig;
use kapot::object_store::{select_object_store, ObjectStoreKind};

#[test]
fn table_definition_is_resolved_locally() {
    let config = KapotConfig::new().unwrap();
    let planner = KapotQueryPlanner::new(String::from("df://scheduler:50050"), config);
    let plan = planner.create_physical_plan(LogicalStatement::CreateExternalTable, "session-1");
    assert!(matches!(plan, ClientPhysicalPlan::LocalEmpty));
}

#[test]
fn query_becomes_deferred_distributed_plan() {
    let config = KapotConfig::new().unwrap();
    let planner = KapotQueryPlanner::new(String::from("df://scheduler:50050"), config);
    let plan = planner.create_physical_plan(LogicalStatement::Query, "session-2");
    match plan {
        ClientPhysicalPlan::DistributedQuery { scheduler_url, session_id, started } => {
            assert_eq!("df://scheduler:50050", scheduler_url);
            assert_eq!("session-2", session_id);
            assert!(!started);
        },
        other => panic!("expected a deferred distributed query, got {other:?}"),
    }
}

#[test]
fn iteration_starts_the_deferred_query() {
    let config = KapotConfig::new().unwrap();
    let planner = KapotQueryPlanner::new(String::from("df://s:1"), config);
    let plan = planner.create_physical_plan(LogicalStatement::Query, "s");
    match plan.start() {
        ClientPhysicalPlan::DistributedQuery { started, .. } => assert!(started),
        other => panic!("expected a distributed query, got {other:?}"),
    }
}

#[test]
fn object_store_selection() {
    let bucket = String::from("my-bucket");
    match select_object_store("s3://my-bucket/path", Some(&bucket)) {
        ObjectStoreKind::AmazonS3 { bucket, virtual_hosted } => {
            assert_eq!("my-bucket", bucket);
            assert!(!virtual_hosted);
        },
        other => panic!("expected S3, got {other:?}"),
    }
    match select_object_store("oss://my-bucket/path", Some(&bucket)) {
        ObjectStoreKind::AmazonS3 { virtual_hosted, .. } => assert!(virtual_hosted),
        other => panic!("expected S3 compatibility mode, got {other:?}"),
    }
    assert!(matches!(
        select_object_store("az://container/blob", Some(&bucket)),
        ObjectStoreKind::MicrosoftAzure { .. }
    ));
    assert!(matches!(
        select_object_store("gs://my-bucket/obj", Some(&bucket)),
        ObjectStoreKind::GoogleCloud { .. }
    ));
    assert!(matches!(
        select_object_store("file:///tmp/data", None),
        ObjectStoreKind::LocalFile
    ));
    assert!(matches!(
        select_object_store("s3://", None),
        ObjectStoreKind::Unsupported
    ));
    assert!(matches!(
        select_object_store("ftp://host/x", Some(&bucket)),
        ObjectStoreKind::Unsupported
    ));
}

#[test]
fn registry_caches_selection() {
    let mut registry = kapot::object_store::KapotObjectStoreRegistry::new();
    let bucket = String::from("b");
    let i = registry
        .get_store("s3://b/key", Some(&bucket))
        .expect("an S3 URL with a host has a store");
    assert_eq!(0, i);
    assert!(matches!(
        registry.stores[i].store,
        ObjectStoreKind::AmazonS3 { .. }
    ));
    // the second request for the same URL is served from the cache
    let j = registry.get_store("s3://b/key", Some(&bucket)).unwrap();
    assert_eq!(i, j);
    assert_eq!(1, registry.stores.len());
    // a URL without a store is an error naming it, and nothing is cached
    let err = registry.get_store("ftp://host/x", Some(&bucket)).unwrap_err();
    match err {
        kapot::error::KapotError::General(m) => {
            assert_eq!("No object store available for: ftp://host/x", m);
        },
        other => panic!("expected General, got {other:?}"),
    }
    assert_eq!(1, registry.stores.len());
}
