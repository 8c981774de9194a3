use kapot::config::{
    DataKind, KapotConfig, TaskSchedulingPolicy, LogRotationPolicy, DataCachePolicy,
    KAPOT_DEFAULT_SHUFFLE_PARTITIONS, KAPOT_GRPC_CLIENT_MAX_MESSAGE_SIZE, KAPOT_PLUGIN_DIR,
    KAPOT_WITH_INFORMATION_SCHEMA,
};
use kapot::text::{parse_usize, IntParseError};

#[test]
fn default_config() {
    let config = KapotConfig::new().unwrap();
    assert_eq!(16, config.default_shuffle_partitions());
    assert!(!config.default_with_information_schema());
    assert_eq!(16777216, config.default_grpc_client_max_message_size());
}

#[test]
fn custom_config() {
    let config = KapotConfig::builder()
        .set(KAPOT_DEFAULT_SHUFFLE_PARTITIONS, "123")
        .set(KAPOT_WITH_INFORMATION_SCHEMA, "true")
        .set(
            KAPOT_GRPC_CLIENT_MAX_MESSAGE_SIZE,
            (8 * 1024 * 1024).to_string().as_str(),
        )
        .build()
        .unwrap();
    assert_eq!(123, config.default_shuffle_partitions());
    assert!(config.default_with_information_schema());
    assert_eq!(8388608, config.default_grpc_client_max_message_size());
}

#[test]
fn custom_config_invalid() {
    let config = KapotConfig::builder()
        .set(KAPOT_DEFAULT_SHUFFLE_PARTITIONS, "true")
        .set(KAPOT_PLUGIN_DIR, "test_dir")
        .build();
    assert!(config.is_err());
    assert_eq!("General(\"Failed to parse user-supplied value 'kapot.shuffle.partitions' for configuration setting 'true': ParseIntError { kind: InvalidDigit }\")", format!("{:?}", config.unwrap_err()));

    let config = KapotConfig::builder()
        .set(KAPOT_WITH_INFORMATION_SCHEMA, "123")
        .build();
    assert!(config.is_err());
    assert_eq!("General(\"Failed to parse user-supplied value 'kapot.with_information_schema' for configuration setting '123': ParseBoolError\")", format!("{:?}", config.unwrap_err()));
}

#[test]
fn more_defaults() {
    let config = KapotConfig::new().unwrap();
    assert_eq!(8192, config.default_batch_size());
    assert_eq!(1048576, config.hash_join_single_partition_threshold());
    assert_eq!("", config.default_plugin_dir());
    assert!(config.repartition_joins());
    assert!(config.repartition_aggregations());
    assert!(config.repartition_windows());
    assert!(config.parquet_pruning());
    assert!(!config.collect_statistics());
}

#[test]
fn plugin_dir_setting_kept() {
    let config = KapotConfig::builder()
        .set(KAPOT_PLUGIN_DIR, "/opt/plugins")
        .build()
        .unwrap();
    assert_eq!("/opt/plugins", config.default_plugin_dir());
}

#[test]
fn set_replaces_earlier_binding() {
    let config = KapotConfig::builder()
        .set(KAPOT_DEFAULT_SHUFFLE_PARTITIONS, "4")
        .set(KAPOT_DEFAULT_SHUFFLE_PARTITIONS, "7")
        .build()
        .unwrap();
    assert_eq!(7, config.default_shuffle_partitions());
    assert_eq!(1, config.settings().len());
}

#[test]
fn unknown_keys_are_kept_unvalidated() {
    let config = KapotConfig::builder()
        .set("kapot.job.priority", "whatever")
        .build()
        .unwrap();
    assert_eq!(1, config.settings().len());
}

#[test]
fn parse_usize_grammar() {
    assert_eq!(Ok(42), parse_usize("42"));
    assert_eq!(Ok(42), parse_usize("+42"));
    assert_eq!(Ok(0), parse_usize("0"));
    assert_eq!(Err(IntParseError::Empty), parse_usize(""));
    assert_eq!(Err(IntParseError::InvalidDigit), parse_usize("+"));
    assert_eq!(Err(IntParseError::InvalidDigit), parse_usize("12x"));
    assert_eq!(Err(IntParseError::InvalidDigit), parse_usize("-1"));
    assert_eq!(
        Err(IntParseError::PosOverflow),
        parse_usize("99999999999999999999999999")
    );
}

#[test]
fn parse_value_by_kind() {
    assert!(KapotConfig::parse_value("123", DataKind::UInt16).is_ok());
    assert!(KapotConfig::parse_value("true", DataKind::Boolean).is_ok());
    assert!(KapotConfig::parse_value("anything", DataKind::Utf8).is_ok());
    assert_eq!(
        Err(String::from("ParseBoolError")),
        KapotConfig::parse_value("yes", DataKind::Boolean)
    );
    assert_eq!(
        Err(String::from("ParseIntError { kind: Empty }")),
        KapotConfig::parse_value("", DataKind::UInt64)
    );
    assert_eq!(
        Err(String::from("ParseIntError { kind: PosOverflow }")),
        KapotConfig::parse_value("99999999999999999999999999", DataKind::UInt32)
    );
}

#[test]
fn scheduling_policy_from_str() {
    assert_eq!(
        Ok(TaskSchedulingPolicy::PullStaged),
        TaskSchedulingPolicy::from_str("pull-staged")
    );
    assert_eq!(
        Ok(TaskSchedulingPolicy::PushStaged),
        TaskSchedulingPolicy::from_str("Push-Staged")
    );
    assert_eq!(
        Err(String::from("invalid variant: pull")),
        TaskSchedulingPolicy::from_str("pull")
    );
}

#[test]
fn log_rotation_policy_from_str() {
    assert_eq!(Ok(LogRotationPolicy::Minutely), LogRotationPolicy::from_str("minutely"));
    assert_eq!(Ok(LogRotationPolicy::Hourly), LogRotationPolicy::from_str("HOURLY"));
    assert_eq!(Ok(LogRotationPolicy::Daily), LogRotationPolicy::from_str("daily"));
    assert_eq!(Ok(LogRotationPolicy::Never), LogRotationPolicy::from_str("never"));
    assert!(LogRotationPolicy::from_str("weekly").is_err());
}

#[test]
fn data_cache_policy_from_str() {
    assert_eq!(
        Ok(DataCachePolicy::LocalDiskFile),
        DataCachePolicy::from_str("local-disk-file")
    );
    assert!(DataCachePolicy::from_str("memory").is_err());
}

#[test]
fn valid_entries_table() {
    let entries = KapotConfig::valid_entries();
    assert_eq!(12, entries.len());
    assert_eq!("kapot.job.name", entries[0].name);
    assert!(entries[0].default_value.is_none());
    assert_eq!(Some(String::from("16")), entries[1].default_value);
}
