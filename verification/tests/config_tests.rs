use aidev_core::config::{
    validate_core_settings, validate_provider_fields, DatabaseConfig, LoggingConfig,
    MonitoringConfig, UIConfig, WorkflowConfig,
};

#[test]
fn test_database_config_default() {
    let db_config = DatabaseConfig::default();
    assert_eq!(db_config.url, "sqlite://data/app.db");
    assert_eq!(db_config.max_connections, 10);
    assert_eq!(db_config.connection_timeout_seconds, 30);
    assert!(db_config.enable_migrations);
}

#[test]
fn test_logging_config_default() {
    let logging_config = LoggingConfig::default();
    assert_eq!(logging_config.level, "info");
    assert_eq!(logging_config.file_path, Some("logs/app.log".to_string()));
    assert_eq!(logging_config.max_file_size_mb, 10);
    assert_eq!(logging_config.max_files, 5);
    assert!(logging_config.enable_console);
}

#[test]
fn test_monitoring_config_default() {
    let monitoring_config = MonitoringConfig::default();
    assert!(monitoring_config.enabled);
    assert_eq!(monitoring_config.collection_interval_seconds, 60);
    assert_eq!(monitoring_config.retention_days, 30);
    assert_eq!(monitoring_config.metrics_to_collect.len(), 5);
    assert!(monitoring_config
        .metrics_to_collect
        .contains(&"cpu_usage".to_string()));
}

#[test]
fn test_workflow_config_default() {
    let workflow_config = WorkflowConfig::default();
    assert_eq!(workflow_config.max_concurrent_executions, 5);
    assert_eq!(workflow_config.default_timeout_seconds, 300);
    assert!(workflow_config.enable_auto_retry);
    assert_eq!(workflow_config.max_retry_attempts, 3);
    assert_eq!(workflow_config.retry_delay_seconds, 5);
}

#[test]
fn test_ui_config_default() {
    let ui_config = UIConfig::default();
    assert_eq!(ui_config.theme, "dark");
    assert!(ui_config.auto_save);
    assert_eq!(ui_config.auto_save_interval_seconds, 30);
    assert!(ui_config.show_notifications);
    assert_eq!(ui_config.default_view, "dashboard");
}

#[test]
fn test_validate_provider_fields() {
    let name = "openai".to_string();
    let model = "gpt-4".to_string();
    assert!(validate_provider_fields(&name, &model, Some(4000), 30).is_ok());
    assert!(validate_provider_fields(&name, &model, None, 30).is_ok());

    // Blank name and blank model are rejected
    assert!(validate_provider_fields(&" ".to_string(), &model, Some(4000), 30).is_err());
    assert!(validate_provider_fields(&name, &"".to_string(), Some(4000), 30).is_err());

    // A zero token limit and a zero timeout are rejected
    assert!(validate_provider_fields(&name, &model, Some(0), 30).is_err());
    assert!(validate_provider_fields(&name, &model, Some(4000), 0).is_err());
}

#[test]
fn test_validate_core_settings() {
    let version = "0.1.0".to_string();
    let data_directory = "data".to_string();
    let database = DatabaseConfig::default();
    let logging = LoggingConfig::default();
    let monitoring = MonitoringConfig::default();
    let workflow = WorkflowConfig::default();
    let ui = UIConfig::default();

    assert!(validate_core_settings(
        &version,
        &data_directory,
        &database,
        &logging,
        &monitoring,
        &workflow,
        &ui
    )
    .is_ok());

    // A blank version is rejected
    assert!(validate_core_settings(
        &"  ".to_string(),
        &data_directory,
        &database,
        &logging,
        &monitoring,
        &workflow,
        &ui
    )
    .is_err());

    // An unknown logging level is rejected
    let mut bad_logging = LoggingConfig::default();
    bad_logging.level = "verbose".to_string();
    assert!(validate_core_settings(
        &version,
        &data_directory,
        &database,
        &bad_logging,
        &monitoring,
        &workflow,
        &ui
    )
    .is_err());

    // An unknown theme is rejected
    let mut bad_ui = UIConfig::default();
    bad_ui.theme = "sepia".to_string();
    assert!(validate_core_settings(
        &version,
        &data_directory,
        &database,
        &logging,
        &monitoring,
        &workflow,
        &bad_ui
    )
    .is_err());

    // A zero concurrency limit is rejected
    let mut bad_workflow = WorkflowConfig::default();
    bad_workflow.max_concurrent_executions = 0;
    assert!(validate_core_settings(
        &version,
        &data_directory,
        &database,
        &logging,
        &monitoring,
        &bad_workflow,
        &ui
    )
    .is_err());
}
