//! Configuration records, with their defaults.
//!
//! Each record is plain data; the defaults are stated exactly.  Reading
//! or writing a configuration file is the caller's concern.

use vstd::prelude::*;

use crate::errors::ConfigError;
use crate::strings::{blank_text, is_blank_string, str_eq, strs_view};
use vstd::string::StringExecFns;

verus! {

/// How the backing database is reached.
#[derive(Debug, Clone)]
pub struct DatabaseConfig {
    pub url: String,
    pub max_connections: u32,
    pub connection_timeout_seconds: u64,
    pub enable_migrations: bool,
}

impl Default for DatabaseConfig {
    /// A local file database, ten connections, migrations on.
    fn default() -> (r: Self)
        ensures
            r.url@ == "sqlite://data/app.db"@,
            r.max_connections == 10,
            r.connection_timeout_seconds == 30,
            r.enable_migrations,
    {
        DatabaseConfig {
            url: String::from_str("sqlite://data/app.db"),
            max_connections: 10,
            connection_timeout_seconds: 30,
            enable_migrations: true,
        }
    }
}

/// Where and how much to log.
#[derive(Debug, Clone)]
pub struct LoggingConfig {
    pub level: String,
    pub file_path: Option<String>,
    pub max_file_size_mb: u64,
    pub max_files: u32,
    pub enable_console: bool,
}

impl Default for LoggingConfig {
    /// Info level to a rotating file and the console.
    fn default() -> (r: Self)
        ensures
            r.level@ == "info"@,
            r.file_path matches Some(p) && p@ == "logs/app.log"@,
            r.max_file_size_mb == 10,
            r.max_files == 5,
            r.enable_console,
    {
        LoggingConfig {
            level: String::from_str("info"),
            file_path: Some(String::from_str("logs/app.log")),
            max_file_size_mb: 10,
            max_files: 5,
            enable_console: true,
        }
    }
}

/// What system metrics to collect, and how often.
#[derive(Debug, Clone)]
pub struct MonitoringConfig {
    pub enabled: bool,
    pub collection_interval_seconds: u64,
    pub retention_days: u32,
    pub metrics_to_collect: Vec<String>,
}

impl Default for MonitoringConfig {
    /// Every minute, kept a month: processor, memory, disk, builds and
    /// tests.
    fn default() -> (r: Self)
        ensures
            r.enabled,
            r.collection_interval_seconds == 60,
            r.retention_days == 30,
            strs_view(r.metrics_to_collect@) == seq![
                "cpu_usage"@,
                "memory_usage"@,
                "disk_usage"@,
                "build_times"@,
                "test_results"@,
            ],
    {
        let mut metrics_to_collect: Vec<String> = Vec::new();
        metrics_to_collect.push(String::from_str("cpu_usage"));
        metrics_to_collect.push(String::from_str("memory_usage"));
        metrics_to_collect.push(String::from_str("disk_usage"));
        metrics_to_collect.push(String::from_str("build_times"));
        metrics_to_collect.push(String::from_str("test_results"));
        let r = MonitoringConfig {
            enabled: true,
            collection_interval_seconds: 60,
            retention_days: 30,
            metrics_to_collect,
        };
        proof {
            assert(strs_view(r.metrics_to_collect@) =~= seq![
                "cpu_usage"@,
                "memory_usage"@,
                "disk_usage"@,
                "build_times"@,
                "test_results"@,
            ]);
        }
        r
    }
}

/// Limits and retry policy of the workflow engine.
#[derive(Debug, Clone)]
pub struct WorkflowConfig {
    pub max_concurrent_executions: u32,
    pub default_timeout_seconds: u64,
    pub enable_auto_retry: bool,
    pub max_retry_attempts: u32,
    pub retry_delay_seconds: u64,
}

impl Default for WorkflowConfig {
    /// Five concurrent runs, five-minute timeout, three retries five
    /// seconds apart.
    fn default() -> (r: Self)
        ensures
            r.max_concurrent_executions == 5,
            r.default_timeout_seconds == 300,
            r.enable_auto_retry,
            r.max_retry_attempts == 3,
            r.retry_delay_seconds == 5,
    {
        WorkflowConfig {
            max_concurrent_executions: 5,
            default_timeout_seconds: 300,
            enable_auto_retry: true,
            max_retry_attempts: 3,
            retry_delay_seconds: 5,
        }
    }
}

/// Appearance and behaviour of the user interface.
#[derive(Debug, Clone)]
pub struct UIConfig {
    pub theme: String,
    pub auto_save: bool,
    pub auto_save_interval_seconds: u64,
    pub show_notifications: bool,
    pub default_view: String,
}

impl Default for UIConfig {
    /// Dark theme, autosave every half minute, dashboard first.
    fn default() -> (r: Self)
        ensures
            r.theme@ == "dark"@,
            r.auto_save,
            r.auto_save_interval_seconds == 30,
            r.show_notifications,
            r.default_view@ == "dashboard"@,
    {
        UIConfig {
            theme: String::from_str("dark"),
            auto_save: true,
            auto_save_interval_seconds: 30,
            show_notifications: true,
            default_view: String::from_str("dashboard"),
        }
    }
}

/// The message the provider-field check reports, if any: a blank
/// provider name, a blank model, a zero token limit, a zero timeout.
/// The floating-point temperature bound stays with the caller, which
/// holds the float.
pub open spec fn provider_fields_error(
    name: Seq<char>,
    model: Seq<char>,
    max_tokens: Option<u32>,
    timeout_seconds: u64,
) -> Option<Seq<char>> {
    if blank_text(name) {
        Some("AI provider name cannot be empty"@)
    } else if blank_text(model) {
        Some("AI provider model cannot be empty"@)
    } else if max_tokens == Some(0u32) {
        Some("Max tokens must be greater than 0"@)
    } else if timeout_seconds == 0 {
        Some("Timeout must be greater than 0"@)
    } else {
        None
    }
}

/// Check the plain fields of an analysis-provider entry.
pub fn validate_provider_fields(
    name: &String,
    model: &String,
    max_tokens: Option<u32>,
    timeout_seconds: u64,
) -> (r: Result<(), ConfigError>)
    ensures
        r is Ok <==> provider_fields_error(name@, model@, max_tokens, timeout_seconds) is None,
        r matches Err(e) ==> (e matches ConfigError::ValidationFailed(m) && Some(m@)
            == provider_fields_error(name@, model@, max_tokens, timeout_seconds)),
{
    if is_blank_string(name) {
        return Err(
            ConfigError::ValidationFailed(String::from_str("AI provider name cannot be empty")),
        );
    }
    if is_blank_string(model) {
        return Err(
            ConfigError::ValidationFailed(String::from_str("AI provider model cannot be empty")),
        );
    }
    match max_tokens {
        Some(n) => {
            if n == 0 {
                return Err(
                    ConfigError::ValidationFailed(
                        String::from_str("Max tokens must be greater than 0"),
                    ),
                );
            }
        },
        None => {},
    }
    if timeout_seconds == 0 {
        return Err(
            ConfigError::ValidationFailed(String::from_str("Timeout must be greater than 0")),
        );
    }
    Ok(())
}

/// A recognised logging level.
pub open spec fn valid_log_level(level: Seq<char>) -> bool {
    level == "trace"@ || level == "debug"@ || level == "info"@ || level == "warn"@ || level
        == "error"@
}

/// A recognised interface theme.
pub open spec fn valid_theme(theme: Seq<char>) -> bool {
    theme == "light"@ || theme == "dark"@ || theme == "auto"@
}

/// The message the settings check reports, if any, in check order:
/// version, data directory, database, logging level, monitoring
/// interval, concurrency limit, theme.  Provider entries are checked
/// one by one by the caller with [`validate_provider_fields`].
pub open spec fn core_settings_error(
    version: Seq<char>,
    data_directory: Seq<char>,
    database: DatabaseConfig,
    logging: LoggingConfig,
    monitoring: MonitoringConfig,
    workflow: WorkflowConfig,
    ui: UIConfig,
) -> Option<Seq<char>> {
    if blank_text(version) {
        Some("Version cannot be empty"@)
    } else if blank_text(data_directory) {
        Some("Data directory cannot be empty"@)
    } else if blank_text(database.url@) {
        Some("Database URL cannot be empty"@)
    } else if database.max_connections == 0 {
        Some("Database max connections must be greater than 0"@)
    } else if !valid_log_level(logging.level@) {
        Some("Invalid logging level"@)
    } else if monitoring.collection_interval_seconds == 0 {
        Some("Monitoring collection interval must be greater than 0"@)
    } else if workflow.max_concurrent_executions == 0 {
        Some("Max concurrent executions must be greater than 0"@)
    } else if !valid_theme(ui.theme@) {
        Some("Invalid UI theme"@)
    } else {
        None
    }
}

/// Check the plain application settings.
pub fn validate_core_settings(
    version: &String,
    data_directory: &String,
    database: &DatabaseConfig,
    logging: &LoggingConfig,
    monitoring: &MonitoringConfig,
    workflow: &WorkflowConfig,
    ui: &UIConfig,
) -> (r: Result<(), ConfigError>)
    ensures
        r is Ok <==> core_settings_error(
            version@,
            data_directory@,
            *database,
            *logging,
            *monitoring,
            *workflow,
            *ui,
        ) is None,
        r matches Err(e) ==> (e matches ConfigError::ValidationFailed(m) && Some(m@)
            == core_settings_error(
            version@,
            data_directory@,
            *database,
            *logging,
            *monitoring,
            *workflow,
            *ui,
        )),
{
    if is_blank_string(version) {
        return Err(ConfigError::ValidationFailed(String::from_str("Version cannot be empty")));
    }
    if is_blank_string(data_directory) {
        return Err(
            ConfigError::ValidationFailed(String::from_str("Data directory cannot be empty")),
        );
    }
    if is_blank_string(&database.url) {
        return Err(
            ConfigError::ValidationFailed(String::from_str("Database URL cannot be empty")),
        );
    }
    if database.max_connections == 0 {
        return Err(
            ConfigError::ValidationFailed(
                String::from_str("Database max connections must be greater than 0"),
            ),
        );
    }
    let level_ok = str_eq(&logging.level, &String::from_str("trace")) || str_eq(
        &logging.level,
        &String::from_str("debug"),
    ) || str_eq(&logging.level, &String::from_str("info")) || str_eq(
        &logging.level,
        &String::from_str("warn"),
    ) || str_eq(&logging.level, &String::from_str("error"));
    if !level_ok {
        return Err(ConfigError::ValidationFailed(String::from_str("Invalid logging level")));
    }
    if monitoring.collection_interval_seconds == 0 {
        return Err(
            ConfigError::ValidationFailed(
                String::from_str("Monitoring collection interval must be greater than 0"),
            ),
        );
    }
    if workflow.max_concurrent_executions == 0 {
        return Err(
            ConfigError::ValidationFailed(
                String::from_str("Max concurrent executions must be greater than 0"),
            ),
        );
    }
    let theme_ok = str_eq(&ui.theme, &String::from_str("light")) || str_eq(
        &ui.theme,
        &String::from_str("dark"),
    ) || str_eq(&ui.theme, &String::from_str("auto"));
    if !theme_ok {
        return Err(ConfigError::ValidationFailed(String::from_str("Invalid UI theme")));
    }
    Ok(())
}


} // verus!
