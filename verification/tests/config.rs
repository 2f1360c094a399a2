use sleepplanet_backend::api_response::{ApiResponse, CODE_SUCCESS};
use sleepplanet_backend::config::{
    default_connection_timeout, default_db_pool_size, default_directory, default_false,
    default_file_name, default_filter_level, default_format, default_helper_threads,
    default_listen_addr, default_rolling, default_statement_timeout, default_tcp_timeout,
    default_true, ConfigError, DbConfig, JwtConfig, ListenConfig, LogConfig, LogFormat, LogTarget,
    Rotation, ServerConfig, TtlConfig,
};

#[test]
fn defaults() {
    assert!(!default_false());
    assert!(default_true());
    assert_eq!(default_listen_addr(), "127.0.0.1:8008");
    assert_eq!(default_helper_threads(), 10);
    assert_eq!(default_db_pool_size(), 10);
    assert_eq!(default_tcp_timeout(), 10000);
    assert_eq!(default_connection_timeout(), 30000);
    assert_eq!(default_statement_timeout(), 30000);
    assert_eq!(default_filter_level(), "info");
    assert_eq!(default_directory(), "./logs");
    assert_eq!(default_file_name(), "app.log");
    assert_eq!(default_rolling(), "daily");
    assert_eq!(default_format(), "full");
}

#[test]
fn default_log_config() {
    let log = LogConfig::default();
    assert_eq!(
        log,
        LogConfig {
            filter_level: "info".to_string(),
            with_ansi: true,
            stdout: false,
            directory: "./logs".to_string(),
            file_name: "app.log".to_string(),
            rolling: "daily".to_string(),
            format: "full".to_string(),
            with_level: true,
            with_target: true,
            with_thread_ids: true,
            with_thread_names: true,
            with_source_location: true,
        }
    );
    assert_eq!(log.rotation(), Rotation::Daily);
    assert_eq!(log.layout(), Some(LogFormat::Full));
    assert_eq!(log.target(), LogTarget::File);
}

#[test]
fn builders_set_one_field_each() {
    let base = LogConfig::default();
    let log = LogConfig::default()
        .filter_level("mycrate=trace")
        .with_ansi(false)
        .stdout(true)
        .directory("/var/log")
        .file_name("x.log")
        .rolling("hourly")
        .format("json")
        .with_level(false)
        .with_target(false)
        .with_thread_ids(false)
        .with_thread_names(false)
        .with_source_location(false);
    assert_eq!(
        log,
        LogConfig {
            filter_level: "mycrate=trace".to_string(),
            with_ansi: false,
            stdout: true,
            directory: "/var/log".to_string(),
            file_name: "x.log".to_string(),
            rolling: "hourly".to_string(),
            format: "json".to_string(),
            with_level: false,
            with_target: false,
            with_thread_ids: false,
            with_thread_names: false,
            with_source_location: false,
        }
    );
    assert_eq!(LogConfig::default().with_ansi(false), LogConfig { with_ansi: false, ..base.clone() });
    assert_eq!(
        LogConfig::default().file_name("y"),
        LogConfig { file_name: "y".to_string(), ..base }
    );
}

#[test]
fn rotation_and_layout_by_name() {
    let log = |rolling: &str, format: &str| LogConfig {
        rolling: rolling.to_string(),
        format: format.to_string(),
        ..LogConfig::default()
    };
    assert_eq!(log("minutely", "pretty").rotation(), Rotation::Minutely);
    assert_eq!(log("hourly", "pretty").rotation(), Rotation::Hourly);
    assert_eq!(log("daily", "pretty").rotation(), Rotation::Daily);
    assert_eq!(log("never", "pretty").rotation(), Rotation::Never);
    assert_eq!(log("weekly", "pretty").rotation(), Rotation::Never);
    assert_eq!(log("daily", "pretty").layout(), Some(LogFormat::Pretty));
    assert_eq!(log("daily", "compact").layout(), Some(LogFormat::Compact));
    assert_eq!(log("daily", "json").layout(), Some(LogFormat::Json));
    assert_eq!(log("daily", "full").layout(), Some(LogFormat::Full));
    assert_eq!(log("daily", "xml").layout(), None);
    assert_eq!(LogConfig::default().stdout(true).target(), LogTarget::Stdout);
}

#[test]
fn unknown_names_are_not_set() {
    let (log, set) = LogConfig::default().try_rolling("weekly");
    assert!(!set);
    assert_eq!(log, LogConfig::default());
    let (log, set) = LogConfig::default().try_rolling("never");
    assert!(set);
    assert_eq!(log.rolling, "never");
    let (log, set) = LogConfig::default().try_format("xml");
    assert!(!set);
    assert_eq!(log, LogConfig::default());
    let (log, set) = LogConfig::default().try_format("compact");
    assert!(set);
    assert_eq!(log.format, "compact");
}

fn server(url: &str, secret: &str, ttl: u64) -> ServerConfig {
    ServerConfig {
        server: ListenConfig { addr: default_listen_addr() },
        database: DbConfig {
            url: url.to_string(),
            pool_size: default_db_pool_size(),
            min_idle: None,
            tcp_timeout: default_tcp_timeout(),
            connection_timeout: default_connection_timeout(),
            statement_timeout: default_statement_timeout(),
            helper_threads: default_helper_threads(),
            enforce_tls: default_false(),
        },
        log: LogConfig::default(),
        jwt: JwtConfig { secret: secret.to_string(), expires_in: ttl },
        ttl: TtlConfig { session: 1, cache: 2 },
    }
}

#[test]
fn finalize_takes_the_store_address_from_the_environment_if_needed() {
    let done = server("postgres://a", "s", 60).finalize(Some("postgres://b".to_string()));
    assert_eq!(done, Ok(server("postgres://a", "s", 60)));
    let done = server("", "s", 60).finalize(Some("postgres://b".to_string()));
    assert_eq!(done, Ok(server("postgres://b", "s", 60)));
}

#[test]
fn finalize_fails_fast() {
    assert_eq!(server("", "s", 60).finalize(None), Err(ConfigError::MissingDatabaseUrl));
    assert_eq!(
        server("", "s", 60).finalize(Some(String::new())),
        Err(ConfigError::MissingDatabaseUrl)
    );
    assert_eq!(server("", "", 0).finalize(None), Err(ConfigError::MissingDatabaseUrl));
    assert_eq!(server("postgres://a", "", 0).finalize(None), Err(ConfigError::EmptySecret));
    assert_eq!(server("postgres://a", "s", 0).finalize(None), Err(ConfigError::ZeroTtl));
}

#[test]
fn success_response() {
    let response = ApiResponse::success(vec![1, 2], "登录成功");
    assert_eq!(response.code, 200);
    assert_eq!(CODE_SUCCESS, 200);
    assert_eq!(response.message, "登录成功");
    assert_eq!(response.data, vec![1, 2]);
}

#[test]
fn finalize_keeps_the_other_settings_of_the_store() {
    let mut config = server("", "s", 60);
    config.database.pool_size = 7;
    config.database.min_idle = Some(2);
    config.database.tcp_timeout = 11;
    config.database.connection_timeout = 12;
    config.database.statement_timeout = 13;
    config.database.helper_threads = 3;
    config.database.enforce_tls = true;
    let mut expected = config.clone();
    expected.database.url = "postgres://b".to_string();
    assert_eq!(config.finalize(Some("postgres://b".to_string())), Ok(expected));
}
