//! Configuration values, built once at start-up and handed to every
//! component that needs them.

use vstd::prelude::*;
use vstd::string::StringExecFns;

verus! {

/// The default for a switch that is off unless asked for.
pub fn default_false() -> (r: bool)
    ensures
        !r,
{
    false
}

/// The default for a switch that is on unless asked otherwise.
pub fn default_true() -> (r: bool)
    ensures
        r,
{
    true
}

/// The address the server listens on unless told otherwise.
pub fn default_listen_addr() -> (r: String)
    ensures
        r@ == "127.0.0.1:8008"@,
{
    String::from_str("127.0.0.1:8008")
}

/// The default number of helper threads.
pub fn default_helper_threads() -> (r: usize)
    ensures
        r == 10,
{
    10
}

/// The default size of the connection pool.
pub fn default_db_pool_size() -> (r: u32)
    ensures
        r == 10,
{
    10
}

/// The default TCP timeout, in milliseconds.
pub fn default_tcp_timeout() -> (r: u64)
    ensures
        r == 10000,
{
    10000
}

/// The default wait for a pooled connection, in milliseconds.
pub fn default_connection_timeout() -> (r: u64)
    ensures
        r == 30000,
{
    30000
}

/// The default wait for a statement, in milliseconds.
pub fn default_statement_timeout() -> (r: u64)
    ensures
        r == 30000,
{
    30000
}

/// The default log filter.
pub fn default_filter_level() -> (r: String)
    ensures
        r@ == "info"@,
{
    String::from_str("info")
}

/// The default directory of the log files.
pub fn default_directory() -> (r: String)
    ensures
        r@ == "./logs"@,
{
    String::from_str("./logs")
}

/// The default name of the log file.
pub fn default_file_name() -> (r: String)
    ensures
        r@ == "app.log"@,
{
    String::from_str("app.log")
}

/// The default rotation of the log file.
pub fn default_rolling() -> (r: String)
    ensures
        r@ == "daily"@,
{
    String::from_str("daily")
}

/// The default layout of a log line.
pub fn default_format() -> (r: String)
    ensures
        r@ == "full"@,
{
    String::from_str("full")
}

/// Settings of the connection to the relational store.
#[derive(Debug, Clone, PartialEq, Eq)]
pub struct DbConfig {
    pub url: String,
    pub pool_size: u32,
    pub min_idle: Option<u32>,
    /// Milliseconds to wait for an unacknowledged packet.
    pub tcp_timeout: u64,
    /// Milliseconds to wait for a connection from the pool.
    pub connection_timeout: u64,
    /// Milliseconds to wait for the answer to a statement.
    pub statement_timeout: u64,
    pub helper_threads: usize,
    pub enforce_tls: bool,
}

/// Where the server listens.
#[derive(Debug, Clone, PartialEq, Eq)]
pub struct ListenConfig {
    pub addr: String,
}

/// Settings of the token service.
#[derive(Debug, Clone, PartialEq, Eq)]
pub struct JwtConfig {
    /// The symmetric signing secret.
    pub secret: String,
    /// Lifetime of an issued token, in seconds.
    pub expires_in: u64,
}

/// Lifetimes, in seconds.
#[derive(Debug, Clone, PartialEq, Eq)]
pub struct TtlConfig {
    pub session: u64,
    pub cache: u64,
}

/// How often the log file is replaced by a new one.
#[derive(Debug, Clone, Copy, PartialEq, Eq, Structural)]
pub enum Rotation {
    Minutely,
    Hourly,
    Daily,
    Never,
}

/// How a log line is laid out.
#[derive(Debug, Clone, Copy, PartialEq, Eq, Structural)]
pub enum LogFormat {
    Pretty,
    Compact,
    Json,
    Full,
}

/// Where log lines go.
#[derive(Debug, Clone, Copy, PartialEq, Eq, Structural)]
pub enum LogTarget {
    Stdout,
    File,
}

/// Settings of the log.
#[derive(Debug, Clone, PartialEq, Eq)]
pub struct LogConfig {
    /// The filter, such as `info` or `mycrate=trace`.
    pub filter_level: String,
    pub with_ansi: bool,
    pub stdout: bool,
    pub directory: String,
    pub file_name: String,
    /// One of `minutely`, `hourly`, `daily`, `never`.
    pub rolling: String,
    /// One of `pretty`, `compact`, `json`, `full`.
    pub format: String,
    pub with_level: bool,
    pub with_target: bool,
    pub with_thread_ids: bool,
    pub with_thread_names: bool,
    pub with_source_location: bool,
}

/// The mathematical content of [`LogConfig`].
pub ghost struct LogConfigView {
    pub filter_level: Seq<char>,
    pub with_ansi: bool,
    pub stdout: bool,
    pub directory: Seq<char>,
    pub file_name: Seq<char>,
    pub rolling: Seq<char>,
    pub format: Seq<char>,
    pub with_level: bool,
    pub with_target: bool,
    pub with_thread_ids: bool,
    pub with_thread_names: bool,
    pub with_source_location: bool,
}

impl View for LogConfig {
    type V = LogConfigView;

    open spec fn view(&self) -> LogConfigView {
        LogConfigView {
            filter_level: self.filter_level@,
            with_ansi: self.with_ansi,
            stdout: self.stdout,
            directory: self.directory@,
            file_name: self.file_name@,
            rolling: self.rolling@,
            format: self.format@,
            with_level: self.with_level,
            with_target: self.with_target,
            with_thread_ids: self.with_thread_ids,
            with_thread_names: self.with_thread_names,
            with_source_location: self.with_source_location,
        }
    }
}

/// Whether the text names a rotation.
pub open spec fn names_rotation(text: Seq<char>) -> bool {
    text == "minutely"@ || text == "hourly"@ || text == "daily"@ || text == "never"@
}

/// Whether the text names a layout.
pub open spec fn names_format(text: Seq<char>) -> bool {
    text == "pretty"@ || text == "compact"@ || text == "json"@ || text == "full"@
}

/// The rotation that the text asks for; a text that names none asks for
/// no rotation.
pub open spec fn rotation_of(text: Seq<char>) -> Rotation {
    if text == "minutely"@ {
        Rotation::Minutely
    } else if text == "hourly"@ {
        Rotation::Hourly
    } else if text == "daily"@ {
        Rotation::Daily
    } else {
        Rotation::Never
    }
}

/// The layout that the text asks for, if it names one.
pub open spec fn format_of(text: Seq<char>) -> Option<LogFormat> {
    if text == "pretty"@ {
        Some(LogFormat::Pretty)
    } else if text == "compact"@ {
        Some(LogFormat::Compact)
    } else if text == "json"@ {
        Some(LogFormat::Json)
    } else if text == "full"@ {
        Some(LogFormat::Full)
    } else {
        None
    }
}

/// Whether the string holds exactly the text.
fn holds(s: &String, text: &str) -> (r: bool)
    ensures
        r == (s@ == text@),
{
    *s == String::from_str(text)
}

impl Default for LogConfig {
    /// The settings of a log that writes full lines to a daily file.
    fn default() -> (r: LogConfig)
        ensures
            r@ == (LogConfigView {
                filter_level: "info"@,
                with_ansi: true,
                stdout: false,
                directory: "./logs"@,
                file_name: "app.log"@,
                rolling: "daily"@,
                format: "full"@,
                with_level: true,
                with_target: true,
                with_thread_ids: true,
                with_thread_names: true,
                with_source_location: true,
            }),
    {
        LogConfig {
            filter_level: default_filter_level(),
            with_ansi: true,
            stdout: false,
            directory: default_directory(),
            file_name: default_file_name(),
            rolling: default_rolling(),
            format: default_format(),
            with_level: true,
            with_target: true,
            with_thread_ids: true,
            with_thread_names: true,
            with_source_location: true,
        }
    }
}

impl LogConfig {
    /// Sets the filter.
    pub fn filter_level(self, filter_level: &str) -> (r: LogConfig)
        ensures
            r@ == (LogConfigView { filter_level: filter_level@, ..self@ }),
    {
        LogConfig { filter_level: String::from_str(filter_level), ..self }
    }

    /// Sets whether colour codes are written.
    pub fn with_ansi(self, with_ansi: bool) -> (r: LogConfig)
        ensures
            r@ == (LogConfigView { with_ansi, ..self@ }),
    {
        LogConfig { with_ansi, ..self }
    }

    /// Sets whether lines go to the standard output and not to the file.
    pub fn stdout(self, stdout: bool) -> (r: LogConfig)
        ensures
            r@ == (LogConfigView { stdout, ..self@ }),
    {
        LogConfig { stdout, ..self }
    }

    /// Sets the directory of the log files.
    pub fn directory(self, directory: &str) -> (r: LogConfig)
        ensures
            r@ == (LogConfigView { directory: directory@, ..self@ }),
    {
        LogConfig { directory: String::from_str(directory), ..self }
    }

    /// Sets the name of the log file.
    pub fn file_name(self, file_name: &str) -> (r: LogConfig)
        ensures
            r@ == (LogConfigView { file_name: file_name@, ..self@ }),
    {
        LogConfig { file_name: String::from_str(file_name), ..self }
    }

    /// Sets the rotation, by one of its four names.
    pub fn rolling(self, rolling: &str) -> (r: LogConfig)
        requires
            names_rotation(rolling@),
        ensures
            r@ == (LogConfigView { rolling: rolling@, ..self@ }),
    {
        LogConfig { rolling: String::from_str(rolling), ..self }
    }

    /// Sets the rotation if the text names one, and tells whether it did;
    /// the settings are unchanged otherwise.
    pub fn try_rolling(self, rolling: &str) -> (r: (LogConfig, bool))
        ensures
            r.1 == names_rotation(rolling@),
            r.0@ == if r.1 {
                LogConfigView { rolling: rolling@, ..self@ }
            } else {
                self@
            },
    {
        let text = String::from_str(rolling);
        if holds(&text, "minutely") || holds(&text, "hourly") || holds(&text, "daily") || holds(
            &text,
            "never",
        ) {
            (self.rolling(rolling), true)
        } else {
            (self, false)
        }
    }

    /// Sets the layout, by one of its four names.
    pub fn format(self, format: &str) -> (r: LogConfig)
        requires
            names_format(format@),
        ensures
            r@ == (LogConfigView { format: format@, ..self@ }),
    {
        LogConfig { format: String::from_str(format), ..self }
    }

    /// Sets the layout if the text names one, and tells whether it did; the
    /// settings are unchanged otherwise.
    pub fn try_format(self, format: &str) -> (r: (LogConfig, bool))
        ensures
            r.1 == names_format(format@),
            r.0@ == if r.1 {
                LogConfigView { format: format@, ..self@ }
            } else {
                self@
            },
    {
        let text = String::from_str(format);
        if holds(&text, "pretty") || holds(&text, "compact") || holds(&text, "json") || holds(
            &text,
            "full",
        ) {
            (self.format(format), true)
        } else {
            (self, false)
        }
    }

    /// Sets whether a line shows its level.
    pub fn with_level(self, with_level: bool) -> (r: LogConfig)
        ensures
            r@ == (LogConfigView { with_level, ..self@ }),
    {
        LogConfig { with_level, ..self }
    }

    /// Sets whether a line shows its target.
    pub fn with_target(self, with_target: bool) -> (r: LogConfig)
        ensures
            r@ == (LogConfigView { with_target, ..self@ }),
    {
        LogConfig { with_target, ..self }
    }

    /// Sets whether a line shows the id of its thread.
    pub fn with_thread_ids(self, with_thread_ids: bool) -> (r: LogConfig)
        ensures
            r@ == (LogConfigView { with_thread_ids, ..self@ }),
    {
        LogConfig { with_thread_ids, ..self }
    }

    /// Sets whether a line shows the name of its thread.
    pub fn with_thread_names(self, with_thread_names: bool) -> (r: LogConfig)
        ensures
            r@ == (LogConfigView { with_thread_names, ..self@ }),
    {
        LogConfig { with_thread_names, ..self }
    }

    /// Sets whether a line shows where in the source it was written.
    pub fn with_source_location(self, with_source_location: bool) -> (r: LogConfig)
        ensures
            r@ == (LogConfigView { with_source_location, ..self@ }),
    {
        LogConfig { with_source_location, ..self }
    }

    /// The rotation that the settings ask for.
    pub fn rotation(&self) -> (r: Rotation)
        ensures
            r == rotation_of(self.rolling@),
    {
        if holds(&self.rolling, "minutely") {
            Rotation::Minutely
        } else if holds(&self.rolling, "hourly") {
            Rotation::Hourly
        } else if holds(&self.rolling, "daily") {
            Rotation::Daily
        } else {
            Rotation::Never
        }
    }

    /// The layout that the settings ask for. With `None` no log is set up.
    pub fn layout(&self) -> (r: Option<LogFormat>)
        ensures
            r == format_of(self.format@),
    {
        if holds(&self.format, "pretty") {
            Some(LogFormat::Pretty)
        } else if holds(&self.format, "compact") {
            Some(LogFormat::Compact)
        } else if holds(&self.format, "json") {
            Some(LogFormat::Json)
        } else if holds(&self.format, "full") {
            Some(LogFormat::Full)
        } else {
            None
        }
    }

    /// Where the lines go.
    pub fn target(&self) -> (r: LogTarget)
        ensures
            r == if self.stdout {
                LogTarget::Stdout
            } else {
                LogTarget::File
            },
    {
        if self.stdout {
            LogTarget::Stdout
        } else {
            LogTarget::File
        }
    }
}

/// Everything the server is configured with.
#[derive(Debug, Clone, PartialEq, Eq)]
pub struct ServerConfig {
    pub server: ListenConfig,
    pub database: DbConfig,
    pub log: LogConfig,
    pub jwt: JwtConfig,
    pub ttl: TtlConfig,
}

/// Why a configuration cannot be started with.
#[derive(Debug, Clone, Copy, PartialEq, Eq, Structural)]
pub enum ConfigError {
    /// No address of the relational store, in the file or the environment.
    MissingDatabaseUrl,
    /// The signing secret is empty.
    EmptySecret,
    /// The lifetime of a token is zero.
    ZeroTtl,
}

/// The address of the store to use: the configured one, or where that is
/// empty the one from the environment, if any.
pub open spec fn chosen_url(configured: Seq<char>, fallback: Option<Seq<char>>) -> Seq<char> {
    if configured.len() > 0 {
        configured
    } else {
        match fallback {
            Some(url) => url,
            None => Seq::empty(),
        }
    }
}

/// The first fault of a configuration whose store address is `url`.
pub open spec fn start_fault(url: Seq<char>, secret: Seq<char>, ttl: u64) -> Option<ConfigError> {
    if url.len() == 0 {
        Some(ConfigError::MissingDatabaseUrl)
    } else if secret.len() == 0 {
        Some(ConfigError::EmptySecret)
    } else if ttl == 0 {
        Some(ConfigError::ZeroTtl)
    } else {
        None
    }
}

impl ServerConfig {
    /// Completes the configuration read from the file: an empty store
    /// address is taken from `fallback`. The result is fit to start with, or
    /// the first fault is the error; nothing else changes.
    pub fn finalize(self, fallback: Option<String>) -> (r: Result<ServerConfig, ConfigError>)
        ensures
            match r {
                Ok(c) => {
                    &&& start_fault(c.database.url@, c.jwt.secret@, c.jwt.expires_in) is None
                    &&& c.database.url@ == chosen_url(self.database.url@, fallback.deep_view())
                    &&& c.database == (DbConfig { url: c.database.url, ..self.database })
                    &&& c.jwt == self.jwt
                    &&& c.log == self.log
                    &&& c.server == self.server
                    &&& c.ttl == self.ttl
                },
                Err(e) => start_fault(
                    chosen_url(self.database.url@, fallback.deep_view()),
                    self.jwt.secret@,
                    self.jwt.expires_in,
                ) == Some(e),
            },
    {
        let ServerConfig { server, database, log, jwt, ttl } = self;
        let DbConfig {
            url,
            pool_size,
            min_idle,
            tcp_timeout,
            connection_timeout,
            statement_timeout,
            helper_threads,
            enforce_tls,
        } = database;
        let url = if url.as_str().is_empty() {
            match fallback {
                Some(u) => u,
                None => String::new(),
            }
        } else {
            url
        };
        if url.as_str().is_empty() {
            Err(ConfigError::MissingDatabaseUrl)
        } else if jwt.secret.as_str().is_empty() {
            Err(ConfigError::EmptySecret)
        } else if jwt.expires_in == 0 {
            Err(ConfigError::ZeroTtl)
        } else {
            let database = DbConfig {
                url,
                pool_size,
                min_idle,
                tcp_timeout,
                connection_timeout,
                statement_timeout,
                helper_threads,
                enforce_tls,
            };
            Ok(ServerConfig { server, database, log, jwt, ttl })
        }
    }
}

} // verus!
