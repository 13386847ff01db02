//! Configuration: the database connection and the library settings, their
//! defaults, and where the configuration file is looked for.

use vstd::prelude::*;

use crate::normalize::opt_view;
use crate::text::{decimal, usize_to_text};

verus! {

// ------------------------------------------------------------------
// DatabaseConfig
// ------------------------------------------------------------------

/// How to reach the PostgreSQL database.
#[derive(Clone, Debug)]
pub struct DatabaseConfig {
    pub host: String,
    pub port: u16,
    pub user: String,
    pub passwd: String,
    pub name: String,
    pub admin: String,
    pub admin_passwd: String,
}

/// The default database host.
pub fn default_host() -> (r: String)
    ensures
        r@ == "localhost"@,
{
    String::from_str("localhost")
}

/// The default database port.
pub fn default_port() -> (r: u16)
    ensures
        r == 5432,
{
    5432
}

/// The default database user.
pub fn default_user() -> (r: String)
    ensures
        r@ == "books"@,
{
    String::from_str("books")
}

/// The default password of the database user.
pub fn default_passwd() -> (r: String)
    ensures
        r@ == "books"@,
{
    String::from_str("books")
}

/// The default database name.
pub fn default_name() -> (r: String)
    ensures
        r@ == "books"@,
{
    String::from_str("books")
}

/// The default database administrator.
pub fn default_admin() -> (r: String)
    ensures
        r@ == "admin"@,
{
    String::from_str("admin")
}

/// The default password of the database administrator.
pub fn default_admin_passwd() -> (r: String)
    ensures
        r@ == "admin"@,
{
    String::from_str("admin")
}

impl Default for DatabaseConfig {
    fn default() -> (r: Self)
        ensures
            r.host@ == "localhost"@,
            r.port == 5432,
            r.user@ == "books"@,
            r.passwd@ == "books"@,
            r.name@ == "books"@,
            r.admin@ == "admin"@,
            r.admin_passwd@ == "admin"@,
    {
        DatabaseConfig {
            host: default_host(),
            port: default_port(),
            user: default_user(),
            passwd: default_passwd(),
            name: default_name(),
            admin: default_admin(),
            admin_passwd: default_admin_passwd(),
        }
    }
}

// ------------------------------------------------------------------
// BookwealdConfig
// ------------------------------------------------------------------

/// The library settings.
#[derive(Clone, Debug)]
pub struct BookwealdConfig {
    pub library_dir: String,
    pub target_dir: String,
    pub dry_run: bool,
    pub max_component_len: usize,
    pub jobs: usize,
    pub log_file: Option<String>,
    pub blacklist: Option<String>,
    pub alias_file: Option<String>,
    pub drop_existing_log_file_on_start: bool,
    pub log_level: Option<String>,
    pub database: DatabaseConfig,
}

/// By default nothing is dry-run.
pub fn default_dry_run() -> (r: bool)
    ensures
        r == false,
{
    false
}

/// By default path components are not shortened.
pub fn default_max_component_len() -> (r: usize)
    ensures
        r == 0,
{
    0
}

/// By default an existing log file is kept.
pub fn default_drop_existing_log_file_on_start() -> (r: bool)
    ensures
        r == false,
{
    false
}

/// Calls `dirs::home_dir`; what it reports depends on the environment.
#[verifier::external_body]
fn home_dir() -> Option<String> {
    match dirs::home_dir() {
        Some(h) => Some(h.to_string_lossy().into_owned()),
        None => None,
    }
}

/// The path that `Path::join` makes of `base` and `rel`.
pub uninterp spec fn joined_path(base: Seq<char>, rel: Seq<char>) -> Seq<char>;

/// Calls `Path::join`; the result is a function of the two paths.
#[verifier::external_body]
fn path_join(base: &str, rel: &str) -> (r: String)
    ensures
        r@ == joined_path(base@, rel@),
{
    std::path::Path::new(base).join(rel).to_string_lossy().into_owned()
}

/// The default number of jobs: as many as the machine runs in parallel
/// (`parallelism`, which `std::thread::available_parallelism` reports), 4
/// when it does not say.
pub fn jobs_for(parallelism: Option<usize>) -> (r: usize)
    ensures
        r == match parallelism {
            Some(n) => n,
            None => 4,
        },
{
    match parallelism {
        Some(n) => n,
        None => 4,
    }
}

/// The directory `rel` under `home`, or under `~/` when there is no home.
pub open spec fn spec_dir_under(home: Option<Seq<char>>, rel: Seq<char>) -> Seq<char> {
    match home {
        Some(h) => joined_path(h, rel),
        None => "~/"@ + rel,
    }
}

/// The directory `rel` under the home directory `home` (see [`spec_dir_under`]).
pub fn dir_under(home: &Option<String>, rel: &str) -> (r: String)
    ensures
        r@ == spec_dir_under(opt_view(*home), rel@),
{
    match home {
        Some(h) => path_join(h.as_str(), rel),
        None => {
            let mut r = String::from_str("~/");
            r.append(rel);
            r
        },
    }
}

impl BookwealdConfig {
    /// The default settings (what `Default` gives) for the home directory
    /// `home` and the reported `parallelism`: books come from `books/incoming` and go to
    /// `books/organized` under the home directory.
    pub fn default_with(home: Option<String>, parallelism: Option<usize>) -> (r: Self)
        ensures
            r.library_dir@ == spec_dir_under(opt_view(home), "books/incoming"@),
            r.target_dir@ == spec_dir_under(opt_view(home), "books/organized"@),
            r.dry_run == false,
            r.max_component_len == 0,
            r.jobs == match parallelism {
                Some(n) => n,
                None => 4,
            },
            r.log_file is None,
            r.blacklist is None,
            r.alias_file is None,
            r.drop_existing_log_file_on_start == false,
            r.log_level is None,
            r.database.host@ == "localhost"@,
            r.database.port == 5432,
            r.database.user@ == "books"@,
            r.database.passwd@ == "books"@,
            r.database.name@ == "books"@,
            r.database.admin@ == "admin"@,
            r.database.admin_passwd@ == "admin"@,
    {
        BookwealdConfig {
            library_dir: dir_under(&home, "books/incoming"),
            target_dir: dir_under(&home, "books/organized"),
            dry_run: default_dry_run(),
            max_component_len: default_max_component_len(),
            jobs: jobs_for(parallelism),
            log_file: None,
            blacklist: None,
            alias_file: None,
            drop_existing_log_file_on_start: default_drop_existing_log_file_on_start(),
            log_level: None,
            database: DatabaseConfig::default(),
        }
    }
}

/// The default library directory: `books/incoming` under the home directory
/// that the environment reports (or under `~/` when it reports none).
pub fn default_library_dir() -> (r: String)
    ensures
        exists|home: Option<Seq<char>>| r@ == spec_dir_under(home, "books/incoming"@),
{
    dir_under(&home_dir(), "books/incoming")
}

/// The default target directory: `books/organized` under the home
/// directory that the environment reports (or under `~/` when it reports none).
pub fn default_target_dir() -> (r: String)
    ensures
        exists|home: Option<Seq<char>>| r@ == spec_dir_under(home, "books/organized"@),
{
    dir_under(&home_dir(), "books/organized")
}

// ------------------------------------------------------------------
// Loading
// ------------------------------------------------------------------

/// Why no configuration could be loaded.
#[derive(Debug)]
pub enum ConfigError {
    /// No location was given and no `config.json` was found.
    NotFound,
    /// The configuration file could not be read.
    Read { path: String, reason: String },
    /// The configuration file is not a valid configuration.
    Invalid { path: String, line: usize, column: usize, reason: String },
}

/// What reading and parsing the configuration file gave.
pub enum LoadOutcome {
    /// The file could not be read.
    ReadFailed { reason: String },
    /// The text is not a valid configuration; `position` is the line and
    /// column of the error, when the parser reports one.
    Invalid { position: Option<(usize, usize)>, reason: String },
    /// The configuration.
    Parsed(BookwealdConfig),
}

/// Calls `dirs::config_dir`; what it reports depends on the environment.
#[verifier::external_body]
fn config_dir() -> Option<String> {
    match dirs::config_dir() {
        Some(d) => Some(d.to_string_lossy().into_owned()),
        None => None,
    }
}

/// The user's configuration file, when the environment has a configuration
/// directory (see [`user_config_path`]).
pub fn user_config_location() -> (r: Option<String>)
    ensures
        r matches Some(p) ==> exists|dir: Seq<char>| p@ == joined_path(dir, "bookweald/config.json"@),
{
    match config_dir() {
        Some(d) => Some(user_config_path(d.as_str())),
        None => None,
    }
}

/// The path of the user's configuration file in the configuration directory `dir`.
pub fn user_config_path(dir: &str) -> (r: String)
    ensures
        r@ == joined_path(dir@, "bookweald/config.json"@),
{
    path_join(dir, "bookweald/config.json")
}

/// The configuration file to load: the given `location`, else
/// `config.json` in the working directory when it exists, else the user's
/// configuration file (see [`user_config_path`]) when there is one and it
/// exists.
pub open spec fn spec_eff_location(
    location: Option<Seq<char>>,
    local_exists: bool,
    user_config: Option<Seq<char>>,
    user_config_exists: bool,
) -> Option<Seq<char>> {
    match location {
        Some(l) => Some(l),
        None => if local_exists {
            Some("config.json"@)
        } else {
            match user_config {
                Some(p) => if user_config_exists {
                    Some(p)
                } else {
                    None
                },
                None => None,
            }
        },
    }
}

impl BookwealdConfig {
    /// Chooses the configuration file (see [`spec_eff_location`]);
    /// `local_exists` and `user_config_exists` tell whether `config.json` and
    /// `user_config` exist.
    pub fn eff_location(
        location: Option<String>,
        local_exists: bool,
        user_config: Option<String>,
        user_config_exists: bool,
    ) -> (r: Result<String, ConfigError>)
        ensures
            match r {
                Ok(p) => spec_eff_location(opt_view(location), local_exists, opt_view(user_config), user_config_exists) == Some(p@),
                Err(e) => e is NotFound && spec_eff_location(opt_view(location), local_exists, opt_view(user_config), user_config_exists) is None,
            },
    {
        match location {
            Some(l) => Ok(l),
            None => {
                if local_exists {
                    return Ok(String::from_str("config.json"));
                }
                match user_config {
                    Some(p) => if user_config_exists {
                        Ok(p)
                    } else {
                        Err(ConfigError::NotFound)
                    },
                    None => Err(ConfigError::NotFound),
                }
            },
        }
    }

    /// Completes loading the configuration file at `path` from what reading
    /// and parsing it gave: a read failure and a parse failure become errors
    /// (an error without a position is placed at line 0, column 0).
    pub fn load(path: &str, outcome: LoadOutcome) -> (r: Result<Self, ConfigError>)
        ensures
            match outcome {
                LoadOutcome::ReadFailed { reason } => r matches Err(ConfigError::Read { path: p, reason: why })
                    && p@ == path@ && why@ == reason@,
                LoadOutcome::Invalid { position, reason } => r matches Err(
                    ConfigError::Invalid { path: p, line, column, reason: why },
                ) && p@ == path@ && why@ == reason@ && (line, column) == match position {
                    Some(pos) => pos,
                    None => (0usize, 0usize),
                },
                LoadOutcome::Parsed(c) => r == Ok::<BookwealdConfig, ConfigError>(c),
            },
    {
        match outcome {
            LoadOutcome::ReadFailed { reason } => Err(ConfigError::Read { path: String::from_str(path), reason }),
            LoadOutcome::Invalid { position, reason } => {
                let (line, column) = match position {
                    Some(pos) => pos,
                    None => (0, 0),
                };
                Err(ConfigError::Invalid { path: String::from_str(path), line, column, reason })
            },
            LoadOutcome::Parsed(c) => Ok(c),
        }
    }
}

/// The message of a configuration error.
pub open spec fn spec_config_message(e: ConfigError) -> Seq<char> {
    match e {
        ConfigError::NotFound => "No config.json found.\nRun `bookweald init` (or `bookweald init --force`)"@,
        ConfigError::Read { path, reason } => "Failed to read "@ + path@ + ": "@ + reason@,
        ConfigError::Invalid { path, line, column, reason } => "❌ Invalid configuration in "@ + path@
            + "\n→ Line "@ + decimal(line as nat) + ", Column "@ + decimal(column as nat) + "\nError: "@
            + reason@ + "\n\nRun `bookweald init --force` to regenerate a clean default."@,
    }
}

impl ConfigError {
    /// The message of this error (see [`spec_config_message`]).
    pub fn message(&self) -> (r: String)
        ensures
            r@ == spec_config_message(*self),
    {
        match self {
            ConfigError::NotFound => String::from_str(
                "No config.json found.\nRun `bookweald init` (or `bookweald init --force`)",
            ),
            ConfigError::Read { path, reason } => {
                let mut m = String::from_str("Failed to read ");
                m.append(path.as_str());
                m.append(": ");
                m.append(reason.as_str());
                m
            },
            ConfigError::Invalid { path, line, column, reason } => {
                let mut m = String::from_str("❌ Invalid configuration in ");
                m.append(path.as_str());
                m.append("\n→ Line ");
                let l = usize_to_text(*line);
                m.append(l.as_str());
                m.append(", Column ");
                let c = usize_to_text(*column);
                m.append(c.as_str());
                m.append("\nError: ");
                m.append(reason.as_str());
                m.append("\n\nRun `bookweald init --force` to regenerate a clean default.");
                m
            },
        }
    }
}

/// Whether the default configuration is written to its location: when no
/// file is there yet, or when an existing one may be overwritten.
pub fn writes_default_config(present: bool, overwrite: bool) -> (r: bool)
    ensures
        r == (!present || overwrite),
{
    !present || overwrite
}

} // verus!
