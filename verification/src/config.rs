//! Server configuration, as read from the environment.
//!
//! Reading the environment is the caller's part; this module holds the
//! configuration and turns the text of variables into values.
use vstd::prelude::*;
use crate::text::{parse_bool, parse_bool_spec, parse_integer, parse_integer_spec, str_equal};

verus! {

#[derive(Clone)]
pub struct Config {
    pub port: u16,
    pub api_url: String,
    pub client_url: String,
    pub storage_url: String,
    pub database_url: String,
    pub worker_id: u16,
    pub jwt_key: String,
    pub file_size_limit: usize,
    pub storage_provider: StorageConfig,
    pub smtp_config: Option<SMTPConfig>,
    pub invite_only: bool,
    pub run_migrations: bool,
}

#[derive(Clone)]
pub struct S3Config {
    pub bucket: String,
    pub access_key: String,
    pub secret_key: String,
    /// Name of the custom region.
    pub region_name: String,
    /// Endpoint of the custom region.
    pub region_endpoint: String,
}

#[derive(Clone)]
pub struct LocalConfig {
    pub path: String,
    /// Should local provider directory be served by the application.
    /// This can be disabled if someone wants to serve using some other webserver.
    pub serve: bool,
}

#[derive(Clone)]
pub struct SMTPConfig {
    pub username: String,
    pub password: String,
    pub server: String,
}

#[derive(Clone)]
pub enum StorageConfig {
    Local(LocalConfig),
    S3(S3Config),
}

/// Which storage provider a configuration names.
#[derive(Debug, Clone, Copy, PartialEq, Eq, Structural)]
pub enum StorageKind {
    Local,
    S3,
}

pub open spec fn storage_kind_spec(s: Seq<char>) -> Option<StorageKind> {
    if s == "local"@ {
        Some(StorageKind::Local)
    } else if s == "s3"@ {
        Some(StorageKind::S3)
    } else {
        None
    }
}

/// The storage provider that `STORAGE_PROVIDER` names (`local` or `s3`).
pub fn storage_kind(s: &str) -> (r: Option<StorageKind>)
    ensures
        r == storage_kind_spec(s@),
{
    if str_equal(s, "local") {
        Some(StorageKind::Local)
    } else if str_equal(s, "s3") {
        Some(StorageKind::S3)
    } else {
        None
    }
}

/// A `u16` as `str::parse` reads it.
pub fn parse_u16(s: &str) -> (r: Option<u16>)
    ensures
        match parse_integer_spec(s@, 0, 0xffff) {
            Some(v) => r == Some(v as u16),
            None => r is None,
        },
{
    match parse_integer(s, 0, 0xffff) {
        Some(v) => Some(v as u16),
        None => None,
    }
}

/// A `usize` as `str::parse` reads it.
pub fn parse_usize(s: &str) -> (r: Option<usize>)
    ensures
        match parse_integer_spec(s@, 0, usize::MAX as int) {
            Some(v) => r == Some(v as usize),
            None => r is None,
        },
{
    match parse_integer(s, 0, usize::MAX as i128) {
        Some(v) => Some(v as usize),
        None => None,
    }
}

/// A `bool` as `str::parse` reads it.
pub fn parse_bool_var(s: &str) -> (r: Option<bool>)
    ensures
        r == parse_bool_spec(s@),
{
    parse_bool(s)
}

/// The directory the server itself serves files from: the local storage
/// path when local storage is configured to be served.
pub fn served_storage_path(storage: &StorageConfig) -> (r: Option<String>)
    ensures
        match storage {
            StorageConfig::Local(l) => if l.serve {
                r matches Some(p) && p@ == l.path@
            } else {
                r is None
            },
            StorageConfig::S3(_) => r is None,
        },
{
    match storage {
        StorageConfig::Local(v) => {
            if v.serve {
                Some(v.path.clone())
            } else {
                None
            }
        },
        StorageConfig::S3(_) => None,
    }
}

} // verus!

verus! {

/// Why a configuration cannot be read from the environment.
#[derive(Debug)]
pub enum ConfigError {
    /// A required variable is not set.
    Missing(String),
    /// A variable does not read as a value of its type (variable, type).
    Invalid(String, String),
    /// `STORAGE_PROVIDER` names no known provider.
    InvalidStorageProvider,
}

/// The mathematical value of a [`ConfigError`].
pub enum ConfigErrorView {
    Missing(Seq<char>),
    Invalid(Seq<char>, Seq<char>),
    InvalidStorageProvider,
}

pub open spec fn config_error_view(e: ConfigError) -> ConfigErrorView {
    match e {
        ConfigError::Missing(n) => ConfigErrorView::Missing(n@),
        ConfigError::Invalid(n, t) => ConfigErrorView::Invalid(n@, t@),
        ConfigError::InvalidStorageProvider => ConfigErrorView::InvalidStorageProvider,
    }
}

impl ConfigError {
    /// The message the server stops with.
    pub fn message(&self) -> (r: String)
        ensures
            match config_error_view(*self) {
                ConfigErrorView::Missing(n) => r@ == "Missing environment variable "@ + n,
                ConfigErrorView::Invalid(n, t) => r@ == "Unable to parse "@ + n + " as "@ + t,
                ConfigErrorView::InvalidStorageProvider => r@
                    == "Invalid storage provider for environment variable STORAGE_PROVIDER"@,
            },
    {
        match self {
            ConfigError::Missing(n) => {
                let mut m = "Missing environment variable ".to_owned();
                m.append(n.as_str());
                m
            },
            ConfigError::Invalid(n, t) => {
                let mut m = "Unable to parse ".to_owned();
                m.append(n.as_str());
                m.append(" as ");
                m.append(t.as_str());
                m
            },
            ConfigError::InvalidStorageProvider => {
                "Invalid storage provider for environment variable STORAGE_PROVIDER".to_owned()
            },
        }
    }
}

/// The value of the first variable named `name`, if any.
pub open spec fn var_of(vars: Seq<(String, String)>, name: Seq<char>) -> Option<Seq<char>>
    decreases vars.len(),
{
    if vars.len() == 0 {
        None
    } else if vars[0].0@ == name {
        Some(vars[0].1@)
    } else {
        var_of(vars.skip(1), name)
    }
}

/// A required text variable.
pub open spec fn need_text(vars: Seq<(String, String)>, name: Seq<char>) -> Result<Seq<char>, ConfigErrorView> {
    match var_of(vars, name) {
        Some(v) => Ok(v),
        None => Err(ConfigErrorView::Missing(name)),
    }
}

/// A required `u16` variable.
pub open spec fn need_u16(vars: Seq<(String, String)>, name: Seq<char>) -> Result<u16, ConfigErrorView> {
    match var_of(vars, name) {
        None => Err(ConfigErrorView::Missing(name)),
        Some(v) => match parse_integer_spec(v, 0, 0xffff) {
            Some(n) => Ok(n as u16),
            None => Err(ConfigErrorView::Invalid(name, "u16"@)),
        },
    }
}

/// An optional `usize` variable.
pub open spec fn usize_or(vars: Seq<(String, String)>, name: Seq<char>, default: usize) -> Result<usize, ConfigErrorView> {
    match var_of(vars, name) {
        None => Ok(default),
        Some(v) => match parse_integer_spec(v, 0, usize::MAX as int) {
            Some(n) => Ok(n as usize),
            None => Err(ConfigErrorView::Invalid(name, "usize"@)),
        },
    }
}

/// An optional `bool` variable.
pub open spec fn bool_or(vars: Seq<(String, String)>, name: Seq<char>, default: bool) -> Result<bool, ConfigErrorView> {
    match var_of(vars, name) {
        None => Ok(default),
        Some(v) => match parse_bool_spec(v) {
            Some(b) => Ok(b),
            None => Err(ConfigErrorView::Invalid(name, "bool"@)),
        },
    }
}

/// An optional text variable.
pub open spec fn text_or(vars: Seq<(String, String)>, name: Seq<char>, default: Seq<char>) -> Seq<char> {
    match var_of(vars, name) {
        None => default,
        Some(v) => v,
    }
}

pub open spec fn err_of<T>(r: Result<T, ConfigErrorView>) -> Option<ConfigErrorView> {
    match r {
        Ok(_) => None,
        Err(e) => Some(e),
    }
}

/// The first of a list of possible failures.
pub open spec fn first_failure(checks: Seq<Option<ConfigErrorView>>) -> Option<ConfigErrorView>
    decreases checks.len(),
{
    if checks.len() == 0 {
        None
    } else if checks[0] is Some {
        checks[0]
    } else {
        first_failure(checks.skip(1))
    }
}

/// The failures of the storage variables, in the order they are read.
pub open spec fn storage_failure(vars: Seq<(String, String)>) -> Option<ConfigErrorView> {
    match need_text(vars, "STORAGE_PROVIDER"@) {
        Err(e) => Some(e),
        Ok(p) => match storage_kind_spec(p) {
            None => Some(ConfigErrorView::InvalidStorageProvider),
            Some(StorageKind::Local) => err_of(bool_or(vars, "LOCAL_SERVE"@, true)),
            Some(StorageKind::S3) => first_failure(
                seq![
                    err_of(need_text(vars, "S3_BUCKET"@)),
                    err_of(need_text(vars, "S3_ACCESS_KEY"@)),
                    err_of(need_text(vars, "S3_SECRET_KEY"@)),
                    err_of(need_text(vars, "S3_REGION"@)),
                    err_of(need_text(vars, "S3_ENDPOINT"@)),
                ],
            ),
        },
    }
}

/// The failures of the mail variables, in the order they are read.
pub open spec fn smtp_failure(vars: Seq<(String, String)>) -> Option<ConfigErrorView> {
    match bool_or(vars, "SMTP_ENABLED"@, false) {
        Err(e) => Some(e),
        Ok(false) => None,
        Ok(true) => first_failure(
            seq![
                err_of(need_text(vars, "SMTP_USERNAME"@)),
                err_of(need_text(vars, "SMTP_PASSWORD"@)),
                err_of(need_text(vars, "SMTP_SERVER"@)),
            ],
        ),
    }
}

/// The first variable that keeps the configuration from being read, in the
/// order the server reads them.
pub open spec fn config_failure(vars: Seq<(String, String)>) -> Option<ConfigErrorView> {
    first_failure(
        seq![
            err_of(need_u16(vars, "PORT"@)),
            err_of(need_text(vars, "STORAGE_URL"@)),
            err_of(need_text(vars, "DATABASE_URL"@)),
            err_of(need_text(vars, "JWT_KEY"@)),
            err_of(need_text(vars, "API_URL"@)),
            err_of(need_text(vars, "CLIENT_URL"@)),
            err_of(usize_or(vars, "FILE_SIZE_LIMIT"@, 100)),
            err_of(need_u16(vars, "WORKER_ID"@)),
            err_of(bool_or(vars, "INVITE_ONLY"@, false)),
            err_of(bool_or(vars, "RUN_MIGRATIONS"@, true)),
            storage_failure(vars),
            smtp_failure(vars),
        ],
    )
}

/// The configuration that the variables give, when they give one.
pub open spec fn config_from(c: Config, vars: Seq<(String, String)>) -> bool {
    &&& need_u16(vars, "PORT"@) == Ok::<u16, ConfigErrorView>(c.port)
    &&& need_text(vars, "STORAGE_URL"@) == Ok::<Seq<char>, ConfigErrorView>(c.storage_url@)
    &&& need_text(vars, "DATABASE_URL"@) == Ok::<Seq<char>, ConfigErrorView>(c.database_url@)
    &&& need_text(vars, "JWT_KEY"@) == Ok::<Seq<char>, ConfigErrorView>(c.jwt_key@)
    &&& need_text(vars, "API_URL"@) == Ok::<Seq<char>, ConfigErrorView>(c.api_url@)
    &&& need_text(vars, "CLIENT_URL"@) == Ok::<Seq<char>, ConfigErrorView>(c.client_url@)
    &&& usize_or(vars, "FILE_SIZE_LIMIT"@, 100) == Ok::<usize, ConfigErrorView>(c.file_size_limit)
    &&& need_u16(vars, "WORKER_ID"@) == Ok::<u16, ConfigErrorView>(c.worker_id)
    &&& bool_or(vars, "INVITE_ONLY"@, false) == Ok::<bool, ConfigErrorView>(c.invite_only)
    &&& bool_or(vars, "RUN_MIGRATIONS"@, true) == Ok::<bool, ConfigErrorView>(c.run_migrations)
    &&& match c.storage_provider {
        StorageConfig::Local(l) => {
            &&& need_text(vars, "STORAGE_PROVIDER"@) == Ok::<Seq<char>, ConfigErrorView>("local"@)
            &&& l.path@ == text_or(vars, "LOCAL_PATH"@, "./uploads"@)
            &&& bool_or(vars, "LOCAL_SERVE"@, true) == Ok::<bool, ConfigErrorView>(l.serve)
        },
        StorageConfig::S3(s) => {
            &&& need_text(vars, "STORAGE_PROVIDER"@) == Ok::<Seq<char>, ConfigErrorView>("s3"@)
            &&& need_text(vars, "S3_BUCKET"@) == Ok::<Seq<char>, ConfigErrorView>(s.bucket@)
            &&& need_text(vars, "S3_ACCESS_KEY"@) == Ok::<Seq<char>, ConfigErrorView>(s.access_key@)
            &&& need_text(vars, "S3_SECRET_KEY"@) == Ok::<Seq<char>, ConfigErrorView>(s.secret_key@)
            &&& need_text(vars, "S3_REGION"@) == Ok::<Seq<char>, ConfigErrorView>(s.region_name@)
            &&& need_text(vars, "S3_ENDPOINT"@) == Ok::<Seq<char>, ConfigErrorView>(s.region_endpoint@)
        },
    }
    &&& match c.smtp_config {
        None => bool_or(vars, "SMTP_ENABLED"@, false) == Ok::<bool, ConfigErrorView>(false),
        Some(m) => {
            &&& bool_or(vars, "SMTP_ENABLED"@, false) == Ok::<bool, ConfigErrorView>(true)
            &&& need_text(vars, "SMTP_USERNAME"@) == Ok::<Seq<char>, ConfigErrorView>(m.username@)
            &&& need_text(vars, "SMTP_PASSWORD"@) == Ok::<Seq<char>, ConfigErrorView>(m.password@)
            &&& need_text(vars, "SMTP_SERVER"@) == Ok::<Seq<char>, ConfigErrorView>(m.server@)
        },
    }
}

/// A variable's value is that of its first binding: when the `i`th pair is
/// the first named `name`, its value is the variable's.
pub proof fn lemma_first_binding_wins(vars: Seq<(String, String)>, name: Seq<char>, i: int)
    requires
        0 <= i < vars.len(),
        vars[i].0@ == name,
        forall|j: int| 0 <= j < i ==> vars[j].0@ != name,
    ensures
        var_of(vars, name) == Some(vars[i].1@),
    decreases i,
{
    if i > 0 {
        assert forall|j: int| 0 <= j < i - 1 implies vars.skip(1)[j].0@ != name by {
            assert(vars.skip(1)[j] == vars[j + 1]);
        }
        assert(vars.skip(1)[i - 1] == vars[i]);
        lemma_first_binding_wins(vars.skip(1), name, i - 1);
    }
}

/// Each field of a configuration read from the variables holds the value of
/// the variable of its own name: the port and worker id are the numbers
/// `PORT` and `WORKER_ID` spell, the texts are those of `STORAGE_URL`,
/// `DATABASE_URL`, `JWT_KEY`, `API_URL` and `CLIENT_URL`.
pub proof fn lemma_config_fields_from_own_variables(c: Config, vars: Seq<(String, String)>)
    requires
        config_from(c, vars),
    ensures
        var_of(vars, "STORAGE_URL"@) == Some(c.storage_url@),
        var_of(vars, "DATABASE_URL"@) == Some(c.database_url@),
        var_of(vars, "JWT_KEY"@) == Some(c.jwt_key@),
        var_of(vars, "API_URL"@) == Some(c.api_url@),
        var_of(vars, "CLIENT_URL"@) == Some(c.client_url@),
        var_of(vars, "PORT"@) matches Some(v) && parse_integer_spec(v, 0, 0xffff) == Some(c.port as int),
        var_of(vars, "WORKER_ID"@) matches Some(v) && parse_integer_spec(v, 0, 0xffff) == Some(
            c.worker_id as int,
        ),
{
}

/// The value of the first variable named `name`.
pub fn lookup_var(vars: &Vec<(String, String)>, name: &str) -> (r: Option<String>)
    ensures
        match var_of(vars@, name@) {
            None => r is None,
            Some(v) => (r matches Some(s) && s@ == v),
        },
{
    let mut i: usize = 0;
    proof {
        assert(vars@.skip(0) == vars@);
    }
    while i < vars.len()
        invariant
            i <= vars@.len(),
            var_of(vars@, name@) == var_of(vars@.skip(i as int), name@),
        decreases vars@.len() - i,
    {
        proof {
            assert(vars@.skip(i as int)[0] == vars@[i as int]);
            assert(vars@.skip(i as int).skip(1) == vars@.skip(i + 1));
        }
        if str_equal(vars[i].0.as_str(), name) {
            return Some(vars[i].1.clone());
        }
        i = i + 1;
    }
    None
}

fn read_text(vars: &Vec<(String, String)>, name: &str) -> (r: Result<String, ConfigError>)
    ensures
        match r {
            Ok(s) => need_text(vars@, name@) == Ok::<Seq<char>, ConfigErrorView>(s@),
            Err(e) => need_text(vars@, name@) == Err::<Seq<char>, ConfigErrorView>(config_error_view(e)),
        },
{
    match lookup_var(vars, name) {
        Some(v) => Ok(v),
        None => Err(ConfigError::Missing(name.to_owned())),
    }
}

fn read_u16(vars: &Vec<(String, String)>, name: &str) -> (r: Result<u16, ConfigError>)
    ensures
        match r {
            Ok(v) => need_u16(vars@, name@) == Ok::<u16, ConfigErrorView>(v),
            Err(e) => need_u16(vars@, name@) == Err::<u16, ConfigErrorView>(config_error_view(e)),
        },
{
    match lookup_var(vars, name) {
        None => Err(ConfigError::Missing(name.to_owned())),
        Some(v) => match parse_u16(v.as_str()) {
            Some(n) => Ok(n),
            None => Err(ConfigError::Invalid(name.to_owned(), "u16".to_owned())),
        },
    }
}

fn read_usize_or(vars: &Vec<(String, String)>, name: &str, default: usize) -> (r: Result<usize, ConfigError>)
    ensures
        match r {
            Ok(v) => usize_or(vars@, name@, default) == Ok::<usize, ConfigErrorView>(v),
            Err(e) => usize_or(vars@, name@, default) == Err::<usize, ConfigErrorView>(config_error_view(e)),
        },
{
    match lookup_var(vars, name) {
        None => Ok(default),
        Some(v) => match parse_usize(v.as_str()) {
            Some(n) => Ok(n),
            None => Err(ConfigError::Invalid(name.to_owned(), "usize".to_owned())),
        },
    }
}

fn read_bool_or(vars: &Vec<(String, String)>, name: &str, default: bool) -> (r: Result<bool, ConfigError>)
    ensures
        match r {
            Ok(v) => bool_or(vars@, name@, default) == Ok::<bool, ConfigErrorView>(v),
            Err(e) => bool_or(vars@, name@, default) == Err::<bool, ConfigErrorView>(config_error_view(e)),
        },
{
    match lookup_var(vars, name) {
        None => Ok(default),
        Some(v) => match parse_bool(v.as_str()) {
            Some(b) => Ok(b),
            None => Err(ConfigError::Invalid(name.to_owned(), "bool".to_owned())),
        },
    }
}

fn read_storage(vars: &Vec<(String, String)>) -> (r: Result<StorageConfig, ConfigError>)
    ensures
        match r {
            Ok(s) => storage_failure(vars@) is None && match s {
                StorageConfig::Local(l) => {
                    &&& need_text(vars@, "STORAGE_PROVIDER"@) == Ok::<Seq<char>, ConfigErrorView>("local"@)
                    &&& l.path@ == text_or(vars@, "LOCAL_PATH"@, "./uploads"@)
                    &&& bool_or(vars@, "LOCAL_SERVE"@, true) == Ok::<bool, ConfigErrorView>(l.serve)
                },
                StorageConfig::S3(s) => {
                    &&& need_text(vars@, "STORAGE_PROVIDER"@) == Ok::<Seq<char>, ConfigErrorView>("s3"@)
                    &&& need_text(vars@, "S3_BUCKET"@) == Ok::<Seq<char>, ConfigErrorView>(s.bucket@)
                    &&& need_text(vars@, "S3_ACCESS_KEY"@) == Ok::<Seq<char>, ConfigErrorView>(s.access_key@)
                    &&& need_text(vars@, "S3_SECRET_KEY"@) == Ok::<Seq<char>, ConfigErrorView>(s.secret_key@)
                    &&& need_text(vars@, "S3_REGION"@) == Ok::<Seq<char>, ConfigErrorView>(s.region_name@)
                    &&& need_text(vars@, "S3_ENDPOINT"@) == Ok::<Seq<char>, ConfigErrorView>(s.region_endpoint@)
                },
            },
            Err(e) => storage_failure(vars@) == Some(config_error_view(e)),
        },
{
    let provider = match read_text(vars, "STORAGE_PROVIDER") {
        Ok(p) => p,
        Err(e) => return Err(e),
    };
    match storage_kind(provider.as_str()) {
        Some(StorageKind::Local) => {
            let path = match lookup_var(vars, "LOCAL_PATH") {
                Some(p) => p,
                None => "./uploads".to_owned(),
            };
            let serve = match read_bool_or(vars, "LOCAL_SERVE", true) {
                Ok(b) => b,
                Err(e) => return Err(e),
            };
            proof {
                reveal_strlit("local");
                reveal_strlit("s3");
            }
            Ok(StorageConfig::Local(LocalConfig { path, serve }))
        },
        Some(StorageKind::S3) => {
            proof {
                reveal_strlit("local");
                reveal_strlit("s3");
                reveal_with_fuel(first_failure, 6);
            }
            let bucket = match read_text(vars, "S3_BUCKET") {
                Ok(v) => v,
                Err(e) => return Err(e),
            };
            let access_key = match read_text(vars, "S3_ACCESS_KEY") {
                Ok(v) => v,
                Err(e) => return Err(e),
            };
            let secret_key = match read_text(vars, "S3_SECRET_KEY") {
                Ok(v) => v,
                Err(e) => return Err(e),
            };
            let region_name = match read_text(vars, "S3_REGION") {
                Ok(v) => v,
                Err(e) => return Err(e),
            };
            let region_endpoint = match read_text(vars, "S3_ENDPOINT") {
                Ok(v) => v,
                Err(e) => return Err(e),
            };
            Ok(StorageConfig::S3(S3Config { bucket, access_key, secret_key, region_name, region_endpoint }))
        },
        None => Err(ConfigError::InvalidStorageProvider),
    }
}

fn read_smtp(vars: &Vec<(String, String)>) -> (r: Result<Option<SMTPConfig>, ConfigError>)
    ensures
        match r {
            Ok(c) => smtp_failure(vars@) is None && match c {
                None => bool_or(vars@, "SMTP_ENABLED"@, false) == Ok::<bool, ConfigErrorView>(false),
                Some(m) => {
                    &&& bool_or(vars@, "SMTP_ENABLED"@, false) == Ok::<bool, ConfigErrorView>(true)
                    &&& need_text(vars@, "SMTP_USERNAME"@) == Ok::<Seq<char>, ConfigErrorView>(m.username@)
                    &&& need_text(vars@, "SMTP_PASSWORD"@) == Ok::<Seq<char>, ConfigErrorView>(m.password@)
                    &&& need_text(vars@, "SMTP_SERVER"@) == Ok::<Seq<char>, ConfigErrorView>(m.server@)
                },
            },
            Err(e) => smtp_failure(vars@) == Some(config_error_view(e)),
        },
{
    proof {
        reveal_with_fuel(first_failure, 4);
    }
    let enabled = match read_bool_or(vars, "SMTP_ENABLED", false) {
        Ok(b) => b,
        Err(e) => return Err(e),
    };
    if !enabled {
        return Ok(None);
    }
    let username = match read_text(vars, "SMTP_USERNAME") {
        Ok(v) => v,
        Err(e) => return Err(e),
    };
    let password = match read_text(vars, "SMTP_PASSWORD") {
        Ok(v) => v,
        Err(e) => return Err(e),
    };
    let server = match read_text(vars, "SMTP_SERVER") {
        Ok(v) => v,
        Err(e) => return Err(e),
    };
    Ok(Some(SMTPConfig { username, password, server }))
}

impl Config {
    /// The configuration the environment variables `vars` (name, value) give,
    /// read in order: the first variable that is missing or does not read
    /// as its type is the error.
    pub fn from_vars(vars: &Vec<(String, String)>) -> (r: Result<Config, ConfigError>)
        ensures
            r is Ok <==> config_failure(vars@) is None,
            r matches Ok(c) ==> config_from(c, vars@),
            r matches Ok(c) ==> need_u16(vars@, "PORT"@) == Ok::<u16, ConfigErrorView>(c.port),
            r matches Ok(c) ==> need_text(vars@, "STORAGE_URL"@) == Ok::<Seq<char>, ConfigErrorView>(c.storage_url@),
            r matches Ok(c) ==> need_text(vars@, "DATABASE_URL"@) == Ok::<Seq<char>, ConfigErrorView>(c.database_url@),
            r matches Ok(c) ==> need_text(vars@, "JWT_KEY"@) == Ok::<Seq<char>, ConfigErrorView>(c.jwt_key@),
            r matches Ok(c) ==> need_text(vars@, "API_URL"@) == Ok::<Seq<char>, ConfigErrorView>(c.api_url@),
            r matches Ok(c) ==> need_text(vars@, "CLIENT_URL"@) == Ok::<Seq<char>, ConfigErrorView>(c.client_url@),
            r matches Ok(c) ==> usize_or(vars@, "FILE_SIZE_LIMIT"@, 100) == Ok::<usize, ConfigErrorView>(c.file_size_limit),
            r matches Ok(c) ==> need_u16(vars@, "WORKER_ID"@) == Ok::<u16, ConfigErrorView>(c.worker_id),
            r matches Ok(c) ==> bool_or(vars@, "INVITE_ONLY"@, false) == Ok::<bool, ConfigErrorView>(c.invite_only),
            r matches Ok(c) ==> bool_or(vars@, "RUN_MIGRATIONS"@, true) == Ok::<bool, ConfigErrorView>(c.run_migrations),
            r matches Err(e) ==> config_failure(vars@) == Some(config_error_view(e)),
    {
        proof {
            reveal_with_fuel(first_failure, 13);
        }
        let port = match read_u16(vars, "PORT") {
            Ok(v) => v,
            Err(e) => return Err(e),
        };
        let storage_url = match read_text(vars, "STORAGE_URL") {
            Ok(v) => v,
            Err(e) => return Err(e),
        };
        let database_url = match read_text(vars, "DATABASE_URL") {
            Ok(v) => v,
            Err(e) => return Err(e),
        };
        let jwt_key = match read_text(vars, "JWT_KEY") {
            Ok(v) => v,
            Err(e) => return Err(e),
        };
        let api_url = match read_text(vars, "API_URL") {
            Ok(v) => v,
            Err(e) => return Err(e),
        };
        let client_url = match read_text(vars, "CLIENT_URL") {
            Ok(v) => v,
            Err(e) => return Err(e),
        };
        let file_size_limit = match read_usize_or(vars, "FILE_SIZE_LIMIT", 100) {
            Ok(v) => v,
            Err(e) => return Err(e),
        };
        let worker_id = match read_u16(vars, "WORKER_ID") {
            Ok(v) => v,
            Err(e) => return Err(e),
        };
        let invite_only = match read_bool_or(vars, "INVITE_ONLY", false) {
            Ok(v) => v,
            Err(e) => return Err(e),
        };
        let run_migrations = match read_bool_or(vars, "RUN_MIGRATIONS", true) {
            Ok(v) => v,
            Err(e) => return Err(e),
        };
        let storage_provider = match read_storage(vars) {
            Ok(v) => v,
            Err(e) => return Err(e),
        };
        let smtp_config = match read_smtp(vars) {
            Ok(v) => v,
            Err(e) => return Err(e),
        };
        Ok(Config {
            port,
            api_url,
            client_url,
            storage_url,
            database_url,
            worker_id,
            jwt_key,
            file_size_limit,
            storage_provider,
            smtp_config,
            invite_only,
            run_migrations,
        })
    }
}

} // verus!
