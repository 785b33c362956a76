//! The server's settings, read from the environment.
use vstd::prelude::*;

use crate::path::{absolute, normalize_path, normalized, path_result};
use crate::text::{number_in, opt_text, parse_usize};

verus! {

/// The settings as the environment gives them: each is the value of its variable, or `None` where
/// the variable is not set to text.
#[derive(Debug, PartialEq, Eq)]
pub struct Environment {
    /// `APP_DATA_DIR`
    pub data_dir: Option<String>,
    /// `APP_DB_PATH`
    pub db_path: Option<String>,
    /// `APP_MAX_CHUNK_BYTES`
    pub max_chunk_bytes: Option<String>,
    /// `APP_WEB_DIR`
    pub web_dir: Option<String>,
}

/// The settings of a running server.
#[derive(Debug, PartialEq, Eq)]
pub struct AppConfig {
    /// Where chunks and finalized files are kept.
    pub data_dir: String,
    /// The database file.
    pub db_path: String,
    /// The largest chunk that is accepted, in bytes.
    pub max_chunk_bytes: usize,
    /// The files that make up the recorder's web page.
    pub web_dir: String,
}

/// The model of an [`AppConfig`].
pub struct ConfigView {
    pub data_dir: Seq<char>,
    pub db_path: Seq<char>,
    pub max_chunk_bytes: int,
    pub web_dir: Seq<char>,
}

impl View for AppConfig {
    type V = ConfigView;

    open spec fn view(&self) -> ConfigView {
        ConfigView {
            data_dir: self.data_dir@,
            db_path: self.db_path@,
            max_chunk_bytes: self.max_chunk_bytes as int,
            web_dir: self.web_dir@,
        }
    }
}

/// The chunk limit where none is configured: ten mebibytes.
pub const DEFAULT_MAX_CHUNK_BYTES: usize = 10 * 1024 * 1024;

/// The value of a variable, or its default.
pub open spec fn or_default(value: Option<String>, default: Seq<char>) -> Seq<char> {
    match value {
        Some(v) => v@,
        None => default,
    }
}

/// The configured chunk limit. A value that is no number counts as not set.
pub open spec fn chunk_limit(value: Option<String>) -> int {
    match value {
        Some(v) => match number_in(v@) {
            Some(n) => n as int,
            None => DEFAULT_MAX_CHUNK_BYTES as int,
        },
        None => DEFAULT_MAX_CHUNK_BYTES as int,
    }
}

/// The settings that an environment stands for, seen from the working directory `cwd`. Where a
/// path is relative and that directory is not known, what is said of it.
pub open spec fn configured(
    env: Environment,
    cwd: Option<Seq<char>>,
) -> Result<ConfigView, Seq<char>> {
    let data_dir = normalized(or_default(env.data_dir, "./data"@), cwd);
    let db_path = normalized(or_default(env.db_path, "./data/app.db"@), cwd);
    let web_dir = normalized(or_default(env.web_dir, "./web"@), cwd);
    match (data_dir, db_path, web_dir) {
        (Err(message), _, _) => Err(message),
        (_, Err(message), _) => Err(message),
        (_, _, Err(message)) => Err(message),
        (Ok(data_dir), Ok(db_path), Ok(web_dir)) => Ok(
            ConfigView {
                data_dir,
                db_path,
                max_chunk_bytes: chunk_limit(env.max_chunk_bytes),
                web_dir,
            },
        ),
    }
}

fn path_setting(
    value: &Option<String>,
    default: &str,
    cwd: &Option<String>,
) -> (r: Result<String, String>)
    ensures
        path_result(r) == normalized(or_default(*value, default@), opt_text(*cwd)),
{
    let input: &str = match value {
        Some(v) => v.as_str(),
        None => default,
    };
    match cwd {
        Some(dir) => normalize_path(input, Some(dir.as_str())),
        None => normalize_path(input, None),
    }
}

/// Reads the settings out of the environment. `cwd` is the working directory, or `None` where it
/// could not be found out; there is an error exactly if it was needed then.
pub fn load_config(env: &Environment, cwd: &Option<String>) -> (r: Result<AppConfig, String>)
    ensures
        r matches Ok(config) ==> configured(*env, opt_text(*cwd)) == Ok::<
            ConfigView,
            Seq<char>,
        >(config@),
        r matches Err(message) ==> configured(*env, opt_text(*cwd)) == Err::<
            ConfigView,
            Seq<char>,
        >(message@),
{
    let data_dir = match path_setting(&env.data_dir, "./data", cwd) {
        Ok(path) => path,
        Err(message) => return Err(message),
    };
    let db_path = match path_setting(&env.db_path, "./data/app.db", cwd) {
        Ok(path) => path,
        Err(message) => return Err(message),
    };
    let max_chunk_bytes: usize = match &env.max_chunk_bytes {
        Some(v) => match parse_usize(v.as_str()) {
            Some(n) => n,
            None => DEFAULT_MAX_CHUNK_BYTES,
        },
        None => DEFAULT_MAX_CHUNK_BYTES,
    };
    let web_dir = match path_setting(&env.web_dir, "./web", cwd) {
        Ok(path) => path,
        Err(message) => return Err(message),
    };
    Ok(AppConfig { data_dir, db_path, max_chunk_bytes, web_dir })
}

/// With a known working directory the settings can always be read, and every path in them is
/// absolute if that directory is.
pub proof fn law_configured_paths_are_absolute(env: Environment, cwd: Seq<char>)
    requires
        absolute(cwd),
    ensures
        configured(env, Some(cwd)) matches Ok(config) && absolute(config.data_dir) && absolute(
            config.db_path,
        ) && absolute(config.web_dir),
{
}

} // verus!
