//! Where the palette keeps its runtime files, and its runtime configuration.
//! Discovering the user's data directory, creating directories and reading
//! or writing `config.json` are done by the program around the library.

use vstd::prelude::*;
use crate::protocol::{DEFAULT_DAEMON_PORT, PROTOCOL_VERSION};
use crate::text::{concat_str, decimal, decimal_string};

verus! {

/// `base` with the relative name `child` appended, a `/` between them
/// unless `base` is empty or already ends with one (as `Path::join` does
/// on Unix for a relative name).
pub open spec fn join_path(base: Seq<char>, child: Seq<char>) -> Seq<char> {
    if base.len() == 0 || base.last() == '/' {
        base + child
    } else {
        base + "/"@ + child
    }
}

/// Appends the relative name `child` to `base`.
pub fn join(base: &str, child: &str) -> (joined: String)
    ensures
        joined@ == join_path(base@, child@),
{
    proof { reveal_strlit("/"); }
    let chars = crate::text::chars_of(base);
    let mut joined = String::from_str(base);
    if chars.len() > 0 && chars[chars.len() - 1] != '/' {
        joined.append("/");
    }
    joined.append(child);
    joined
}

/// The runtime files under a data directory.
pub struct AppPaths {
    pub data_dir: String,
    pub config_file: String,
    pub database_file: String,
    pub log_dir: String,
}

/// The name of the palette's folder under the user's data directory.
pub open spec fn app_folder() -> Seq<char> {
    "Ableton Command Palette"@
}

impl AppPaths {
    /// Where the runtime files live: under `override_dir` when the
    /// environment names one (`ABLETON_PALETTE_DATA_DIR`), else under the
    /// palette's folder in the user's data directory; an error when there is
    /// neither.
    pub fn discover(override_dir: Option<String>, user_data_dir: Option<String>) -> (paths: Result<
        AppPaths,
        String,
    >)
        ensures
            override_dir matches Some(dir) ==> (paths matches Ok(p) && p.data_dir@ == dir@),
            override_dir is None ==> (user_data_dir matches Some(base) ==> (paths matches Ok(p)
                && p.data_dir@ == join_path(base@, app_folder()))),
            override_dir is None && user_data_dir is None ==> (paths matches Err(m)
                && m@ == "unable to determine the user data directory"@),
            paths matches Ok(p) ==> p.config_file@ == join_path(p.data_dir@, "config.json"@)
                && p.database_file@ == join_path(p.data_dir@, "palette.sqlite3"@)
                && p.log_dir@ == join_path(p.data_dir@, "logs"@),
    {
        match override_dir {
            Some(dir) => Ok(AppPaths::from_data_dir(dir)),
            None => match user_data_dir {
                Some(base) => {
                    proof { reveal_strlit("Ableton Command Palette"); }
                    Ok(AppPaths::from_data_dir(join(base.as_str(), "Ableton Command Palette")))
                },
                None => {
                    proof { reveal_strlit("unable to determine the user data directory"); }
                    Err(String::from_str("unable to determine the user data directory"))
                },
            },
        }
    }

    /// The runtime files under `data_dir`: `config.json`, `palette.sqlite3`
    /// and the `logs` directory.
    pub fn from_data_dir(data_dir: String) -> (paths: AppPaths)
        ensures
            paths.data_dir@ == data_dir@,
            paths.config_file@ == join_path(data_dir@, "config.json"@),
            paths.database_file@ == join_path(data_dir@, "palette.sqlite3"@),
            paths.log_dir@ == join_path(data_dir@, "logs"@),
    {
        let config_file = join(data_dir.as_str(), "config.json");
        let database_file = join(data_dir.as_str(), "palette.sqlite3");
        let log_dir = join(data_dir.as_str(), "logs");
        AppPaths { data_dir, config_file, database_file, log_dir }
    }
}

/// Whether `host` names this machine's loopback interface: `127.0.0.1`,
/// `localhost` or `::1`.  Peers bind and connect to nothing else.
pub open spec fn loopback_host(host: Seq<char>) -> bool {
    host == "127.0.0.1"@ || host == "localhost"@ || host == "::1"@
}

/// Whether `host` names this machine's loopback interface.
pub fn is_loopback_host(host: &str) -> (loopback: bool)
    ensures
        loopback == loopback_host(host@),
{
    crate::text::str_equal(host, "127.0.0.1") || crate::text::str_equal(host, "localhost")
        || crate::text::str_equal(host, "::1")
}

/// The error for a configured host that is not a loopback host.
pub open spec fn not_loopback(host: Seq<char>) -> Seq<char> {
    "runtime configuration must use a loopback host, not "@ + host
}

/// The loopback address, protocol version and token that peers must use.
pub struct RuntimeConfig {
    pub host: String,
    pub port: u16,
    pub token: String,
    pub protocol_version: u32,
}

impl RuntimeConfig {
    /// The default configuration around a freshly generated token: loopback
    /// host, the default port and the current protocol version.
    pub fn new(token: String) -> (config: RuntimeConfig)
        ensures
            config.host@ == "127.0.0.1"@,
            config.port == DEFAULT_DAEMON_PORT,
            config.token@ == token@,
            config.protocol_version == PROTOCOL_VERSION,
    {
        RuntimeConfig {
            host: String::from_str("127.0.0.1"),
            port: DEFAULT_DAEMON_PORT,
            token,
            protocol_version: PROTOCOL_VERSION,
        }
    }

    /// The address `host:port` that peers bind or connect to, or the error
    /// that refuses a host other than a loopback host.
    pub fn loopback_address(&self) -> (address: Result<String, String>)
        ensures
            address is Ok <==> loopback_host(self.host@),
            address matches Ok(a) ==> a@ == self.host@ + ":"@ + decimal(self.port as nat),
            address matches Err(m) ==> m@ == not_loopback(self.host@),
    {
        if !is_loopback_host(self.host.as_str()) {
            proof { reveal_strlit("runtime configuration must use a loopback host, not "); }
            return Err(concat_str("runtime configuration must use a loopback host, not ", self.host.as_str()));
        }
        proof { reveal_strlit(":"); }
        let head = concat_str(self.host.as_str(), ":");
        let port = decimal_string(self.port as u64);
        Ok(concat_str(head.as_str(), port.as_str()))
    }
}

} // verus!
