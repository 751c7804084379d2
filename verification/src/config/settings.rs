//! Gateway settings and their environment overrides.

use vstd::prelude::*;
use crate::text::opt_str_view;

use crate::text::{
    ascii_lower_seq, chars_ascii_lower, parse_u16, parse_u16_spec, to_chars, trim, trim_bounds,
    sub_chars,
};

verus! {

/// The gateway's settings, as stored in `settings.json`.
#[derive(Debug, Clone)]
pub struct Settings {
    pub host: String,
    pub port: u16,
    pub upstream_timeout_seconds: u64,
    pub first_token_timeout_seconds: u64,
    pub request_retry_attempts: u32,
    pub upstream_proxy_enabled: bool,
    pub upstream_proxy_url: String,
    pub monitoring_enabled: bool,
    pub monitoring_start_time: Option<String>,
    pub monitoring_end_time: Option<String>,
    pub local_token: String,
    pub launch_at_login: bool,
}

impl Default for Settings {
    fn default() -> (r: Settings)
        ensures
            r.host@ == "127.0.0.1"@,
            r.port == 7789,
            r.upstream_timeout_seconds == 300,
            r.first_token_timeout_seconds == 60,
            r.request_retry_attempts == 10,
            !r.upstream_proxy_enabled,
            r.upstream_proxy_url@ == "http://127.0.0.1:7890"@,
            r.monitoring_enabled,
            r.monitoring_start_time is None,
            r.monitoring_end_time is None,
            r.local_token@ == Seq::<char>::empty(),
            !r.launch_at_login,
    {
        Settings {
            host: "127.0.0.1".to_string(),
            port: 7789,
            upstream_timeout_seconds: 300,
            first_token_timeout_seconds: 60,
            request_retry_attempts: 10,
            upstream_proxy_enabled: false,
            upstream_proxy_url: "http://127.0.0.1:7890".to_string(),
            monitoring_enabled: true,
            monitoring_start_time: None,
            monitoring_end_time: None,
            local_token: String::new(),
            launch_at_login: false,
        }
    }
}

/// An `AIMUX_MONITORING_ENABLED` value that switches monitoring on, once
/// trimmed and lowercased.
pub open spec fn is_enabling_flag(n: Seq<char>) -> bool {
    n == seq!['1'] || n == seq!['t', 'r', 'u', 'e']
}

fn chars_is_enabling_flag(n: &[char]) -> (r: bool)
    ensures
        r == is_enabling_flag(n@),
{
    if n.len() == 1 {
        let r = n[0] == '1';
        assert(r ==> n@ =~= seq!['1']);
        r
    } else if n.len() == 4 {
        let r = n[0] == 't' && n[1] == 'r' && n[2] == 'u' && n[3] == 'e';
        assert(r ==> n@ =~= seq!['t', 'r', 'u', 'e']);
        r
    } else {
        false
    }
}

/// The port after the `AIMUX_PORT` override: a value that parses as `u16`
/// replaces the port, any other leaves it.
pub open spec fn port_after_override(port: u16, var: Option<Seq<char>>) -> u16 {
    match var {
        Some(v) => match parse_u16_spec(v) {
            Some(p) => p,
            None => port,
        },
        None => port,
    }
}

/// Whether monitoring is on after the `AIMUX_MONITORING_ENABLED` override: a
/// value that is empty once trimmed leaves it, any other sets it to whether
/// the value is `1` or `true` (ignoring ASCII case).
pub open spec fn monitoring_after_override(enabled: bool, var: Option<Seq<char>>) -> bool {
    match var {
        Some(v) => {
            let n = ascii_lower_seq(trim(v));
            if n.len() == 0 {
                enabled
            } else {
                is_enabling_flag(n)
            }
        },
        None => enabled,
    }
}

impl Settings {
    /// Applies the values of `AIMUX_PORT` and `AIMUX_MONITORING_ENABLED`
    /// (absent when the variable is unset) to the settings.
    pub fn apply_environment_overrides(&mut self, port: Option<&str>, monitoring_enabled: Option<&str>)
        ensures
            final(self).port == port_after_override(old(self).port, opt_str_view(port)),
            final(self).monitoring_enabled == monitoring_after_override(
                old(self).monitoring_enabled,
                opt_str_view(monitoring_enabled),
            ),
            final(self).host == old(self).host,
            final(self).upstream_timeout_seconds == old(self).upstream_timeout_seconds,
            final(self).first_token_timeout_seconds == old(self).first_token_timeout_seconds,
            final(self).request_retry_attempts == old(self).request_retry_attempts,
            final(self).upstream_proxy_enabled == old(self).upstream_proxy_enabled,
            final(self).upstream_proxy_url == old(self).upstream_proxy_url,
            final(self).monitoring_start_time == old(self).monitoring_start_time,
            final(self).monitoring_end_time == old(self).monitoring_end_time,
            final(self).local_token == old(self).local_token,
            final(self).launch_at_login == old(self).launch_at_login,
    {
        if let Some(p) = port {
            if let Some(v) = parse_u16(p) {
                self.port = v;
            }
        }
        if let Some(e) = monitoring_enabled {
            let v = to_chars(e);
            let (a, b) = trim_bounds(v.as_slice());
            let t = sub_chars(v.as_slice(), a, b);
            let n = chars_ascii_lower(t.as_slice());
            if n.len() > 0 {
                self.monitoring_enabled = chars_is_enabling_flag(n.as_slice());
            }
        }
    }
}

/// The gateway's stable port.
pub const STABLE_GATEWAY_PORT: u16 = 7789;

/// The port of the development desktop build.
pub const DEVELOPMENT_DESKTOP_PORT: u16 = 7790;

/// The name of the database file in the data directory.
pub const DATABASE_FILE: &'static str = "aimux.db";

/// The name of the settings file in the configuration directory.
pub const SETTINGS_FILE: &'static str = "settings.json";

/// std's `PathBuf`, carried as an opaque value.
#[verifier::external_type_specification]
#[verifier::external_body]
pub struct ExPathBuf(std::path::PathBuf);

/// The qualifier that names the project's directories.
pub const PROJECT_QUALIFIER: &'static str = "dev";

/// The organization that names the project's directories.
pub const PROJECT_ORGANIZATION: &'static str = "quietforge";

/// The application that names the project's directories.
pub const PROJECT_APPLICATION: &'static str = "AIMux";

/// Calls `directories::ProjectDirs::from(qualifier, organization,
/// application)` and takes its data directory. Nothing is claimed: the
/// directory depends on the platform and the environment (the home
/// directory), and there may be none.
#[verifier::external_body]
fn project_data_dir(qualifier: &str, organization: &str, application: &str) -> Option<std::path::PathBuf> {
    match directories::ProjectDirs::from(qualifier, organization, application) {
        Some(d) => Some(d.data_dir().to_path_buf()),
        None => None,
    }
}

/// Calls `directories::ProjectDirs::from(qualifier, organization,
/// application)` and takes its configuration directory. Nothing is claimed,
/// as for the data directory.
#[verifier::external_body]
fn project_config_dir(qualifier: &str, organization: &str, application: &str) -> Option<std::path::PathBuf> {
    match directories::ProjectDirs::from(qualifier, organization, application) {
        Some(d) => Some(d.config_dir().to_path_buf()),
        None => None,
    }
}

/// The path that std's `PathBuf::from` makes of a string.
pub uninterp spec fn path_of(s: Seq<char>) -> std::path::PathBuf;

/// The path that std's `Path::join` makes of `base` and `name`.
pub uninterp spec fn joined_path(base: std::path::PathBuf, name: Seq<char>) -> std::path::PathBuf;

/// Calls std's `PathBuf::from` on a string. Claimed: the result is the named
/// path of the string (a function of the string alone).
#[verifier::external_body]
fn path_from(s: &str) -> (r: std::path::PathBuf)
    ensures
        r == path_of(s@),
{
    std::path::PathBuf::from(s)
}

/// Calls std's `Path::join`. Claimed: the result is the named join of `base`
/// and `name` (a function of the two alone).
#[verifier::external_body]
fn path_join(base: &std::path::PathBuf, name: &str) -> (r: std::path::PathBuf)
    ensures
        r == joined_path(*base, name@),
{
    base.join(name)
}

impl Settings {
    /// Where the settings are stored: `settings.json` in the project's
    /// configuration directory, else in the working directory. Which
    /// directory it is comes from the platform and the environment.
    pub fn config_path() -> (r: std::path::PathBuf)
        ensures
            (exists|dir: std::path::PathBuf| r == joined_path(dir, SETTINGS_FILE@)) || r == path_of(
                SETTINGS_FILE@,
            ),
    {
        match project_config_dir(PROJECT_QUALIFIER, PROJECT_ORGANIZATION, PROJECT_APPLICATION) {
            Some(dir) => path_join(&dir, SETTINGS_FILE),
            None => path_from(SETTINGS_FILE),
        }
    }

    /// The project's data directory, else the working directory. No
    /// contract names the path: any directory of the environment may be it.
    pub fn data_dir() -> std::path::PathBuf {
        match project_data_dir(PROJECT_QUALIFIER, PROJECT_ORGANIZATION, PROJECT_APPLICATION) {
            Some(dir) => dir,
            None => path_from("."),
        }
    }

    /// The database file: `aimux.db` in the data directory.
    pub fn database_path(&self) -> (r: std::path::PathBuf)
        ensures
            exists|dir: std::path::PathBuf| r == joined_path(dir, DATABASE_FILE@),
    {
        let dir = Settings::data_dir();
        path_join(&dir, DATABASE_FILE)
    }

    /// A release build moves settings off the development port back to the
    /// stable one; gives whether it did (and the settings must be saved).
    pub fn restore_stable_port(&mut self) -> (r: bool)
        ensures
            r == (old(self).port == DEVELOPMENT_DESKTOP_PORT),
            final(self).port == (if r {
                STABLE_GATEWAY_PORT
            } else {
                old(self).port
            }),
            final(self).host == old(self).host,
            final(self).upstream_timeout_seconds == old(self).upstream_timeout_seconds,
            final(self).first_token_timeout_seconds == old(self).first_token_timeout_seconds,
            final(self).request_retry_attempts == old(self).request_retry_attempts,
            final(self).upstream_proxy_enabled == old(self).upstream_proxy_enabled,
            final(self).upstream_proxy_url == old(self).upstream_proxy_url,
            final(self).monitoring_enabled == old(self).monitoring_enabled,
            final(self).monitoring_start_time == old(self).monitoring_start_time,
            final(self).monitoring_end_time == old(self).monitoring_end_time,
            final(self).local_token == old(self).local_token,
            final(self).launch_at_login == old(self).launch_at_login,
    {
        if self.port == DEVELOPMENT_DESKTOP_PORT {
            self.port = STABLE_GATEWAY_PORT;
            true
        } else {
            false
        }
    }
}

} // verus!
