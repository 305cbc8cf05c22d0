//! Configuration resolution.
//!
//! The agent needs three values before it can run: the scheduler server's
//! base URL, an authentication token, and a prefix under which script
//! artifacts are written. They come from a configuration source (file and
//! environment, read by the surrounding process) plus an optional explicit
//! token from the command line, which takes precedence. Resolution happens
//! once at startup and the result is immutable for the rest of the run.

use vstd::prelude::*;

verus! {

/// The agent's validated, immutable configuration.
///
/// `logs` is a plain string prefix: the execution directory is formed by
/// concatenation, not path joining, so by convention the caller supplies a
/// prefix that already ends in a path separator (or is empty).
#[derive(Debug, Clone)]
pub struct Settings {
    /// Base URL of the scheduler server, without a trailing slash.
    pub server: String,
    /// Authentication token presented in the `token` header.
    pub token: String,
    /// Prefix under which per-execution directories are created.
    pub logs: String,
}

/// Why configuration resolution failed.
#[derive(PartialEq, Eq, Structural, Debug)]
pub enum SettingsError {
    /// No non-empty token could be resolved from the command line or the
    /// configuration source.
    MissingToken,
    /// The configuration source supplied no non-empty `server` value.
    MissingServer,
    /// The configuration source supplied no non-empty `logs` value.
    MissingLogs,
}

/// An optional configuration value that is present and non-empty.
pub open spec fn populated(v: Option<String>) -> bool {
    v is Some && v->Some_0@.len() > 0
}

/// The token that resolution uses: the command-line token when one was
/// given, otherwise the one from the configuration source.
pub open spec fn resolved_token(cli: Option<String>, cfg: Option<String>) -> Option<String> {
    if cli is Some {
        cli
    } else {
        cfg
    }
}

impl Settings {
    /// Resolve and validate the configuration.
    ///
    /// `cli_token` is the explicit command-line token, if any; the other
    /// three arguments are what the configuration source offered for each
    /// key, `None` when the key was absent. Succeeds exactly when the
    /// resolved token, the server and the logs prefix are all present and
    /// non-empty; the token is checked first, then the server, then the
    /// logs prefix.
    pub fn new(
        cli_token: Option<String>,
        server: Option<String>,
        cfg_token: Option<String>,
        logs: Option<String>,
    ) -> (r: Result<Settings, SettingsError>)
        ensures
            r is Ok <==> populated(resolved_token(cli_token, cfg_token)) && populated(server)
                && populated(logs),
            r is Ok ==> r->Ok_0.server == server->Some_0 && r->Ok_0.logs == logs->Some_0
                && r->Ok_0.token == resolved_token(cli_token, cfg_token)->Some_0,
            r == Result::<Settings, SettingsError>::Err(SettingsError::MissingToken) <==> !populated(
                resolved_token(cli_token, cfg_token),
            ),
            r == Result::<Settings, SettingsError>::Err(SettingsError::MissingServer) <==> populated(
                resolved_token(cli_token, cfg_token),
            ) && !populated(server),
            r == Result::<Settings, SettingsError>::Err(SettingsError::MissingLogs) <==> populated(
                resolved_token(cli_token, cfg_token),
            ) && populated(server) && !populated(logs),
    {
        let token_src: Option<String> = if cli_token.is_some() {
            cli_token
        } else {
            cfg_token
        };
        let token: String = match token_src {
            Option::Some(t) => {
                if t.as_str().unicode_len() == 0 {
                    return Result::Err(SettingsError::MissingToken);
                }
                t
            },
            Option::None => {
                return Result::Err(SettingsError::MissingToken);
            },
        };
        let server_v: String = match server {
            Option::Some(s) => {
                if s.as_str().unicode_len() == 0 {
                    return Result::Err(SettingsError::MissingServer);
                }
                s
            },
            Option::None => {
                return Result::Err(SettingsError::MissingServer);
            },
        };
        let logs_v: String = match logs {
            Option::Some(l) => {
                if l.as_str().unicode_len() == 0 {
                    return Result::Err(SettingsError::MissingLogs);
                }
                l
            },
            Option::None => {
                return Result::Err(SettingsError::MissingLogs);
            },
        };
        Result::Ok(Settings { server: server_v, token, logs: logs_v })
    }
}

} // verus!
