//! The settings that are kept in a configuration file, as far as the
//! engine reads them.

use vstd::prelude::*;
use vstd::std_specs::convert::FromSpecImpl;
use crate::socks::AuthMode;

verus! {

/// How clients of the SOCKS5 listener prove who they are, as a
/// configuration file says it.
#[derive(Debug, Clone, PartialEq, Eq)]
pub enum AuthModeConfig {
    NoAuth,
    Password { username: String, password: String },
}

impl Default for AuthModeConfig {
    fn default() -> (mode: AuthModeConfig)
        ensures
            mode is NoAuth,
    {
        AuthModeConfig::NoAuth
    }
}

impl From<AuthModeConfig> for AuthMode {
    fn from(config: AuthModeConfig) -> (mode: AuthMode) {
        match config {
            AuthModeConfig::NoAuth => AuthMode::NoAuth,
            AuthModeConfig::Password { username, password } => AuthMode::Password {
                username,
                password,
            },
        }
    }
}

impl FromSpecImpl<AuthModeConfig> for AuthMode {
    open spec fn obeys_from_spec() -> bool {
        true
    }

    open spec fn from_spec(config: AuthModeConfig) -> AuthMode {
        match config {
            AuthModeConfig::NoAuth => AuthMode::NoAuth,
            AuthModeConfig::Password { username, password } => AuthMode::Password {
                username,
                password,
            },
        }
    }
}

} // verus!
