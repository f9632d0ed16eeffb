//! The job's configuration, checked as a whole before any work begins.

use vstd::prelude::*;
use crate::principal::{is_principal_text, principal_text_valid};

verus! {

/// Where the remote contract lives and how the job signs its calls.
pub struct IcpConfig {
    pub identity_pem_path: String,
    pub icp_domain: String,
    pub agent_canister_id: String,
}

/// Everything the job reads from its configuration document.
pub struct AppConfig {
    pub debug: bool,
    pub log_dir_file_name: String,
    pub icp_config: IcpConfig,
    pub database_url: String,
}

/// A key of the configuration document.
#[derive(Clone, Copy, Debug, PartialEq, Eq, Structural)]
pub enum ConfigKey {
    Debug,
    LogDirFileName,
    DatabaseUrl,
    IdentityPemPath,
    IcpDomain,
    AgentCanisterId,
}

/// Why a configuration cannot be used.
#[derive(Clone, Copy, Debug, PartialEq, Eq, Structural)]
pub enum ConfigError {
    Missing(ConfigKey),
    InvalidCanisterId,
}

/// The first key, in the document's order, whose value is absent.
pub open spec fn first_missing(
    debug: bool,
    log_dir_file_name: bool,
    database_url: bool,
    identity_pem_path: bool,
    icp_domain: bool,
    agent_canister_id: bool,
) -> Option<ConfigKey> {
    if !debug {
        Some(ConfigKey::Debug)
    } else if !log_dir_file_name {
        Some(ConfigKey::LogDirFileName)
    } else if !database_url {
        Some(ConfigKey::DatabaseUrl)
    } else if !identity_pem_path {
        Some(ConfigKey::IdentityPemPath)
    } else if !icp_domain {
        Some(ConfigKey::IcpDomain)
    } else if !agent_canister_id {
        Some(ConfigKey::AgentCanisterId)
    } else {
        None
    }
}

/// A configuration without `database_url` is never accepted: whatever the
/// other keys hold, some key is reported missing, and with `debug` and
/// `log_dir_file_name` present it is `database_url` itself; so
/// `AppConfig::from_parts` yields no configuration, partial or defaulted.
pub proof fn lemma_missing_database_url_refused(
    debug: bool,
    log_dir_file_name: bool,
    identity_pem_path: bool,
    icp_domain: bool,
    agent_canister_id: bool,
)
    ensures
        first_missing(
            debug,
            log_dir_file_name,
            false,
            identity_pem_path,
            icp_domain,
            agent_canister_id,
        ) is Some,
        debug && log_dir_file_name ==> first_missing(
            debug,
            log_dir_file_name,
            false,
            identity_pem_path,
            icp_domain,
            agent_canister_id,
        ) == Some(ConfigKey::DatabaseUrl),
{
}

impl AppConfig {
    /// Builds the configuration from the values found under each key. Every
    /// key is required, and the contract's identifier must be a principal.
    pub fn from_parts(
        debug: Option<bool>,
        log_dir_file_name: Option<String>,
        database_url: Option<String>,
        identity_pem_path: Option<String>,
        icp_domain: Option<String>,
        agent_canister_id: Option<String>,
    ) -> (r: Result<AppConfig, ConfigError>)
        ensures
            ({
                let missing = first_missing(
                    debug is Some,
                    log_dir_file_name is Some,
                    database_url is Some,
                    identity_pem_path is Some,
                    icp_domain is Some,
                    agent_canister_id is Some,
                );
                match missing {
                    Some(k) => r == Err::<AppConfig, ConfigError>(ConfigError::Missing(k)),
                    None => if principal_text_valid(agent_canister_id->0@) {
                        r == Ok::<AppConfig, ConfigError>(
                            AppConfig {
                                debug: debug->0,
                                log_dir_file_name: log_dir_file_name->0,
                                icp_config: IcpConfig {
                                    identity_pem_path: identity_pem_path->0,
                                    icp_domain: icp_domain->0,
                                    agent_canister_id: agent_canister_id->0,
                                },
                                database_url: database_url->0,
                            },
                        )
                    } else {
                        r == Err::<AppConfig, ConfigError>(ConfigError::InvalidCanisterId)
                    },
                }
            }),
    {
        let debug = match debug {
            Some(v) => v,
            None => return Err(ConfigError::Missing(ConfigKey::Debug)),
        };
        let log_dir_file_name = match log_dir_file_name {
            Some(v) => v,
            None => return Err(ConfigError::Missing(ConfigKey::LogDirFileName)),
        };
        let database_url = match database_url {
            Some(v) => v,
            None => return Err(ConfigError::Missing(ConfigKey::DatabaseUrl)),
        };
        let identity_pem_path = match identity_pem_path {
            Some(v) => v,
            None => return Err(ConfigError::Missing(ConfigKey::IdentityPemPath)),
        };
        let icp_domain = match icp_domain {
            Some(v) => v,
            None => return Err(ConfigError::Missing(ConfigKey::IcpDomain)),
        };
        let agent_canister_id = match agent_canister_id {
            Some(v) => v,
            None => return Err(ConfigError::Missing(ConfigKey::AgentCanisterId)),
        };
        let valid = is_principal_text(agent_canister_id.as_str());
        let config = AppConfig {
            debug,
            log_dir_file_name,
            icp_config: IcpConfig { identity_pem_path, icp_domain, agent_canister_id },
            database_url,
        };
        Self::with_canister_check(config, valid)
    }

    /// Accepts `config` when its contract's identifier was found to be a
    /// principal (`canister_valid`).
    pub fn with_canister_check(config: AppConfig, canister_valid: bool) -> (r: Result<AppConfig, ConfigError>)
        ensures
            r == if canister_valid {
                Ok::<AppConfig, ConfigError>(config)
            } else {
                Err::<AppConfig, ConfigError>(ConfigError::InvalidCanisterId)
            },
    {
        if canister_valid {
            Ok(config)
        } else {
            Err(ConfigError::InvalidCanisterId)
        }
    }
}

} // verus!
