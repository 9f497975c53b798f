//! Where the configuration file is found.

use vstd::prelude::*;

use crate::config::errors::{ConfigError, ConfigErrorView};

verus! {

/// The environment variable that names the configuration file.
pub const EH_CONFIG_ENV: &'static str = "EH_CONFIG";

/// The configuration path from the value of `EH_CONFIG` (`None` when
/// unset): without it there is no configuration to load.
pub fn config_path(env_value: Option<String>) -> (r: Result<String, ConfigError>)
    ensures
        match env_value {
            Some(p) => r matches Ok(x) && x@ == p@,
            None => r matches Err(e) && e@ == ConfigErrorView::NoConfigPath,
        },
{
    match env_value {
        Some(p) => Ok(p),
        None => Err(ConfigError::NoConfigPath),
    }
}

} // verus!
