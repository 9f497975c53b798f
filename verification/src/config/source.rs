//! Per-kind source configurations.

use vstd::prelude::*;

use crate::config::secret::SecretRef;

verus! {

/// MySQL SSL mode.
#[derive(Debug, Clone, Copy, PartialEq, Eq, Hash, Structural)]
pub enum MysqlSslMode {
    /// No TLS.
    Disabled,
    /// TLS if the server offers it (the default).
    Preferred,
    /// TLS required, no certificate verification.
    Required,
    /// TLS required, server certificate verified against a CA.
    VerifyCa,
    /// TLS required, CA verified and hostname matched.
    VerifyIdentity,
}

impl Default for MysqlSslMode {
    fn default() -> (r: Self)
        ensures
            r == MysqlSslMode::Preferred,
    {
        MysqlSslMode::Preferred
    }
}

/// MySQL connector configuration.
#[derive(Debug)]
pub struct MysqlSourceConfig {
    /// Hostname or IP address of the server.
    pub host: String,
    /// TCP port (3306 when omitted).
    pub port: u16,
    /// Database name.
    pub database: String,
    /// Username.
    pub username: String,
    /// Reference to the password secret.
    pub password: SecretRef,
    /// SSL / TLS mode.
    pub ssl_mode: MysqlSslMode,
    /// Max connections per pod.
    pub max_pool_size: u32,
}

/// The port used when the YAML omits one.
pub fn default_mysql_port() -> (r: u16)
    ensures
        r == 3306,
{
    3306
}

/// The pool size used when the YAML omits one.
pub fn default_pool_size() -> (r: u32)
    ensures
        r == 8,
{
    8
}

/// A registered source, tagged by kind.
#[derive(Debug)]
pub enum SourceConfig {
    /// MySQL connector configuration.
    Mysql(MysqlSourceConfig),
}

impl SourceConfig {
    /// The lowercase kind identifier.
    pub fn kind(&self) -> (r: &'static str)
        ensures
            r@ == "mysql"@,
    {
        match self {
            SourceConfig::Mysql(_) => "mysql",
        }
    }
}

} // verus!
