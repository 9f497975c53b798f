//! Config loader and validation errors.

use vstd::prelude::*;
use vstd::string::StringExecFns;

use crate::text::{debug_quoted, push_decimal, quote_debug, decimal_text};

verus! {

/// Typed errors the config loader returns.
#[derive(Debug)]
pub enum ConfigError {
    /// Reading the config file failed.
    Io {
        /// Path the loader was asked to open.
        path: String,
        /// The underlying I/O error, rendered.
        source: String,
    },
    /// YAML parse failure (the parser's message).
    Yaml(String),
    /// A `${ENV:NAME}` reference is malformed.
    InvalidSecretRef(String),
    /// A `${ENV:NAME}` reference names an unset environment variable.
    MissingEnvVar(String),
    /// A `${ENV:NAME}` reference names an empty environment variable.
    EmptyEnvVar(String),
    /// `EH_CONFIG` is unset and no path was supplied.
    NoConfigPath,
    /// A binding references an undeclared entity.
    UnknownEntityInBinding(String),
    /// A binding references an undeclared source.
    UnknownSourceInBinding(String),
    /// A binding's field map names a field its entity does not declare.
    UnknownFieldInBinding {
        /// Entity name.
        entity: String,
        /// Field name.
        field: String,
    },
    /// A routing rule targets an undeclared source.
    UnknownTargetInRoute(String),
    /// A routing rule's `when.entity` is undeclared.
    UnknownEntityInRoute(String),
    /// The file's `version:` is not the supported one.
    UnsupportedVersion {
        /// Version found in the file.
        found: u32,
        /// Version this loader supports.
        supported: u32,
    },
}

/// A config error by value.
pub enum ConfigErrorView {
    Io(Seq<char>, Seq<char>),
    Yaml(Seq<char>),
    InvalidSecretRef(Seq<char>),
    MissingEnvVar(Seq<char>),
    EmptyEnvVar(Seq<char>),
    NoConfigPath,
    UnknownEntityInBinding(Seq<char>),
    UnknownSourceInBinding(Seq<char>),
    UnknownFieldInBinding(Seq<char>, Seq<char>),
    UnknownTargetInRoute(Seq<char>),
    UnknownEntityInRoute(Seq<char>),
    UnsupportedVersion(u32, u32),
}

impl View for ConfigError {
    type V = ConfigErrorView;

    open spec fn view(&self) -> ConfigErrorView {
        match self {
            ConfigError::Io { path, source } => ConfigErrorView::Io(path@, source@),
            ConfigError::Yaml(m) => ConfigErrorView::Yaml(m@),
            ConfigError::InvalidSecretRef(s) => ConfigErrorView::InvalidSecretRef(s@),
            ConfigError::MissingEnvVar(s) => ConfigErrorView::MissingEnvVar(s@),
            ConfigError::EmptyEnvVar(s) => ConfigErrorView::EmptyEnvVar(s@),
            ConfigError::NoConfigPath => ConfigErrorView::NoConfigPath,
            ConfigError::UnknownEntityInBinding(s) => ConfigErrorView::UnknownEntityInBinding(s@),
            ConfigError::UnknownSourceInBinding(s) => ConfigErrorView::UnknownSourceInBinding(s@),
            ConfigError::UnknownFieldInBinding { entity, field } => ConfigErrorView::UnknownFieldInBinding(
                entity@,
                field@,
            ),
            ConfigError::UnknownTargetInRoute(s) => ConfigErrorView::UnknownTargetInRoute(s@),
            ConfigError::UnknownEntityInRoute(s) => ConfigErrorView::UnknownEntityInRoute(s@),
            ConfigError::UnsupportedVersion { found, supported } => ConfigErrorView::UnsupportedVersion(
                *found,
                *supported,
            ),
        }
    }
}


/// The text a config error displays.
pub open spec fn config_error_text(e: ConfigErrorView) -> Seq<char> {
    match e {
        ConfigErrorView::Io(path, source) => "failed to read config file "@ + debug_quoted(path) + ": "@ + source,
        ConfigErrorView::Yaml(m) => "config YAML is invalid: "@ + m,
        ConfigErrorView::InvalidSecretRef(s) => "invalid secret reference "@ + debug_quoted(s)
            + "; expected form `${ENV:NAME}`"@,
        ConfigErrorView::MissingEnvVar(s) => "required environment variable "@ + debug_quoted(s)
            + " is not set (referenced by a config secret); the gateway refuses to start with missing secrets"@,
        ConfigErrorView::EmptyEnvVar(s) => "environment variable "@ + debug_quoted(s) + " is set but empty"@,
        ConfigErrorView::NoConfigPath => "EH_CONFIG is not set and no --config path was supplied"@,
        ConfigErrorView::UnknownEntityInBinding(s) => "binding references unknown entity "@ + debug_quoted(s),
        ConfigErrorView::UnknownSourceInBinding(s) => "binding references unknown source "@ + debug_quoted(s),
        ConfigErrorView::UnknownFieldInBinding(entity, field) => "binding for entity "@ + debug_quoted(entity)
            + " references unknown field "@ + debug_quoted(field) + " in field_map"@,
        ConfigErrorView::UnknownTargetInRoute(s) => "routing rule targets unknown source "@ + debug_quoted(s),
        ConfigErrorView::UnknownEntityInRoute(s) => "routing rule's `when.entity` is unknown: "@ + debug_quoted(s),
        ConfigErrorView::UnsupportedVersion(found, supported) => "unsupported config version "@ + decimal_text(
            found as nat,
        ) + "; supported: "@ + decimal_text(supported as nat),
    }
}

fn with_quoted(prefix: &str, s: &str, suffix: &str) -> (r: String)
    ensures
        r@ == prefix@ + debug_quoted(s@) + suffix@,
{
    let mut m = String::from_str(prefix);
    m.append(quote_debug(s).as_str());
    m.append(suffix);
    m
}

fn after_quoted(prefix: &str, s: &str) -> (r: String)
    ensures
        r@ == prefix@ + debug_quoted(s@),
{
    let mut m = String::from_str(prefix);
    m.append(quote_debug(s).as_str());
    m
}

impl ConfigError {
    /// The human-readable message of this error.
    pub fn message(&self) -> (r: String)
        ensures
            r@ == config_error_text(self@),
    {
        match self {
            ConfigError::Io { path, source } => {
                let mut m = with_quoted("failed to read config file ", path.as_str(), ": ");
                m.append(source.as_str());
                m
            },
            ConfigError::Yaml(e) => {
                let mut m = String::from_str("config YAML is invalid: ");
                m.append(e.as_str());
                m
            },
            ConfigError::InvalidSecretRef(s) => with_quoted(
                "invalid secret reference ",
                s.as_str(),
                "; expected form `${ENV:NAME}`",
            ),
            ConfigError::MissingEnvVar(s) => with_quoted(
                "required environment variable ",
                s.as_str(),
                " is not set (referenced by a config secret); the gateway refuses to start with missing secrets",
            ),
            ConfigError::EmptyEnvVar(s) => with_quoted("environment variable ", s.as_str(), " is set but empty"),
            ConfigError::NoConfigPath => String::from_str("EH_CONFIG is not set and no --config path was supplied"),
            ConfigError::UnknownEntityInBinding(s) => after_quoted("binding references unknown entity ", s.as_str()),
            ConfigError::UnknownSourceInBinding(s) => after_quoted("binding references unknown source ", s.as_str()),
            ConfigError::UnknownFieldInBinding { entity, field } => {
                let mut m = with_quoted("binding for entity ", entity.as_str(), " references unknown field ");
                m.append(quote_debug(field.as_str()).as_str());
                m.append(" in field_map");
                m
            },
            ConfigError::UnknownTargetInRoute(s) => after_quoted("routing rule targets unknown source ", s.as_str()),
            ConfigError::UnknownEntityInRoute(s) => after_quoted("routing rule's `when.entity` is unknown: ", s.as_str()),
            ConfigError::UnsupportedVersion { found, supported } => {
                let mut m = String::from_str("unsupported config version ");
                push_decimal(&mut m, *found as u64);
                m.append("; supported: ");
                push_decimal(&mut m, *supported as u64);
                m
            },
        }
    }
}

} // verus!
