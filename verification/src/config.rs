//! Configuration file formats and configuration errors.
//!
//! The formats are a closed list keyed by file extension; the errors
//! cover the failure modes of configuration management. Reading,
//! writing and syntax-checking configuration files is the business of
//! the shell around the library.

use vstd::prelude::*;
use vstd::string::StringExecFns;

use crate::text::{chars_is, lower_chars, lower_seq};

verus! {

/// The configuration file formats ParamGuard accepts.
///
/// Supported formats:
/// - JSON (.json)
/// - YAML (.yaml, .yml)
/// - TOML (.toml)
/// - INI (.ini)
/// - Environment variables (.env)
/// - Generic config (.cfg)
/// - Nix (.nix)
#[derive(Debug, Clone, PartialEq, Eq, Structural)]
pub enum ConfigFormat {
    /// JSON format (.json)
    Json,
    /// YAML format (.yaml, .yml)
    Yaml,
    /// TOML format (.toml)
    Toml,
    /// INI format (.ini)
    Ini,
    /// Environment variables format (.env)
    Env,
    /// Generic config format (.cfg)
    Cfg,
    /// Nix format (.nix)
    Nix,
}

impl ConfigFormat {
    /// The canonical extension of this format.
    pub open spec fn spec_extension(self) -> Seq<char> {
        match self {
            ConfigFormat::Json => "json"@,
            ConfigFormat::Yaml => "yaml"@,
            ConfigFormat::Toml => "toml"@,
            ConfigFormat::Ini => "ini"@,
            ConfigFormat::Env => "env"@,
            ConfigFormat::Cfg => "cfg"@,
            ConfigFormat::Nix => "nix"@,
        }
    }

    /// Returns the file extension associated with this format.
    pub fn as_extension(&self) -> (r: &'static str)
        ensures
            r@ == self.spec_extension(),
    {
        match self {
            ConfigFormat::Json => "json",
            ConfigFormat::Yaml => "yaml",
            ConfigFormat::Toml => "toml",
            ConfigFormat::Ini => "ini",
            ConfigFormat::Env => "env",
            ConfigFormat::Cfg => "cfg",
            ConfigFormat::Nix => "nix",
        }
    }

    /// The format a file extension names, after case folding; `None`
    /// for an unsupported extension.
    pub open spec fn spec_from_extension(ext: Seq<char>) -> Option<ConfigFormat> {
        let low = lower_seq(ext);
        if low == "json"@ {
            Some(ConfigFormat::Json)
        } else if low == "yaml"@ || low == "yml"@ {
            Some(ConfigFormat::Yaml)
        } else if low == "toml"@ {
            Some(ConfigFormat::Toml)
        } else if low == "ini"@ {
            Some(ConfigFormat::Ini)
        } else if low == "env"@ {
            Some(ConfigFormat::Env)
        } else if low == "cfg"@ {
            Some(ConfigFormat::Cfg)
        } else if low == "nix"@ {
            Some(ConfigFormat::Nix)
        } else {
            None
        }
    }

    /// Attempts to derive a format from a file extension.
    pub fn from_extension(ext: &str) -> (r: Option<ConfigFormat>)
        ensures
            r == Self::spec_from_extension(ext@),
    {
        let low = lower_chars(ext);
        if chars_is(&low, "json") {
            Some(ConfigFormat::Json)
        } else if chars_is(&low, "yaml") || chars_is(&low, "yml") {
            Some(ConfigFormat::Yaml)
        } else if chars_is(&low, "toml") {
            Some(ConfigFormat::Toml)
        } else if chars_is(&low, "ini") {
            Some(ConfigFormat::Ini)
        } else if chars_is(&low, "env") {
            Some(ConfigFormat::Env)
        } else if chars_is(&low, "cfg") {
            Some(ConfigFormat::Cfg)
        } else if chars_is(&low, "nix") {
            Some(ConfigFormat::Nix)
        } else {
            None
        }
    }

    /// Whether the given extension names a supported format.
    pub fn is_valid_extension(ext: &str) -> (r: bool)
        ensures
            r == Self::spec_from_extension(ext@) is Some,
    {
        Self::from_extension(ext).is_some()
    }

    /// The starter content of a fresh file of this format.
    pub open spec fn spec_default_content(self) -> Seq<char> {
        match self {
            ConfigFormat::Json => "{}"@,
            ConfigFormat::Yaml => "---"@,
            ConfigFormat::Toml => ""@,
            ConfigFormat::Ini => ""@,
            ConfigFormat::Env => ""@,
            ConfigFormat::Cfg => "# Configuration File"@,
            ConfigFormat::Nix => "{ }"@,
        }
    }

    /// Returns the default content for a new file of this format.
    pub fn get_default_content(&self) -> (r: &'static str)
        ensures
            r@ == self.spec_default_content(),
    {
        match self {
            ConfigFormat::Json => "{}",
            ConfigFormat::Yaml => "---",
            ConfigFormat::Toml | ConfigFormat::Ini | ConfigFormat::Env => "",
            ConfigFormat::Cfg => "# Configuration File",
            ConfigFormat::Nix => "{ }",
        }
    }

    /// Returns every supported file extension.
    pub fn supported_extensions() -> (r: Vec<&'static str>)
        ensures
            r@.len() == 8,
            r@[0]@ == "json"@,
            r@[1]@ == "yaml"@,
            r@[2]@ == "yml"@,
            r@[3]@ == "toml"@,
            r@[4]@ == "ini"@,
            r@[5]@ == "env"@,
            r@[6]@ == "cfg"@,
            r@[7]@ == "nix"@,
    {
        let mut v: Vec<&'static str> = Vec::new();
        v.push("json");
        v.push("yaml");
        v.push("yml");
        v.push("toml");
        v.push("ini");
        v.push("env");
        v.push("cfg");
        v.push("nix");
        v
    }
}

/// The class of an I/O failure, as far as the configuration errors
/// care: carried by [`ConfigError::ReadError`] in place of the
/// operating system's error value.
#[derive(Debug, Clone, Copy, PartialEq, Eq, Structural)]
pub enum IoFailure {
    /// The file does not exist.
    NotFound,
    /// The file may not be read or written.
    PermissionDenied,
    /// Any other I/O failure.
    Other,
}

/// Errors of configuration management.
#[derive(Debug, Clone, PartialEq, Eq)]
pub enum ConfigError {
    /// Reading from or writing to a file failed; carries the failure
    /// class and a short description.
    ReadError(IoFailure, String),
    /// A file's format is invalid or unsupported.
    InvalidFormat(String),
    /// Parsing a configuration file failed.
    ParseError(String),
    /// Configuration validation failed.
    ValidationError(String),
    /// A configuration with this name already exists.
    ConfigExists(String),
    /// No configuration with this name exists.
    ConfigNotFound(String),
    /// Permission was denied while accessing a configuration.
    PermissionDenied(String),
}

impl ConfigError {
    /// Returns true if the error is related to file access permissions.
    pub fn is_permission_error(&self) -> (r: bool)
        ensures
            r == (self matches ConfigError::PermissionDenied(_) || self matches ConfigError::ReadError(
                IoFailure::PermissionDenied,
                _,
            )),
    {
        match self {
            ConfigError::PermissionDenied(_) => true,
            ConfigError::ReadError(IoFailure::PermissionDenied, _) => true,
            _ => false,
        }
    }

    /// Returns true if the error is related to a missing configuration.
    pub fn is_not_found_error(&self) -> (r: bool)
        ensures
            r == (self matches ConfigError::ConfigNotFound(_) || self matches ConfigError::ReadError(
                IoFailure::NotFound,
                _,
            )),
    {
        match self {
            ConfigError::ConfigNotFound(_) => true,
            ConfigError::ReadError(IoFailure::NotFound, _) => true,
            _ => false,
        }
    }

    /// Returns true if the error is related to invalid format or parsing.
    pub fn is_format_error(&self) -> (r: bool)
        ensures
            r == (self matches ConfigError::InvalidFormat(_) || self matches ConfigError::ParseError(
                _,
            )),
    {
        match self {
            ConfigError::InvalidFormat(_) | ConfigError::ParseError(_) => true,
            _ => false,
        }
    }

    /// The user-facing message of this error.
    pub open spec fn spec_user_friendly_message(&self) -> Seq<char> {
        match self {
            ConfigError::ReadError(_, m) => "Unable to access configuration file: "@ + m@,
            ConfigError::InvalidFormat(m) => "Configuration format is not valid: "@ + m@,
            ConfigError::ParseError(m) => "Configuration content is not valid: "@ + m@,
            ConfigError::ValidationError(m) => "Configuration validation failed: "@ + m@,
            ConfigError::ConfigExists(name) => "Configuration '"@ + name@ + "' already exists"@,
            ConfigError::ConfigNotFound(name) => "Configuration file '"@ + name@
                + "' could not be found"@,
            ConfigError::PermissionDenied(m) => "Permission denied: "@ + m@,
        }
    }

    /// Returns a user-friendly error message for display purposes.
    pub fn user_friendly_message(&self) -> (r: String)
        ensures
            r@ == self.spec_user_friendly_message(),
    {
        match self {
            ConfigError::ReadError(_, m) => {
                let mut s = String::from_str("Unable to access configuration file: ");
                s.append(m.as_str());
                s
            },
            ConfigError::InvalidFormat(m) => {
                let mut s = String::from_str("Configuration format is not valid: ");
                s.append(m.as_str());
                s
            },
            ConfigError::ParseError(m) => {
                let mut s = String::from_str("Configuration content is not valid: ");
                s.append(m.as_str());
                s
            },
            ConfigError::ValidationError(m) => {
                let mut s = String::from_str("Configuration validation failed: ");
                s.append(m.as_str());
                s
            },
            ConfigError::ConfigExists(name) => {
                let mut s = String::from_str("Configuration '");
                s.append(name.as_str());
                s.append("' already exists");
                s
            },
            ConfigError::ConfigNotFound(name) => {
                let mut s = String::from_str("Configuration file '");
                s.append(name.as_str());
                s.append("' could not be found");
                s
            },
            ConfigError::PermissionDenied(m) => {
                let mut s = String::from_str("Permission denied: ");
                s.append(m.as_str());
                s
            },
        }
    }
}

} // verus!
