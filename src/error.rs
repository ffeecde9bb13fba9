//! Error kinds that cross the collector's public boundary.
use vstd::prelude::*;

verus! {

#[verifier::external_type_specification]
#[verifier::external_body]
pub struct ExIoError(std::io::Error);

#[verifier::external_type_specification]
#[verifier::external_body]
pub struct ExTomlError(toml::de::Error);

/// Errors that can occur in data collectors.
#[derive(Debug)]
pub enum CollectorError {
    /// The external tool could not be spawned.
    SubprocessSpawn(String),
    /// The external tool or the worker ended unexpectedly.
    SubprocessTerminated(String),
    /// Output could not be parsed.
    ParseError(String),
    /// Reading or writing failed.
    IoError(std::io::Error),
}

/// Errors that can occur when sending alerts.
#[derive(Debug)]
pub enum AlertError {
    /// The notification could not be delivered.
    NotificationFailed(String),
    /// Too many alerts in the current window.
    RateLimitExceeded,
    /// Reading or writing failed.
    IoError(std::io::Error),
}

/// Errors that can occur while loading configuration.
#[derive(Debug)]
pub enum ConfigError {
    /// The file could not be read.
    ReadError(String),
    /// The file could not be parsed.
    ParseError(String),
    /// A value is out of its accepted range.
    ValidationError(String),
    /// Reading failed.
    IoError(std::io::Error),
    /// The TOML text is malformed.
    TomlError(toml::de::Error),
}

} // verus!
