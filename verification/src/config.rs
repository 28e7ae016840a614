//! The service's configuration: its name and version, and how long it waits
//! before it exits.

use std::time::Duration;
use vstd::prelude::*;

verus! {

/// The timeout in seconds where none is configured.
pub const DEFAULT_TIMEOUT: u64 = 1;

/// The duration of `secs` whole seconds.
pub uninterp spec fn duration_of_secs(secs: u64) -> Duration;

/// `Duration::from_secs` gives the duration of that many whole seconds.
pub assume_specification[ Duration::from_secs ](secs: u64) -> (d: Duration)
    ensures
        d == duration_of_secs(secs),
;

/// A package manifest, as far as the service reads it.
pub struct Package {
    pub package: Version,
}

/// A package's name and version.
#[derive(Clone, Debug, Default)]
pub struct Version {
    pub name: String,
    pub version: String,
}

/// How long the service keeps running once it is told to stop: the timeout
/// in seconds, and the same as a duration.
#[derive(Debug, Default)]
pub struct Exec {
    pub timeout: u64,
    pub timeout_duration: Duration,
}

impl Clone for Exec {
    fn clone(&self) -> (copy: Exec)
        ensures
            copy == *self,
    {
        Exec { timeout: self.timeout, timeout_duration: self.timeout_duration }
    }
}

/// The configuration of a running service.
#[derive(Clone, Debug, Default)]
pub struct Config {
    pub version: Version,
    pub execution: Exec,
}

impl Config {
    /// The configuration for a manifest, a timeout in seconds and a version
    /// tag. Without a timeout it is one second; a tag replaces the
    /// manifest's version.
    pub fn new(manifest: Package, timeout: Option<u64>, tag: Option<String>) -> (config: Config)
        ensures
            config.version.name == manifest.package.name,
            config.version.version == (match tag {
                Some(tag) => tag,
                None => manifest.package.version,
            }),
            config.execution.timeout == (match timeout {
                Some(secs) => secs,
                None => DEFAULT_TIMEOUT,
            }),
            config.execution.timeout_duration == duration_of_secs(config.execution.timeout),
    {
        let timeout: u64 = match timeout {
            Some(secs) => secs,
            None => DEFAULT_TIMEOUT,
        };
        let execution = Exec { timeout, timeout_duration: Duration::from_secs(timeout) };
        let version = match tag {
            Some(tag) => tag,
            None => manifest.package.version,
        };
        Config { version: Version { name: manifest.package.name, version }, execution }
    }
}

} // verus!
