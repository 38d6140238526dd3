//! Error kinds of the launcher core. Construction-time failures are fatal
//! to the process; the one runtime failure, a launch that cannot be
//! resolved, is surfaced to the caller of the event dispatcher.

use vstd::prelude::*;

verus! {

/// A configuration could not be assembled.
#[derive(Clone, Copy, Debug, PartialEq, Eq, Structural)]
pub enum ConfigError {
    /// A color string is not of the `"R-G-B"` form with each channel a
    /// decimal number below 256.
    BadColor,
    /// The configuration file's text is not a well-formed TOML document.
    BadToml,
    /// A required environment variable is unset.
    MissingEnv,
}

/// A confirmed selection could not be launched.
#[derive(Clone, Copy, Debug, PartialEq, Eq, Structural)]
pub enum LaunchError {
    /// The selected name is not present in the application index.
    NoSuchProgram,
    /// The resolved path could not be spawned as a process.
    SpawnFailed,
}

/// The command line could not be parsed into run options.
#[derive(Clone, Copy, Debug, PartialEq, Eq, Structural)]
pub enum ArgsError {
    /// Help was requested; the caller prints usage and exits.
    HelpRequested,
    /// A config-path option was given without a following path.
    MissingConfigPath,
}

} // verus!
