//! Error values of the library.
//!
//! Each error carries the offending input and renders the message the run
//! reports.  The variants here cover configuration resolution and the
//! reading of the tool's version; range resolution and the picker carry
//! their own error types beside their logic.

use vstd::prelude::*;

verus! {

/// A failure while resolving the run configuration.
#[derive(Debug)]
pub enum ConfigError {
    /// The persisted display-mode setting does not name a mode.
    BadMode(String),
    /// A setting that must be a count is not an unsigned integer: key, value.
    BadInt(String, String),
    /// A setting that must be a boolean is neither `true` nor `false`: key, value.
    BadBool(String, String),
    /// A flag needs a newer version of the version-control tool:
    /// running version, required version, flag name.
    OldGit(String, String, String),
}

impl ConfigError {
    /// The message the run reports for this error.
    pub open spec fn spec_message(&self) -> Seq<char> {
        match self {
            ConfigError::BadMode(v) => "failed to parse smash.mode '"@ + v@ + "'"@,
            ConfigError::BadInt(k, _v) => "Failed to parse key '"@ + k@ + "' as u32"@,
            ConfigError::BadBool(k, _v) => "Failed to parse key '"@ + k@ + "' as bool"@,
            ConfigError::OldGit(v, req, f) => "git version "@ + v@ + " does not match >="@ + req@
                + " required for "@ + f@,
        }
    }

    /// Renders the message.
    pub fn message(&self) -> (r: String)
        ensures
            r@ == self.spec_message(),
    {
        match self {
            ConfigError::BadMode(v) => {
                let mut r = "failed to parse smash.mode '".to_owned();
                r.append(v.as_str());
                r.append("'");
                r
            },
            ConfigError::BadInt(k, _v) => {
                let mut r = "Failed to parse key '".to_owned();
                r.append(k.as_str());
                r.append("' as u32");
                r
            },
            ConfigError::BadBool(k, _v) => {
                let mut r = "Failed to parse key '".to_owned();
                r.append(k.as_str());
                r.append("' as bool");
                r
            },
            ConfigError::OldGit(v, req, f) => {
                let mut r = "git version ".to_owned();
                r.append(v.as_str());
                r.append(" does not match >=");
                r.append(req.as_str());
                r.append(" required for ");
                r.append(f.as_str());
                r
            },
        }
    }
}

/// A failure to read the tool's own version from its `version` output.
#[derive(Debug)]
pub enum VersionError {
    /// No version-shaped word was found: the raw output.
    NoVersionToken(String),
    /// The captured word is not a semantic version: the word.
    NotSemver(String),
}

impl VersionError {
    /// The message the run reports for this error.
    pub open spec fn spec_message(&self) -> Seq<char> {
        match self {
            VersionError::NoVersionToken(raw) => "Failed to match git version from '"@ + raw@
                + "'"@,
            VersionError::NotSemver(tok) => "failed to parse version from '"@ + tok@ + "'"@,
        }
    }

    /// Renders the message.
    pub fn message(&self) -> (r: String)
        ensures
            r@ == self.spec_message(),
    {
        match self {
            VersionError::NoVersionToken(raw) => {
                let mut r = "Failed to match git version from '".to_owned();
                r.append(raw.as_str());
                r.append("'");
                r
            },
            VersionError::NotSemver(tok) => {
                let mut r = "failed to parse version from '".to_owned();
                r.append(tok.as_str());
                r.append("'");
                r
            },
        }
    }
}

} // verus!
