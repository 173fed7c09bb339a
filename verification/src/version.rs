//! The version of the underlying version-control tool: extracting it from the
//! tool's `version` output and checking feature requirements against it.
//!
//! The extraction leans on two outside crates, each behind one trusted
//! wrapper: a regular-expression capture pulls the version-shaped word out of
//! the output line, and the semantic-versioning parser reads its numbers.  The
//! requirement check itself is verified here.

use vstd::prelude::*;
use crate::errors::ConfigError;
use crate::text;

verus! {

/// A parsed tool version: the release numbers, and whether a pre-release tag
/// was present (a pre-release satisfies no plain requirement).
#[derive(Clone, Copy, Debug, PartialEq, Eq, Structural)]
pub struct GitVersion {
    pub major: u64,
    pub minor: u64,
    pub patch: u64,
    pub prerelease: bool,
}

/// The named capture of the fixed version pattern on `s`: the third of three
/// single-space-separated words of the leftmost match, `None` where `s` has no
/// such run of words.  Names the result of `regex::Regex::captures`, a
/// function of `s` alone.
pub uninterp spec fn version_capture(s: Seq<char>) -> Option<Seq<char>>;

/// Relies on regex's `Regex::new` and `Regex::captures`: with the fixed
/// pattern below, whether and what the group `version` captures depends on
/// the haystack alone.
#[verifier::external_body]
fn capture_version(s: &str) -> (r: Option<String>)
    ensures
        match r {
            Some(t) => version_capture(s@) == Some(t@),
            None => version_capture(s@) is None,
        },
{
    let re = regex::Regex::new(r"[^ ]+ [^ ]+ (?P<version>[^ ]+)").ok()?;
    Some(re.captures(s)?.name("version")?.as_str().to_string())
}

/// The semantic-version reading of `s`: major, minor, patch, and whether a
/// pre-release tag is present; `None` where `s` is not a semantic version.
/// Names the result of `semver::Version::parse`, a function of `s` alone.
pub uninterp spec fn semver_reading(s: Seq<char>) -> Option<(u64, u64, u64, bool)>;

/// Relies on semver's `Version::parse`: it accepts exactly the
/// semantic-version grammar, and the outcome depends on `s` alone.
#[verifier::external_body]
fn parse_semver(s: &str) -> (r: Option<GitVersion>)
    ensures
        match r {
            Some(v) => semver_reading(s@) == Some((v.major, v.minor, v.patch, v.prerelease)),
            None => semver_reading(s@) is None,
        },
{
    match semver::Version::parse(s) {
        Ok(v) => Some(
            GitVersion {
                major: v.major,
                minor: v.minor,
                patch: v.patch,
                prerelease: !v.pre.is_empty(),
            },
        ),
        Err(_) => None,
    }
}

/// `v` satisfies a `>=major.minor` requirement under the semantic-versioning
/// rules: a pre-release version satisfies no requirement that names none, and
/// otherwise the release numbers decide, minor ties included.
pub open spec fn spec_version_at_least(v: GitVersion, req_major: u64, req_minor: u64) -> bool {
    !v.prerelease && (v.major > req_major || (v.major == req_major && v.minor >= req_minor))
}

impl GitVersion {
    /// Whether this version satisfies a `>=major.minor` requirement.
    pub fn at_least(&self, req_major: u64, req_minor: u64) -> (r: bool)
        ensures
            r == spec_version_at_least(*self, req_major, req_minor),
    {
        !self.prerelease && (self.major > req_major || (self.major == req_major && self.minor
            >= req_minor))
    }

    /// The `major.minor.patch` rendering of this version.
    pub open spec fn spec_render(&self) -> Seq<char> {
        text::spec_dec_string(self.major as int) + "."@ + text::spec_dec_string(self.minor as int)
            + "."@ + text::spec_dec_string(self.patch as int)
    }

    /// Renders the release numbers as `major.minor.patch`.
    pub fn render(&self) -> (r: String)
        ensures
            r@ == self.spec_render(),
    {
        let mut r = text::u64_string(self.major);
        r.append(".");
        let m = text::u64_string(self.minor);
        r.append(m.as_str());
        r.append(".");
        let p = text::u64_string(self.patch);
        r.append(p.as_str());
        r
    }
}

/// The `major.minor` rendering of a requirement.
pub open spec fn spec_requirement_render(req_major: u64, req_minor: u64) -> Seq<char> {
    text::spec_dec_string(req_major as int) + "."@ + text::spec_dec_string(req_minor as int)
}

/// Reads the tool version out of the (whole) output of its `version` command:
/// the third space-separated word of the trimmed output, read as a semantic
/// version.
pub fn git_version(output: &str) -> (r: Result<GitVersion, crate::errors::VersionError>)
    ensures
        match r {
            Ok(v) => version_capture(text::spec_trim(output@)) matches Some(tok)
                && semver_reading(tok) == Some((v.major, v.minor, v.patch, v.prerelease)),
            Err(e) => match e {
                crate::errors::VersionError::NoVersionToken(raw) => raw@ == text::spec_trim(
                    output@,
                ) && version_capture(text::spec_trim(output@)) is None,
                crate::errors::VersionError::NotSemver(tok) => version_capture(
                    text::spec_trim(output@),
                ) == Some(tok@) && semver_reading(tok@) is None,
            },
        },
{
    let trimmed = text::trim(output);
    match capture_version(trimmed) {
        None => Err(crate::errors::VersionError::NoVersionToken(trimmed.to_owned())),
        Some(tok) => match parse_semver(tok.as_str()) {
            Some(v) => Ok(v),
            None => Err(crate::errors::VersionError::NotSemver(tok)),
        },
    }
}

/// Checks that the tool is new enough for a flag; the error carries the
/// running version, the requirement, and the flag name.
pub fn git_check_version(version: &GitVersion, req_major: u64, req_minor: u64, feature: &str) -> (r:
    Result<(), ConfigError>)
    ensures
        r is Ok <==> spec_version_at_least(*version, req_major, req_minor),
        r matches Err(e) ==> e matches ConfigError::OldGit(v, req, f) && v@ == version.spec_render()
            && req@ == spec_requirement_render(req_major, req_minor) && f@ == feature@,
{
    if version.at_least(req_major, req_minor) {
        Ok(())
    } else {
        let mut req = text::u64_string(req_major);
        req.append(".");
        let m = text::u64_string(req_minor);
        req.append(m.as_str());
        Err(ConfigError::OldGit(version.render(), req, feature.to_owned()))
    }
}

} // verus!
