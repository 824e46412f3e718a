//! Compatibility-mode detection: maps the gateway's self-reported version
//! string to one of the two supported schema dialects, or reports that the
//! version is unsupported.

use vstd::prelude::*;

use crate::text::{chars_eq, ends_with_exec, str_chars};

verus! {

/// The schema dialect a gateway of a given version speaks.
#[derive(Clone, Copy, Debug, PartialEq, Eq, Structural)]
pub enum CompatibilityMode {
    /// Versions before 0.13.0: the "APIs + global/targeted plugins" model.
    LegacyApis,
    /// Versions from 0.13.0 up to (excluding) 0.15.0: services and routes.
    ServiceRoute,
}

/// Why no compatibility mode could be selected.
#[derive(Clone, Copy, Debug, PartialEq, Eq, Structural)]
pub enum VersionError {
    /// The reported version string is not a well-formed semantic version.
    Unparseable,
    /// The version is at or above the highest supported threshold.
    Unsupported,
}

/// A semantic version reduced to what threshold comparisons need: the
/// numeric core and whether a pre-release tag is present (a pre-release
/// of a version orders strictly below the plain version).
pub struct ParsedVersion {
    pub major: u64,
    pub minor: u64,
    pub patch: u64,
    /// The pre-release tag, empty when the version is a plain release.
    pub pre: String,
}

/// Semantic-version order against a plain (no pre-release) threshold:
/// the numeric core is lexicographically smaller, or it is equal and the
/// compared version carries a pre-release tag.
pub open spec fn version_below(
    major: int,
    minor: int,
    patch: int,
    has_pre: bool,
    t_major: int,
    t_minor: int,
    t_patch: int,
) -> bool {
    ||| major < t_major
    ||| (major == t_major && minor < t_minor)
    ||| (major == t_major && minor == t_minor && patch < t_patch)
    ||| (major == t_major && minor == t_minor && patch == t_patch && has_pre)
}

/// Selects the dialect for a parsed version: below 0.13.0 the gateway only
/// speaks the legacy model; from 0.13.0 up to (excluding) 0.15.0 it speaks
/// services and routes; anything at or above 0.15.0 is unsupported.
pub fn select_mode(major: u64, minor: u64, patch: u64, has_pre: bool) -> (r: Result<
    CompatibilityMode,
    VersionError,
>)
    ensures
        version_below(major as int, minor as int, patch as int, has_pre, 0, 13, 0) ==> r == Ok::<
            CompatibilityMode,
            VersionError,
        >(CompatibilityMode::LegacyApis),
        !version_below(major as int, minor as int, patch as int, has_pre, 0, 13, 0)
            && version_below(major as int, minor as int, patch as int, has_pre, 0, 15, 0) ==> r
            == Ok::<CompatibilityMode, VersionError>(CompatibilityMode::ServiceRoute),
        !version_below(major as int, minor as int, patch as int, has_pre, 0, 15, 0) ==> r == Err::<
            CompatibilityMode,
            VersionError,
        >(VersionError::Unsupported),
{
    if major == 0 && (minor < 13 || (minor == 13 && patch == 0 && has_pre)) {
        Ok(CompatibilityMode::LegacyApis)
    } else if major == 0 && (minor < 15 || (minor == 15 && patch == 0 && has_pre)) {
        Ok(CompatibilityMode::ServiceRoute)
    } else {
        Err(VersionError::Unsupported)
    }
}

/// The suffix that marks an enterprise-edition version string.
pub open spec fn ee_suffix() -> Seq<char> {
    "enterprise-edition"@
}

/// A version string is enterprise-edition when it ends with the marker
/// suffix.
pub open spec fn spec_is_enterprise(s: Seq<char>) -> bool {
    s.len() >= ee_suffix().len() && s.subrange(
        s.len() - ee_suffix().len(),
        s.len() as int,
    ) == ee_suffix()
}

/// The community-edition version a version string is compared as.
///
/// Enterprise version numbers do not follow the community semantic-version
/// line; each enterprise release corresponds to a community release with an
/// equivalent admin-API shape, keyed by the first four characters of the
/// string. Unrecognized enterprise prefixes fall back to the newest entry
/// of the table. A non-enterprise string stands for itself.
pub open spec fn spec_ce_equivalent(s: Seq<char>) -> Seq<char> {
    if !spec_is_enterprise(s) {
        s
    } else {
        let p = s.subrange(0, 4);
        if p == "0.30"@ {
            "0.12.1"@
        } else if p == "0.31"@ {
            "0.12.3"@
        } else if p == "0.32"@ {
            "0.13.1"@
        } else if p == "0.33"@ {
            "0.13.1"@
        } else {
            "0.13.1"@
        }
    }
}

/// Maps a reported version string to the community version it is compared
/// as; see [`spec_ce_equivalent`].
pub fn community_equivalent(reported: &str) -> (r: String)
    ensures
        r@ == spec_ce_equivalent(reported@),
{
    let chars = str_chars(reported);
    let suffix = str_chars("enterprise-edition");
    if !ends_with_exec(&chars, &suffix) {
        return reported.to_owned();
    }
    assert(spec_is_enterprise(reported@));
    assert(chars@.len() >= 18) by {
        reveal_strlit("enterprise-edition");
    }
    let mut prefix: Vec<char> = Vec::new();
    prefix.push(chars[0]);
    prefix.push(chars[1]);
    prefix.push(chars[2]);
    prefix.push(chars[3]);
    assert(prefix@ =~= reported@.subrange(0, 4));
    if chars_eq(&prefix, &str_chars("0.30")) {
        String::from_str("0.12.1")
    } else if chars_eq(&prefix, &str_chars("0.31")) {
        String::from_str("0.12.3")
    } else if chars_eq(&prefix, &str_chars("0.32")) {
        String::from_str("0.13.1")
    } else {
        String::from_str("0.13.1")
    }
}

/// For every enterprise-edition version string, the mapped community
/// version is the fixed table value of its four-character prefix, and the
/// documented fallback for an unrecognized prefix.
pub proof fn lemma_enterprise_mapping(s: Seq<char>)
    requires
        spec_is_enterprise(s),
    ensures
        s.subrange(0, 4) == "0.30"@ ==> spec_ce_equivalent(s) == "0.12.1"@,
        s.subrange(0, 4) == "0.31"@ ==> spec_ce_equivalent(s) == "0.12.3"@,
        s.subrange(0, 4) == "0.32"@ ==> spec_ce_equivalent(s) == "0.13.1"@,
        s.subrange(0, 4) == "0.33"@ ==> spec_ce_equivalent(s) == "0.13.1"@,
        s.subrange(0, 4) != "0.30"@ && s.subrange(0, 4) != "0.31"@ && s.subrange(0, 4)
            != "0.32"@ && s.subrange(0, 4) != "0.33"@ ==> spec_ce_equivalent(s) == "0.13.1"@,
{
    reveal_strlit("enterprise-edition");
    reveal_strlit("0.30");
    reveal_strlit("0.31");
    reveal_strlit("0.32");
    reveal_strlit("0.33");
    reveal_strlit("0.12.1");
    reveal_strlit("0.12.3");
    reveal_strlit("0.13.1");
    assert("0.30"@[3] == '0');
    assert("0.31"@[3] == '1');
    assert("0.32"@[3] == '2');
    assert("0.33"@[3] == '3');
}

/// The parse of a version string as a semantic version: the numeric core
/// and the pre-release tag, or nothing when the string is not well formed.
pub uninterp spec fn parsed_version(s: Seq<char>) -> Option<(u64, u64, u64, Seq<char>)>;

/// Relies on `semver::Version::parse`: a well-formed `major.minor.patch`
/// string with optional pre-release and build-metadata parts parses to its
/// components; the result depends on the characters alone.
#[verifier::external_body]
fn parse_semver(s: &str) -> (r: Option<ParsedVersion>)
    ensures
        match r {
            Some(v) => parsed_version(s@) == Some((v.major, v.minor, v.patch, v.pre@)),
            None => parsed_version(s@) is None,
        },
{
    match semver::Version::parse(s) {
        Ok(v) => Some(
            ParsedVersion {
                major: v.major,
                minor: v.minor,
                patch: v.patch,
                pre: v.pre.as_str().to_owned(),
            },
        ),
        Err(_) => None,
    }
}

/// The compatibility mode owed to a reported version string: its
/// enterprise mapping is parsed as a semantic version and held against the
/// two thresholds; an unparseable version is an error, as is one at or
/// above the high threshold.
pub open spec fn spec_detect_mode(reported: Seq<char>) -> Result<CompatibilityMode, VersionError> {
    match parsed_version(spec_ce_equivalent(reported)) {
        None => Err(VersionError::Unparseable),
        Some((major, minor, patch, pre)) => {
            let has_pre = pre.len() > 0;
            if version_below(major as int, minor as int, patch as int, has_pre, 0, 13, 0) {
                Ok(CompatibilityMode::LegacyApis)
            } else if version_below(major as int, minor as int, patch as int, has_pre, 0, 15, 0) {
                Ok(CompatibilityMode::ServiceRoute)
            } else {
                Err(VersionError::Unsupported)
            }
        },
    }
}

/// Detects the compatibility mode for the gateway's reported version
/// string; see [`spec_detect_mode`].
pub fn detect_mode(reported: &str) -> (r: Result<CompatibilityMode, VersionError>)
    ensures
        r == spec_detect_mode(reported@),
{
    let mapped = community_equivalent(reported);
    match parse_semver(mapped.as_str()) {
        None => Err(VersionError::Unparseable),
        Some(v) => {
            let has_pre = !v.pre.as_str().is_empty();
            select_mode(v.major, v.minor, v.patch, has_pre)
        },
    }
}

/// What to do when the gateway cannot be reached during the initial
/// version check.
#[derive(Clone, Copy, Debug, PartialEq, Eq, Structural)]
pub enum ConnectivityDecision {
    /// Wait mode: sleep for the given number of milliseconds, then retry.
    RetryAfterMillis(u64),
    /// Not in wait mode: the run aborts.
    Abort,
}

/// The fixed interval between connectivity retries under wait mode.
pub const RETRY_INTERVAL_MS: u64 = 5000;

/// Decides the reaction to a failed connectivity check: retry after the
/// fixed interval under wait mode, abort otherwise.
pub fn on_connect_failure(wait_mode: bool) -> (r: ConnectivityDecision)
    ensures
        wait_mode ==> r == ConnectivityDecision::RetryAfterMillis(RETRY_INTERVAL_MS),
        !wait_mode ==> r == ConnectivityDecision::Abort,
{
    if wait_mode {
        ConnectivityDecision::RetryAfterMillis(RETRY_INTERVAL_MS)
    } else {
        ConnectivityDecision::Abort
    }
}

} // verus!
