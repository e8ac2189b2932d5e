//! Semantic versions, read by the `semver` crate.

use vstd::prelude::*;

verus! {

/// A semantic version as plain values.
#[derive(Debug, PartialEq, Eq)]
pub struct SemVer {
    pub major: u64,
    pub minor: u64,
    pub patch: u64,
    pub pre: String,
    pub build: String,
}

/// What `semver::Version::parse` reads from `text`: major, minor, patch, pre-release and
/// build metadata, or `None` where it reports an error.
pub uninterp spec fn semver_parse(text: Seq<char>) -> Option<(u64, u64, u64, Seq<char>, Seq<char>)>;

/// Whether `text` is a semantic version.
pub open spec fn is_semver(text: Seq<char>) -> bool {
    semver_parse(text) is Some
}

/// Whether `text` is a semantic version without a pre-release part.
pub open spec fn is_release(text: Seq<char>) -> bool {
    semver_parse(text) matches Some(v) && v.3.len() == 0
}

/// The numeric part of a version that `text` writes.
pub open spec fn triple_of(text: Seq<char>) -> (u64, u64, u64) {
    let v = semver_parse(text)->0;
    (v.0, v.1, v.2)
}

/// Order of versions by major, minor and patch number.
pub open spec fn triple_lt(a: (u64, u64, u64), b: (u64, u64, u64)) -> bool {
    a.0 < b.0 || (a.0 == b.0 && (a.1 < b.1 || (a.1 == b.1 && a.2 < b.2)))
}

impl SemVer {
    /// The fields as the tuple that [`semver_parse`] speaks of.
    pub open spec fn fields(&self) -> (u64, u64, u64, Seq<char>, Seq<char>) {
        (self.major, self.minor, self.patch, self.pre@, self.build@)
    }

    /// Major, minor and patch number.
    pub open spec fn triple(&self) -> (u64, u64, u64) {
        (self.major, self.minor, self.patch)
    }

    /// Whether this version carries a pre-release part.
    pub fn is_prerelease(&self) -> (pre: bool)
        ensures
            pre == (self.pre@.len() > 0),
    {
        self.pre.as_str().unicode_len() > 0
    }

    /// Whether this version comes before `other` by major, minor and patch number.
    pub fn older_than(&self, other: &SemVer) -> (older: bool)
        ensures
            older == triple_lt(self.triple(), other.triple()),
    {
        self.major < other.major || (self.major == other.major && (self.minor < other.minor || (
        self.minor == other.minor && self.patch < other.patch)))
    }
}

/// Calls `semver::Version::parse` and hands its fields out as plain values. The contract
/// says that the outcome is the one [`semver_parse`] names for this text, and that a text
/// that was read begins with a decimal digit: the parser reads the major number first, and
/// fails where it finds no digit there.
#[verifier::external_body]
pub(crate) fn parse_version(text: &str) -> (parsed: Option<SemVer>)
    ensures
        parsed is Some == semver_parse(text@) is Some,
        parsed matches Some(v) ==> semver_parse(text@) == Some(v.fields()),
        parsed is Some ==> text@.len() > 0 && crate::text::is_digit(text@[0]),
{
    match semver::Version::parse(text) {
        Ok(v) => Some(
            SemVer {
                major: v.major,
                minor: v.minor,
                patch: v.patch,
                pre: v.pre.as_str().to_string(),
                build: v.build.as_str().to_string(),
            },
        ),
        Err(_) => None,
    }
}

} // verus!
