//! Package versions and the epoch-shaped requirements matched against them.
use vstd::prelude::*;

verus! {

/// A package version: major, minor and patch components.
#[derive(Clone, Copy, Debug, PartialEq, Eq, Structural, Hash, PartialOrd, Ord)]
pub struct Version {
    pub major: u64,
    pub minor: u64,
    pub patch: u64,
}

impl Version {
    pub fn new(major: u64, minor: u64, patch: u64) -> (r: Version)
        ensures
            r == (Version { major, minor, patch }),
    {
        Version { major, minor, patch }
    }
}

/// A requirement with one comparator of the default (caret) strategy and no
/// patch component: `^M` where `minor` is `None`, else `^M.m`.
#[derive(Clone, Copy, Debug, PartialEq, Eq, Structural, Hash)]
pub struct VersionReq {
    pub major: u64,
    pub minor: Option<u64>,
}

impl VersionReq {
    /// Whether `v` satisfies this caret requirement.
    pub open spec fn spec_matches(self, v: Version) -> bool {
        v.major == self.major && match self.minor {
            None => true,
            Some(m) => if self.major > 0 { v.minor >= m } else { v.minor == m },
        }
    }

    /// Whether `v` satisfies this requirement.
    pub fn matches(&self, v: &Version) -> (r: bool)
        ensures
            r == self.spec_matches(*v),
    {
        caret_matches(self, v)
    }
}

/// Relies on `semver::VersionReq::matches` for one caret comparator without a
/// patch component, and a version without pre-release part.
#[verifier::external_body]
fn caret_matches(req: &VersionReq, v: &Version) -> (r: bool)
    ensures
        r == req.spec_matches(*v),
{
    let comparator = semver::Comparator {
        op: semver::Op::Caret,
        major: req.major,
        minor: req.minor,
        patch: None,
        pre: semver::Prerelease::EMPTY,
    };
    semver::VersionReq { comparators: vec![comparator] }.matches(&semver::Version::new(v.major, v.minor, v.patch))
}

} // verus!
