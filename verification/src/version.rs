//! Compiler versions: three numbers, a pre-release tag and build metadata, in the
//! sense of semantic versioning.

use vstd::prelude::*;

verus! {

/// Whether semver takes `text` as a pre-release tag: dot-separated identifiers of
/// ASCII letters, digits and hyphens, none empty, no number with a leading zero.
pub uninterp spec fn semver_prerelease(text: Seq<char>) -> bool;

/// Whether semver takes `text` as build metadata: dot-separated identifiers of ASCII
/// letters, digits and hyphens, none empty.
pub uninterp spec fn semver_build(text: Seq<char>) -> bool;

/// What a version is, as plain values.
pub struct VersionView {
    /// The major number.
    pub major: nat,
    /// The minor number.
    pub minor: nat,
    /// The patch number.
    pub patch: nat,
    /// The pre-release tag, without its hyphen; empty for a release.
    pub pre: Seq<char>,
    /// The build metadata, without its plus sign; empty where there is none.
    pub build: Seq<char>,
}

impl VersionView {
    /// Whether the version is a release, not a pre-release, and its three numbers are
    /// at least `major.minor.patch`, the major number counting first and the patch
    /// number last.
    pub open spec fn meets(self, major: nat, minor: nat, patch: nat) -> bool {
        &&& self.pre.len() == 0
        &&& (self.major > major || (self.major == major && (self.minor > minor || (self.minor
            == minor && self.patch >= patch))))
    }
}

/// The version of a compiler. Every value holds a pre-release tag and build metadata
/// that semver accepts.
#[derive(Debug, PartialEq, Eq, Hash)]
pub struct Version {
    major: u64,
    minor: u64,
    patch: u64,
    pre: String,
    build: String,
}

impl View for Version {
    type V = VersionView;

    closed spec fn view(&self) -> VersionView {
        VersionView {
            major: self.major as nat,
            minor: self.minor as nat,
            patch: self.patch as nat,
            pre: self.pre@,
            build: self.build@,
        }
    }
}

/// Calls `semver::Prerelease::new` and reports whether it took the text. The empty
/// text is taken: it stands for a release.
#[verifier::external_body]
fn prerelease_accepted(text: &str) -> (r: bool)
    ensures
        r == semver_prerelease(text@),
        text@.len() == 0 ==> r,
{
    semver::Prerelease::new(text).is_ok()
}

/// Calls `semver::BuildMetadata::new` and reports whether it took the text. The empty
/// text is taken: it stands for no metadata.
#[verifier::external_body]
fn build_accepted(text: &str) -> (r: bool)
    ensures
        r == semver_build(text@),
        text@.len() == 0 ==> r,
{
    semver::BuildMetadata::new(text).is_ok()
}

/// Calls `semver::VersionReq::matches` for the requirement `>=major.minor.patch` on
/// the version. Such a requirement holds of a release whose numbers are at least the
/// three given, and of no pre-release. The version goes to semver with the same five
/// parts: every version holds a tag and metadata that semver accepts.
#[verifier::external_body]
fn matches_at_least(version: &Version, major: u64, minor: u64, patch: u64) -> (r: bool)
    ensures
        r == version@.meets(major as nat, minor as nat, patch as nat),
{
    let least = semver::Comparator {
        op: semver::Op::GreaterEq,
        major,
        minor: Some(minor),
        patch: Some(patch),
        pre: semver::Prerelease::EMPTY,
    };
    semver::VersionReq { comparators: vec![least] }.matches(&semver::Version {
        major: version.major,
        minor: version.minor,
        patch: version.patch,
        pre: semver::Prerelease::new(&version.pre).unwrap_or_default(),
        build: semver::BuildMetadata::new(&version.build).unwrap_or_default(),
    })
}

impl Version {
    #[verifier::type_invariant]
    spec fn identifiers_accepted(self) -> bool {
        &&& self.pre@.len() == 0 || semver_prerelease(self.pre@)
        &&& self.build@.len() == 0 || semver_build(self.build@)
    }

    /// The release `major.minor.patch`, without pre-release tag or build metadata.
    pub fn new(major: u64, minor: u64, patch: u64) -> (r: Version)
        ensures
            r@ == (VersionView {
                major: major as nat,
                minor: minor as nat,
                patch: patch as nat,
                pre: Seq::<char>::empty(),
                build: Seq::<char>::empty(),
            }),
    {
        Version { major, minor, patch, pre: String::new(), build: String::new() }
    }

    /// The version with the given numbers, pre-release tag and build metadata, if
    /// semver accepts the two texts; `None` if it refuses one of them.
    pub fn with_identifiers(major: u64, minor: u64, patch: u64, pre: &str, build: &str) -> (r:
        Option<Version>)
        ensures
            r.is_some() == (semver_prerelease(pre@) && semver_build(build@)),
            pre@.len() == 0 && build@.len() == 0 ==> r.is_some(),
            r matches Some(v) ==> v@ == (VersionView {
                major: major as nat,
                minor: minor as nat,
                patch: patch as nat,
                pre: pre@,
                build: build@,
            }),
    {
        if prerelease_accepted(pre) && build_accepted(build) {
            Some(Version { major, minor, patch, pre: pre.to_owned(), build: build.to_owned() })
        } else {
            None
        }
    }

    /// The major number.
    pub fn major(&self) -> (r: u64)
        ensures
            r == self@.major,
    {
        self.major
    }

    /// The minor number.
    pub fn minor(&self) -> (r: u64)
        ensures
            r == self@.minor,
    {
        self.minor
    }

    /// The patch number.
    pub fn patch(&self) -> (r: u64)
        ensures
            r == self@.patch,
    {
        self.patch
    }

    /// The pre-release tag; empty for a release.
    pub fn pre(&self) -> (r: &str)
        ensures
            r@ == self@.pre,
    {
        self.pre.as_str()
    }

    /// The build metadata; empty where there is none.
    pub fn build(&self) -> (r: &str)
        ensures
            r@ == self@.build,
    {
        self.build.as_str()
    }

    /// Whether two versions are the same in every part.
    pub fn same(&self, other: &Version) -> (r: bool)
        ensures
            r == (self@ == other@),
    {
        let r = self.major == other.major && self.minor == other.minor && self.patch
            == other.patch && self.pre == other.pre && self.build == other.build;
        r
    }

    /// Whether the version is a release with numbers at least `major.minor.patch`.
    pub fn at_least(&self, major: u64, minor: u64, patch: u64) -> (r: bool)
        ensures
            r == self@.meets(major as nat, minor as nat, patch as nat),
    {
        matches_at_least(self, major, minor, patch)
    }

    /// A second version with the same parts.
    pub fn duplicate(&self) -> (r: Version)
        ensures
            r@ == self@,
    {
        proof {
            use_type_invariant(self);
        }
        Version {
            major: self.major,
            minor: self.minor,
            patch: self.patch,
            pre: self.pre.clone(),
            build: self.build.clone(),
        }
    }
}

impl Clone for Version {
    fn clone(&self) -> (r: Version)
        ensures
            r@ == self@,
    {
        self.duplicate()
    }
}

} // verus!
