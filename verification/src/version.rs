//! Semantic versions and the requirements that dependencies place on them.

use vstd::prelude::*;

verus! {

/// What a version is made of, as plain values.
pub struct VersionView {
    pub major: u64,
    pub minor: u64,
    pub patch: u64,
    pub pre: Seq<char>,
    pub build: Seq<char>,
}

/// A semantic version: three numbers, a pre-release tag and build metadata,
/// the last two empty where the version has none.
#[derive(Debug)]
pub struct Version {
    major: u64,
    minor: u64,
    patch: u64,
    pre: String,
    build: String,
}

impl View for Version {
    type V = VersionView;

    closed spec fn view(&self) -> VersionView {
        VersionView {
            major: self.major,
            minor: self.minor,
            patch: self.patch,
            pre: self.pre@,
            build: self.build@,
        }
    }
}

/// What `semver::Version::parse` makes of a text: the parts of the version
/// it reads, or nothing where it rejects the text.
pub uninterp spec fn semver_version(text: Seq<char>) -> Option<VersionView>;

/// Calls `semver::Version::parse` and copies the five parts of the version
/// it returns. The contract only names the outcome: the parts are those of
/// `semver_version` on the same text, and there are none where the parser
/// reports an error.
#[verifier::external_body]
fn parse_semver(text: &str) -> (r: Option<Version>)
    ensures
        match r {
            Some(v) => semver_version(text@) == Some(v@),
            None => semver_version(text@) is None,
        },
{
    match semver::Version::parse(text) {
        Ok(v) => Some(
            Version {
                major: v.major,
                minor: v.minor,
                patch: v.patch,
                pre: v.pre.as_str().to_owned(),
                build: v.build.as_str().to_owned(),
            },
        ),
        Err(_) => None,
    }
}

impl Version {
    /// The release `major.minor.patch`, with no pre-release tag and no build
    /// metadata.
    pub fn new(major: u64, minor: u64, patch: u64) -> (r: Version)
        ensures
            r@ == (VersionView { major, minor, patch, pre: Seq::empty(), build: Seq::empty() }),
    {
        Version { major, minor, patch, pre: String::new(), build: String::new() }
    }

    /// Reads a version such as `1.0.0` or `1.2.3-beta.1+build5`. The answer
    /// is `None` exactly where the text is no semantic version.
    pub fn parse(text: &str) -> (r: Option<Version>)
        ensures
            match r {
                Some(v) => semver_version(text@) == Some(v@),
                None => semver_version(text@) is None,
            },
    {
        parse_semver(text)
    }

    pub fn get_major(&self) -> (r: u64)
        ensures
            r == self@.major,
    {
        self.major
    }

    pub fn get_minor(&self) -> (r: u64)
        ensures
            r == self@.minor,
    {
        self.minor
    }

    pub fn get_patch(&self) -> (r: u64)
        ensures
            r == self@.patch,
    {
        self.patch
    }

    pub fn get_pre(&self) -> (r: &str)
        ensures
            r@ == self@.pre,
    {
        self.pre.as_str()
    }

    pub fn get_build(&self) -> (r: &str)
        ensures
            r@ == self@.build,
    {
        self.build.as_str()
    }
}

impl Clone for Version {
    fn clone(&self) -> (r: Version)
        ensures
            r@ == self@,
    {
        Version {
            major: self.major,
            minor: self.minor,
            patch: self.patch,
            pre: self.pre.clone(),
            build: self.build.clone(),
        }
    }
}

impl PartialEq for Version {
    fn eq(&self, other: &Version) -> (r: bool) {
        self.major == other.major && self.minor == other.minor && self.patch == other.patch
            && self.pre == other.pre && self.build == other.build
    }
}

impl vstd::std_specs::cmp::PartialEqSpecImpl for Version {
    open spec fn obeys_eq_spec() -> bool {
        true
    }

    /// Two versions are equal when all five parts are.
    open spec fn eq_spec(&self, other: &Version) -> bool {
        self@ == other@
    }
}

impl Eq for Version {

}

/// A requirement on the version of a dependency. It asks for one version
/// exactly.
#[derive(Debug)]
pub struct VersionReq {
    version: Version,
}

impl View for VersionReq {
    type V = VersionView;

    /// The one version that meets the requirement.
    closed spec fn view(&self) -> VersionView {
        self.version@
    }
}

impl VersionReq {
    /// The requirement that only `version` meets.
    pub fn exact(version: &Version) -> (r: VersionReq)
        ensures
            r@ == version@,
    {
        VersionReq { version: version.clone() }
    }

    /// Reads a requirement written as the version it asks for. The answer is
    /// `None` exactly where the text is no semantic version.
    pub fn parse(text: &str) -> (r: Option<VersionReq>)
        ensures
            match r {
                Some(req) => semver_version(text@) == Some(req@),
                None => semver_version(text@) is None,
            },
    {
        match Version::parse(text) {
            Some(version) => Some(VersionReq { version }),
            None => None,
        }
    }

    /// Whether `version` meets the requirement.
    pub fn matches(&self, version: &Version) -> (r: bool)
        ensures
            r == (self@ == version@),
    {
        self.version == *version
    }

    /// The version that the requirement asks for.
    pub fn get_version(&self) -> (r: &Version)
        ensures
            r@ == self@,
    {
        &self.version
    }
}

impl Clone for VersionReq {
    fn clone(&self) -> (r: VersionReq)
        ensures
            r@ == self@,
    {
        VersionReq { version: self.version.clone() }
    }
}

impl PartialEq for VersionReq {
    fn eq(&self, other: &VersionReq) -> (r: bool) {
        self.version == other.version
    }
}

impl vstd::std_specs::cmp::PartialEqSpecImpl for VersionReq {
    open spec fn obeys_eq_spec() -> bool {
        true
    }

    open spec fn eq_spec(&self, other: &VersionReq) -> bool {
        self@ == other@
    }
}

impl Eq for VersionReq {

}

} // verus!
