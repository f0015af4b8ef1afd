//! What a package declares that it needs.

use crate::location::{Url, UrlView};
use crate::version::{semver_version, Version, VersionReq, VersionView};
use vstd::prelude::*;

verus! {

/// A dependency as plain values.
pub struct DependencyView {
    pub name: Seq<char>,
    /// The version that the requirement asks for.
    pub version_req: VersionView,
    pub namespace: Option<UrlView>,
}

/// A declared requirement: the name of the package wanted, the version
/// asked of it and, where one is given, the source to take it from.
#[derive(Debug)]
pub struct Dependency {
    name: String,
    version_req: VersionReq,
    namespace: Option<Url>,
}

impl View for Dependency {
    type V = DependencyView;

    closed spec fn view(&self) -> DependencyView {
        DependencyView {
            name: self.name@,
            version_req: self.version_req@,
            namespace: match self.namespace {
                Some(u) => Some(u@),
                None => None,
            },
        }
    }
}

/// The dependencies of a list, each as plain values.
pub open spec fn dependency_views(deps: Seq<Dependency>) -> Seq<DependencyView> {
    deps.map_values(|d: Dependency| d@)
}

/// The names that a list of dependencies asks for, in its order.
pub open spec fn dependency_names(deps: Seq<DependencyView>) -> Seq<Seq<char>> {
    deps.map_values(|d: DependencyView| d.name)
}

impl Dependency {
    /// A requirement on `name` with no source given.
    pub fn new(name: &str, version_req: VersionReq) -> (r: Dependency)
        ensures
            r@ == (DependencyView { name: name@, version_req: version_req@, namespace: None }),
    {
        Dependency { name: String::from_str(name), version_req, namespace: None }
    }

    /// A requirement on `name` as it is found at `namespace`.
    pub fn with_namespace(name: &str, version_req: VersionReq, namespace: Url) -> (r: Dependency)
        ensures
            r@ == (DependencyView {
                name: name@,
                version_req: version_req@,
                namespace: Some(namespace@),
            }),
    {
        Dependency { name: String::from_str(name), version_req, namespace: Some(namespace) }
    }

    /// A requirement on `name` with the version written out. The answer is
    /// `None` exactly where `version` is no semantic version.
    pub fn parse(name: &str, version: &str) -> (r: Option<Dependency>)
        ensures
            match r {
                Some(d) => semver_version(version@) == Some(d@.version_req) && d@.name == name@
                    && d@.namespace is None,
                None => semver_version(version@) is None,
            },
    {
        match VersionReq::parse(version) {
            Some(version_req) => Some(Dependency::new(name, version_req)),
            None => None,
        }
    }

    /// The requirement that only `name` at `version` meets.
    pub fn exact(name: &str, version: &Version) -> (r: Dependency)
        ensures
            r@ == (DependencyView { name: name@, version_req: version@, namespace: None }),
    {
        Dependency::new(name, VersionReq::exact(version))
    }

    pub fn get_name(&self) -> (r: &str)
        ensures
            r@ == self@.name,
    {
        self.name.as_str()
    }

    pub fn get_version_req(&self) -> (r: &VersionReq)
        ensures
            r@ == self@.version_req,
    {
        &self.version_req
    }

    pub fn get_namespace(&self) -> (r: Option<&Url>)
        ensures
            match r {
                Some(u) => self@.namespace == Some(u@),
                None => self@.namespace is None,
            },
    {
        self.namespace.as_ref()
    }
}

impl Clone for Dependency {
    fn clone(&self) -> (r: Dependency)
        ensures
            r@ == self@,
    {
        Dependency {
            name: self.name.clone(),
            version_req: self.version_req.clone(),
            namespace: match &self.namespace {
                Some(u) => Some(u.clone()),
                None => None,
            },
        }
    }
}

impl PartialEq for Dependency {
    fn eq(&self, other: &Dependency) -> (r: bool) {
        let same_namespace = match (&self.namespace, &other.namespace) {
            (Some(a), Some(b)) => *a == *b,
            (None, None) => true,
            _ => false,
        };
        self.name == other.name && self.version_req == other.version_req && same_namespace
    }
}

impl vstd::std_specs::cmp::PartialEqSpecImpl for Dependency {
    open spec fn obeys_eq_spec() -> bool {
        true
    }

    open spec fn eq_spec(&self, other: &Dependency) -> bool {
        self@ == other@
    }
}

impl Eq for Dependency {

}

/// A copy of a list of dependencies.
pub fn clone_dependencies(deps: &[Dependency]) -> (r: Vec<Dependency>)
    ensures
        dependency_views(r@) == dependency_views(deps@),
{
    let mut out: Vec<Dependency> = Vec::new();
    let mut i: usize = 0;
    while i < deps.len()
        invariant
            i <= deps.len(),
            out.len() == i,
            forall|k: int| 0 <= k < i ==> (#[trigger] out@[k])@ == deps@[k]@,
        decreases deps.len() - i,
    {
        out.push(deps[i].clone());
        i += 1;
    }
    assert(dependency_views(out@) =~= dependency_views(deps@));
    out
}

} // verus!
