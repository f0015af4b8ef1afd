//! The identity of a package.

use crate::location::{Url, UrlView};
use crate::version::{Version, VersionView};
use vstd::prelude::*;

verus! {

/// An identity as plain values.
pub struct PackageIdView {
    pub name: Seq<char>,
    pub version: VersionView,
    pub namespace: UrlView,
}

/// The name, the version and the source URL of a package. Nothing else
/// names a package, and an identity never changes once it is made.
#[derive(Debug)]
pub struct PackageId {
    name: String,
    version: Version,
    namespace: Url,
}

impl View for PackageId {
    type V = PackageIdView;

    closed spec fn view(&self) -> PackageIdView {
        PackageIdView { name: self.name@, version: self.version@, namespace: self.namespace@ }
    }
}

impl PackageId {
    #[verifier::type_invariant]
    spec fn named(&self) -> bool {
        self.name@.len() > 0
    }

    /// The identity of the package `name` at `version` from `namespace`.
    pub fn new(name: &str, version: Version, namespace: Url) -> (r: PackageId)
        requires
            name@.len() > 0,
        ensures
            r@ == (PackageIdView { name: name@, version: version@, namespace: namespace@ }),
    {
        PackageId { name: String::from_str(name), version, namespace }
    }

    /// The name, which is never empty.
    pub fn get_name(&self) -> (r: &str)
        ensures
            r@ == self@.name,
            r@.len() > 0,
    {
        proof {
            use_type_invariant(self);
        }
        self.name.as_str()
    }

    pub fn get_version(&self) -> (r: &Version)
        ensures
            r@ == self@.version,
    {
        &self.version
    }

    pub fn get_namespace(&self) -> (r: &Url)
        ensures
            r@ == self@.namespace,
    {
        &self.namespace
    }
}

impl Clone for PackageId {
    fn clone(&self) -> (r: PackageId)
        ensures
            r@ == self@,
    {
        proof {
            use_type_invariant(self);
        }
        PackageId {
            name: self.name.clone(),
            version: self.version.clone(),
            namespace: self.namespace.clone(),
        }
    }
}

impl PartialEq for PackageId {
    fn eq(&self, other: &PackageId) -> (r: bool) {
        self.name == other.name && self.version == other.version && self.namespace
            == other.namespace
    }
}

impl vstd::std_specs::cmp::PartialEqSpecImpl for PackageId {
    open spec fn obeys_eq_spec() -> bool {
        true
    }

    /// Two identities are equal when name, version and source URL all are.
    open spec fn eq_spec(&self, other: &PackageId) -> bool {
        self@ == other@
    }
}

impl Eq for PackageId {

}

} // verus!
