//! The unit the resolver reasons about: an identity and the edges that
//! leave it.

use crate::dependency::{clone_dependencies, dependency_views, Dependency, DependencyView};
use crate::package_id::{PackageId, PackageIdView};
use crate::text::str_eq;
use vstd::prelude::*;

verus! {

/// A summary as plain values.
pub struct SummaryView {
    pub package_id: PackageIdView,
    pub dependencies: Seq<DependencyView>,
}

impl SummaryView {
    /// Whether some dependency of the list asks for the package itself.
    pub open spec fn names_itself(self) -> bool {
        exists|i: int|
            0 <= i < self.dependencies.len() && (#[trigger] self.dependencies[i]).name
                == self.package_id.name
    }

    /// Whether the package asks for a package called `name`.
    pub open spec fn depends_on(self, name: Seq<char>) -> bool {
        exists|i: int|
            0 <= i < self.dependencies.len() && (#[trigger] self.dependencies[i]).name == name
    }
}

/// The identity of a package together with its dependencies, in the order
/// in which they were declared. No dependency names the package itself.
#[derive(Debug, PartialEq, Eq)]
pub struct Summary {
    package_id: PackageId,
    dependencies: Vec<Dependency>,
}

impl View for Summary {
    type V = SummaryView;

    closed spec fn view(&self) -> SummaryView {
        SummaryView {
            package_id: self.package_id@,
            dependencies: dependency_views(self.dependencies@),
        }
    }
}

/// The summaries of a list, each as plain values.
pub open spec fn summary_views(summaries: Seq<Summary>) -> Seq<SummaryView> {
    summaries.map_values(|s: Summary| s@)
}

impl Summary {
    #[verifier::type_invariant]
    spec fn sound(&self) -> bool {
        !self@.names_itself()
    }

    /// The summary of `package_id` with the dependencies `dependencies`. The
    /// answer is `None` exactly where one of them names the package itself.
    pub fn new(package_id: &PackageId, dependencies: &[Dependency]) -> (r: Option<Summary>)
        ensures
            match r {
                Some(s) => s@ == (SummaryView {
                    package_id: package_id@,
                    dependencies: dependency_views(dependencies@),
                }) && !s@.names_itself(),
                None => (SummaryView {
                    package_id: package_id@,
                    dependencies: dependency_views(dependencies@),
                }).names_itself(),
            },
    {
        let ghost want = SummaryView {
            package_id: package_id@,
            dependencies: dependency_views(dependencies@),
        };
        let mut i: usize = 0;
        while i < dependencies.len()
            invariant
                i <= dependencies.len(),
                want.package_id == package_id@,
                want.dependencies == dependency_views(dependencies@),
                forall|k: int| 0 <= k < i ==> (#[trigger] want.dependencies[k]).name != package_id@.name,
            decreases dependencies.len() - i,
        {
            if str_eq(dependencies[i].get_name(), package_id.get_name()) {
                assert(want.dependencies[i as int].name == package_id@.name);
                return None;
            }
            i += 1;
        }
        Some(
            Summary {
                package_id: package_id.clone(),
                dependencies: clone_dependencies(dependencies),
            },
        )
    }

    pub fn get_package_id(&self) -> (r: &PackageId)
        ensures
            r@ == self@.package_id,
    {
        &self.package_id
    }

    pub fn get_name(&self) -> (r: &str)
        ensures
            r@ == self@.package_id.name,
    {
        self.package_id.get_name()
    }

    /// The dependencies, none of which names the package itself.
    pub fn get_dependencies(&self) -> (r: &[Dependency])
        ensures
            dependency_views(r@) == self@.dependencies,
            !self@.names_itself(),
    {
        proof {
            use_type_invariant(self);
        }
        self.dependencies.as_slice()
    }
}

impl Clone for Summary {
    fn clone(&self) -> (r: Summary)
        ensures
            r@ == self@,
    {
        proof {
            use_type_invariant(self);
        }
        Summary {
            package_id: self.package_id.clone(),
            dependencies: clone_dependencies(self.dependencies.as_slice()),
        }
    }
}

} // verus!
