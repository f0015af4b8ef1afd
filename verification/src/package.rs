//! Packages as they lie on disk, and sets of them that can be put in the
//! order in which they must be built.

use crate::dependency::{dependency_names, dependency_views, Dependency, DependencyView};
use crate::graph::{
    cycle_has_no_order, order_exists_iff_no_cycle, place_is_unique, stands_before, with_known_nodes,
    Graph, GraphView,
};
use crate::manifest::{target_views, Manifest, ManifestView, Target};
use crate::package_id::PackageId;
use crate::paths::{dir_name, join, spec_dir_name, spec_join};
use crate::registry::{borrowed_views, called, candidates_among, candidates_among_are_called, names_of, Registry};
use crate::source::{source_views, SourceId};
use crate::summary::{Summary, SummaryView};
use crate::text::{str_eq, str_views};
use crate::version::Version;
use vstd::prelude::*;

verus! {

/// A package as plain values.
pub struct PackageView {
    pub manifest: ManifestView,
    pub manifest_path: Seq<char>,
}

impl PackageView {
    pub open spec fn name(self) -> Seq<char> {
        self.manifest.summary.package_id.name
    }

    pub open spec fn dependencies(self) -> Seq<DependencyView> {
        self.manifest.summary.dependencies
    }

    /// The directory that holds the declaration file.
    pub open spec fn root(self) -> Seq<char> {
        spec_dir_name(self.manifest_path)
    }

    /// The directory that the outputs go to.
    pub open spec fn absolute_target_dir(self) -> Seq<char> {
        spec_join(self.root(), self.manifest.target_dir)
    }
}

/// A manifest together with the path of the file it was read from.
#[derive(Debug, PartialEq, Eq)]
pub struct Package {
    manifest: Manifest,
    manifest_path: String,
}

impl View for Package {
    type V = PackageView;

    closed spec fn view(&self) -> PackageView {
        PackageView { manifest: self.manifest@, manifest_path: self.manifest_path@ }
    }
}

/// The packages of a list, each as plain values.
pub open spec fn package_views(packages: Seq<Package>) -> Seq<PackageView> {
    packages.map_values(|p: Package| p@)
}

impl Package {
    /// The package whose declaration file lies at `manifest_path` and says
    /// `manifest`.
    pub fn new(manifest: Manifest, manifest_path: &str) -> (r: Package)
        ensures
            r@ == (PackageView { manifest: manifest@, manifest_path: manifest_path@ }),
    {
        Package { manifest, manifest_path: String::from_str(manifest_path) }
    }

    /// The requirement that only this package, at its version, meets.
    pub fn to_dependency(&self) -> (r: Dependency)
        ensures
            r@ == (DependencyView {
                name: self@.name(),
                version_req: self@.manifest.summary.package_id.version,
                namespace: None,
            }),
    {
        Dependency::exact(self.manifest.get_name(), self.manifest.get_package_id().get_version())
    }

    pub fn get_manifest(&self) -> (r: &Manifest)
        ensures
            r@ == self@.manifest,
    {
        &self.manifest
    }

    pub fn get_summary(&self) -> (r: &Summary)
        ensures
            r@ == self@.manifest.summary,
    {
        self.manifest.get_summary()
    }

    pub fn get_package_id(&self) -> (r: &PackageId)
        ensures
            r@ == self@.manifest.summary.package_id,
    {
        self.manifest.get_package_id()
    }

    pub fn get_name(&self) -> (r: &str)
        ensures
            r@ == self@.name(),
    {
        self.get_package_id().get_name()
    }

    pub fn get_version(&self) -> (r: &Version)
        ensures
            r@ == self@.manifest.summary.package_id.version,
    {
        self.get_package_id().get_version()
    }

    pub fn get_dependencies(&self) -> (r: &[Dependency])
        ensures
            dependency_views(r@) == self@.dependencies(),
    {
        self.get_manifest().get_dependencies()
    }

    pub fn get_targets(&self) -> (r: &[Target])
        ensures
            target_views(r@) == self@.manifest.targets,
    {
        self.get_manifest().get_targets()
    }

    pub fn get_manifest_path(&self) -> (r: &str)
        ensures
            r@ == self@.manifest_path,
    {
        self.manifest_path.as_str()
    }

    /// The directory that holds the declaration file.
    pub fn get_root(&self) -> (r: String)
        ensures
            r@ == self@.root(),
    {
        dir_name(self.manifest_path.as_str())
    }

    /// The directory that the outputs go to, seen from the root.
    pub fn get_target_dir(&self) -> (r: &str)
        ensures
            r@ == self@.manifest.target_dir,
    {
        self.manifest.get_target_dir()
    }

    /// The directory that the outputs go to.
    pub fn get_absolute_target_dir(&self) -> (r: String)
        ensures
            r@ == self@.absolute_target_dir(),
    {
        let root = self.get_root();
        join(root.as_str(), self.get_target_dir())
    }

    pub fn get_sources(&self) -> (r: &[SourceId])
        ensures
            source_views(r@) == self@.manifest.sources,
    {
        self.manifest.get_sources()
    }
}

impl Clone for Package {
    fn clone(&self) -> (r: Package)
        ensures
            r@ == self@,
    {
        Package { manifest: self.manifest.clone(), manifest_path: self.manifest_path.clone() }
    }
}

/// The names of the packages of a list, in its order.
pub open spec fn package_names(packages: Seq<PackageView>) -> Seq<Seq<char>> {
    packages.map_values(|p: PackageView| p.name())
}

/// The summaries of the packages of a list, in its order.
pub open spec fn package_summaries(packages: Seq<PackageView>) -> Seq<SummaryView> {
    packages.map_values(|p: PackageView| p.manifest.summary)
}

/// Whether no two packages of the list share a name.
pub open spec fn distinct_names(packages: Seq<PackageView>) -> bool {
    package_names(packages).no_duplicates()
}

/// Whether the list holds every package that one of its packages depends
/// on.
pub open spec fn closed(packages: Seq<PackageView>) -> bool {
    forall|i: int, j: int|
        0 <= i < packages.len() && 0 <= j < packages[i].dependencies().len() ==> package_names(
            packages,
        ).contains(#[trigger] packages[i].dependencies()[j].name)
}

/// Whether the package at `place` is the first of the list that is called
/// `name`.
pub open spec fn first_called(packages: Seq<PackageView>, place: int, name: Seq<char>) -> bool {
    &&& 0 <= place < packages.len()
    &&& packages[place].name() == name
    &&& forall|k: int| 0 <= k < place ==> (#[trigger] packages[k]).name() != name
}

/// The test "is the name of a package of the list".
pub open spec fn among(packages: Seq<PackageView>) -> spec_fn(Seq<char>) -> bool {
    |name: Seq<char>| package_names(packages).contains(name)
}

/// The names that the package at `place` depends on and that the list
/// holds a package for, in the order of its dependencies.
pub open spec fn dependencies_within(packages: Seq<PackageView>, place: int) -> Seq<Seq<char>> {
    dependency_names(packages[place].dependencies()).filter(among(packages))
}

/// The places of the packages of the list that the package at `place`
/// depends on, in the order of its dependencies.
pub open spec fn dependency_places(packages: Seq<PackageView>, place: int) -> Seq<int> {
    dependencies_within(packages, place).map_values(
        |name: Seq<char>| package_names(packages).index_of(name),
    )
}

/// The graph of a list of packages: a node for each package, in the order
/// of the list, which points to the packages of the list that it depends
/// on.
pub open spec fn graph_of(packages: Seq<PackageView>) -> GraphView {
    GraphView {
        nodes: package_names(packages),
        edges: Seq::new(packages.len(), |i: int| dependency_places(packages, i)),
    }
}

/// The packages at the places `order`.
pub open spec fn taken_in(packages: Seq<PackageView>, order: Seq<int>) -> Seq<PackageView> {
    order.map_values(|i: int| packages[i])
}

/// Whether every package of the list comes after the packages of the list
/// that it depends on.
pub open spec fn dependencies_first(packages: Seq<PackageView>) -> bool {
    forall|a: int, j: int|
        0 <= a < packages.len() && 0 <= j < packages[a].dependencies().len() && package_names(
            packages,
        ).contains(#[trigger] packages[a].dependencies()[j].name) ==> named_before(
            packages,
            a,
            packages[a].dependencies()[j].name,
        )
}

/// Whether a package called `name` stands in the list before the place
/// `a`.
pub open spec fn named_before(packages: Seq<PackageView>, a: int, name: Seq<char>) -> bool {
    exists|b: int| 0 <= b < a && (#[trigger] packages[b]).name() == name
}

/// Whether `cycle` walks through packages of the list, from each to one
/// that it depends on, and ends where it began.
pub open spec fn is_dependency_cycle(packages: Seq<PackageView>, cycle: Seq<int>) -> bool {
    &&& cycle.len() > 0
    &&& forall|k: int| 0 <= k < cycle.len() ==> 0 <= #[trigger] cycle[k] < packages.len()
    &&& forall|k: int|
        0 <= k < cycle.len() ==> packages[#[trigger] cycle[k]].manifest.summary.depends_on(
            packages[cycle[(k + 1) % cycle.len() as int]].name(),
        )
}

/// A name that a package depends on and that the list holds a package for
/// is one of the names that it depends on within the list, and the other way
/// round.
pub proof fn within_means_depends_on(packages: Seq<PackageView>, place: int, name: Seq<char>)
    requires
        0 <= place < packages.len(),
    ensures
        dependencies_within(packages, place).contains(name) <==> packages[place].manifest.summary.depends_on(
            name,
        ) && package_names(packages).contains(name),
{
    let all = dependency_names(packages[place].dependencies());
    let within = dependencies_within(packages, place);
    let s = packages[place].manifest.summary;
    if within.contains(name) {
        all.lemma_filter_contains_rev(among(packages), name);
        let m = choose|m: int| 0 <= m < within.len() && within[m] == name;
        all.lemma_filter_pred(among(packages), m);
        let j = choose|j: int| 0 <= j < all.len() && all[j] == name;
        assert(s.dependencies[j].name == name);
    }
    if s.depends_on(name) && package_names(packages).contains(name) {
        let j = choose|j: int| 0 <= j < s.dependencies.len() && (#[trigger] s.dependencies[j]).name == name;
        assert(all[j] == name);
        all.lemma_filter_contains(among(packages), j);
    }
}

/// The graph of a list of packages is well formed where no two of them
/// share a name.
pub proof fn graph_of_is_well_formed(packages: Seq<PackageView>)
    requires
        distinct_names(packages),
    ensures
        graph_of(packages).wf(),
{
    let g = graph_of(packages);
    let names = package_names(packages);
    assert forall|i: int, k: int| 0 <= i < g.edges.len() && 0 <= k < g.edges[i].len() implies 0
        <= #[trigger] g.edges[i][k] < g.nodes.len() by {
        let name = dependencies_within(packages, i)[k];
        assert(dependencies_within(packages, i).contains(name));
        within_means_depends_on(packages, i, name);
        names.index_of_first_ensures(name);
    }
}

/// Whether some packages of the list depend on one another in a circle.
pub open spec fn has_dependency_cycle(packages: Seq<PackageView>) -> bool {
    exists|cycle: Seq<int>| is_dependency_cycle(packages, cycle)
}

/// A circle of packages with distinct names is a cycle of their graph.
pub proof fn dependency_cycle_is_graph_cycle(packages: Seq<PackageView>, cycle: Seq<int>)
    requires
        distinct_names(packages),
        is_dependency_cycle(packages, cycle),
    ensures
        graph_of(packages).is_cycle(cycle),
{
    let g = graph_of(packages);
    let names = package_names(packages);
    assert forall|k: int| 0 <= k < cycle.len() implies g.edges[#[trigger] cycle[k]].contains(
        cycle[(k + 1) % cycle.len() as int],
    ) by {
        let from = cycle[k];
        let m = (k + 1) % cycle.len() as int;
        assert(0 <= m < cycle.len()) by (nonlinear_arith)
            requires
                m == (k + 1) % cycle.len() as int,
                cycle.len() > 0,
        ;
        let to = cycle[m];
        let name = packages[to].name();
        assert(names[to] == name);
        within_means_depends_on(packages, from, name);
        let within = dependencies_within(packages, from);
        let m = choose|m: int| 0 <= m < within.len() && within[m] == name;
        place_is_unique(names, to);
        assert(g.edges[from][m] == to);
    }
}

/// A cycle of the graph of a list of packages is a circle of packages.
pub proof fn graph_cycle_is_dependency_cycle(packages: Seq<PackageView>, cycle: Seq<int>)
    requires
        graph_of(packages).is_cycle(cycle),
    ensures
        is_dependency_cycle(packages, cycle),
{
    let g = graph_of(packages);
    let names = package_names(packages);
    assert forall|k: int| 0 <= k < cycle.len() implies packages[#[trigger] cycle[k]].manifest.summary.depends_on(
        packages[cycle[(k + 1) % cycle.len() as int]].name(),
    ) by {
        let from = cycle[k];
        let m = (k + 1) % cycle.len() as int;
        assert(0 <= m < cycle.len()) by (nonlinear_arith)
            requires
                m == (k + 1) % cycle.len() as int,
                cycle.len() > 0,
        ;
        let to = cycle[m];
        assert(g.edges[from].contains(to));
        let m = choose|m: int| 0 <= m < g.edges[from].len() && g.edges[from][m] == to;
        let name = dependencies_within(packages, from)[m];
        assert(dependencies_within(packages, from).contains(name));
        within_means_depends_on(packages, from, name);
        names.index_of_first_ensures(name);
        assert(packages[to].name() == name);
    }
}

/// A list of packages with distinct names that depend on one another in a
/// circle cannot be put in order.
pub proof fn cycle_cannot_be_ordered(packages: Seq<PackageView>, cycle: Seq<int>)
    requires
        distinct_names(packages),
        is_dependency_cycle(packages, cycle),
    ensures
        !graph_of(packages).sortable(),
        graph_of(packages).order() is None,
{
    dependency_cycle_is_graph_cycle(packages, cycle);
    cycle_has_no_order(graph_of(packages), cycle);
}

/// A list of packages with distinct names can be put in order exactly
/// where no packages depend on one another in a circle.
pub proof fn order_exists_iff_no_dependency_cycle(packages: Seq<PackageView>)
    requires
        distinct_names(packages),
    ensures
        graph_of(packages).order() is Some <==> !has_dependency_cycle(packages),
{
    let g = graph_of(packages);
    graph_of_is_well_formed(packages);
    order_exists_iff_no_cycle(g);
    if has_dependency_cycle(packages) {
        let cycle = choose|cycle: Seq<int>| is_dependency_cycle(packages, cycle);
        dependency_cycle_is_graph_cycle(packages, cycle);
    }
    if g.has_cycle() {
        let cycle = choose|cycle: Seq<int>| g.is_cycle(cycle);
        graph_cycle_is_dependency_cycle(packages, cycle);
    }
}

/// Taking the packages of a list with distinct names in a dependency
/// order of its graph gives the same packages, each once, every one after
/// the packages of the list that it depends on.
pub proof fn order_puts_dependencies_first(packages: Seq<PackageView>, order: Seq<int>)
    requires
        distinct_names(packages),
        graph_of(packages).is_dependency_order(order),
    ensures
        dependencies_first(taken_in(packages, order)),
        distinct_names(taken_in(packages, order)),
        taken_in(packages, order).len() == packages.len(),
        closed(packages) ==> closed(taken_in(packages, order)),
{
    let g = graph_of(packages);
    let names = package_names(packages);
    let sorted = taken_in(packages, order);
    assert forall|a: int, j: int|
        0 <= a < sorted.len() && 0 <= j < sorted[a].dependencies().len() && names.contains(
            #[trigger] sorted[a].dependencies()[j].name,
        ) implies named_before(sorted, a, sorted[a].dependencies()[j].name) by {
        let from = order[a];
        let name = packages[from].dependencies()[j].name;
        names.index_of_first_ensures(name);
        let to = names.index_of(name);
        within_means_depends_on(packages, from, name);
        let within = dependencies_within(packages, from);
        let m = choose|m: int| 0 <= m < within.len() && within[m] == name;
        assert(g.edges[from][m] == to);
        assert(stands_before(order, a, g.edges[order[a]][m]));
        let b = choose|b: int| 0 <= b < a && #[trigger] order[b] == to;
        assert(sorted[b].name() == name);
    }
    assert forall|name: Seq<char>| package_names(sorted).contains(name) implies names.contains(
        name,
    ) by {
        let b = choose|b: int| 0 <= b < sorted.len() && package_names(sorted)[b] == name;
        assert(names[order[b]] == name);
    }
    assert forall|a: int, b: int| 0 <= a < sorted.len() && 0 <= b < sorted.len() && a != b implies package_names(
        sorted,
    )[a] != package_names(sorted)[b] by {
        assert(order[a] != order[b]);
        assert(names[order[a]] != names[order[b]]);
    }
    if closed(packages) {
        assert forall|a: int, j: int|
            0 <= a < sorted.len() && 0 <= j < sorted[a].dependencies().len() implies package_names(
            sorted,
        ).contains(#[trigger] sorted[a].dependencies()[j].name) by {
            let name = sorted[a].dependencies()[j].name;
            assert(names.contains(packages[order[a]].dependencies()[j].name));
            assert(named_before(sorted, a, name));
            let b = choose|b: int| 0 <= b < a && (#[trigger] sorted[b]).name() == name;
            assert(package_names(sorted)[b] == name);
        }
    }
}

/// In a closed list of packages with distinct names, taken in a dependency
/// order of its graph, the package that a dependency names stands before the
/// package that has the dependency.
pub proof fn dependencies_stand_before(
    packages: Seq<PackageView>,
    order: Seq<int>,
    place: int,
    j: int,
)
    requires
        distinct_names(packages),
        closed(packages),
        graph_of(packages).is_dependency_order(order),
        0 <= place < packages.len(),
        0 <= j < taken_in(packages, order)[place].dependencies().len(),
    ensures
        named_before(
            taken_in(packages, order),
            place,
            taken_in(packages, order)[place].dependencies()[j].name,
        ),
{
    order_puts_dependencies_first(packages, order);
    let sorted = taken_in(packages, order);
    assert(package_names(sorted).contains(sorted[place].dependencies()[j].name));
}

/// A collection of packages, no two of which share a name.
#[derive(Debug, PartialEq, Eq)]
pub struct PackageSet {
    packages: Vec<Package>,
}

impl View for PackageSet {
    type V = Seq<PackageView>;

    closed spec fn view(&self) -> Seq<PackageView> {
        package_views(self.packages@)
    }
}

/// A copy of a list of packages.
pub fn clone_packages(packages: &[Package]) -> (r: Vec<Package>)
    ensures
        package_views(r@) == package_views(packages@),
{
    let mut out: Vec<Package> = Vec::new();
    let mut i: usize = 0;
    while i < packages.len()
        invariant
            i <= packages.len(),
            out.len() == i,
            forall|k: int| 0 <= k < i ==> (#[trigger] out@[k])@ == packages@[k]@,
        decreases packages.len() - i,
    {
        out.push(packages[i].clone());
        i += 1;
    }
    assert(package_views(out@) =~= package_views(packages@));
    out
}

/// The place of the first package of the list that is called `name`.
fn find_package(packages: &[Package], name: &str) -> (r: Option<usize>)
    ensures
        match r {
            Some(place) => first_called(package_views(packages@), place as int, name@),
            None => !package_names(package_views(packages@)).contains(name@),
        },
{
    let mut i: usize = 0;
    while i < packages.len()
        invariant
            i <= packages.len(),
            forall|k: int| 0 <= k < i ==> (#[trigger] package_views(packages@)[k]).name() != name@,
        decreases packages.len() - i,
    {
        if str_eq(packages[i].get_name(), name) {
            assert(package_views(packages@)[i as int] == packages@[i as int]@);
            return Some(i);
        }
        assert(package_views(packages@)[i as int] == packages@[i as int]@);
        i += 1;
    }
    assert forall|k: int| 0 <= k < packages.len() implies package_names(
        package_views(packages@),
    )[k] != name@ by {
        assert(package_views(packages@)[k].name() != name@);
    }
    None
}

impl PackageSet {
    #[verifier::type_invariant]
    spec fn sound(&self) -> bool {
        distinct_names(package_views(self.packages@))
    }

    /// Whether no two of `packages` share a name, so that they can make a
    /// set.
    pub fn can_hold(packages: &[Package]) -> (r: bool)
        ensures
            r == distinct_names(package_views(packages@)),
    {
        let ghost names = package_names(package_views(packages@));
        let mut i: usize = 0;
        while i < packages.len()
            invariant
                i <= packages.len(),
                names == package_names(package_views(packages@)),
                forall|a: int, b: int| 0 <= a < b < i ==> names[a] != names[b],
            decreases packages.len() - i,
        {
            let mut k: usize = 0;
            while k < i
                invariant
                    k <= i < packages.len(),
                    names == package_names(package_views(packages@)),
                    forall|a: int| 0 <= a < k ==> names[a] != names[i as int],
                decreases i - k,
            {
                if str_eq(packages[k].get_name(), packages[i].get_name()) {
                    assert(names[k as int] == names[i as int]);
                    return false;
                }
                k += 1;
            }
            i += 1;
        }
        true
    }

    /// The set of `packages`, in their order.
    pub fn new(packages: &[Package]) -> (r: PackageSet)
        requires
            distinct_names(package_views(packages@)),
        ensures
            r@ == package_views(packages@),
    {
        PackageSet { packages: clone_packages(packages) }
    }

    /// The number of packages.
    pub fn len(&self) -> (r: usize)
        ensures
            r == self@.len(),
    {
        self.packages.len()
    }

    /// Takes the last package out of the set.
    pub fn pop(&mut self) -> (r: Package)
        requires
            old(self)@.len() > 0,
        ensures
            r@ == old(self)@.last(),
            final(self)@ == old(self)@.drop_last(),
    {
        proof {
            use_type_invariant(&*self);
        }
        let ghost before = package_views(self.packages@);
        let mut taken = PackageSet { packages: Vec::new() };
        core::mem::swap(self, &mut taken);
        let mut packages = taken.packages;
        let last = packages.pop().unwrap();
        proof {
            assert(package_views(packages@) =~= before.drop_last());
            assert(package_names(before.drop_last()) =~= package_names(before).drop_last());
        }
        *self = PackageSet { packages };
        last
    }

    /// Whether the set holds a package called `name`.
    pub fn contains(&self, name: &str) -> (r: bool)
        ensures
            r == package_names(self@).contains(name@),
    {
        match find_package(self.packages.as_slice(), name) {
            Some(place) => {
                assert(package_names(self@)[place as int] == name@);
                true
            },
            None => false,
        }
    }

    /// The package called `name`.
    pub fn get(&self, name: &str) -> (r: &Package)
        requires
            package_names(self@).contains(name@),
        ensures
            r@.name() == name@,
            self@.contains(r@),
            r@ == self@[package_names(self@).index_of(name@)],
    {
        proof {
            use_type_invariant(self);
        }
        let found = find_package(self.packages.as_slice(), name);
        let place = found.unwrap();
        proof {
            assert(package_names(self@)[place as int] == name@);
            place_is_unique(package_names(self@), place as int);
            assert(self@[place as int] == self.packages@[place as int]@);
        }
        &self.packages[place]
    }

    /// The packages called `names`, in the order of the names.
    pub fn get_all<'a>(&'a self, names: &[&str]) -> (r: Vec<&'a Package>)
        requires
            forall|k: int|
                0 <= k < names.len() ==> package_names(self@).contains((#[trigger] names@[k])@),
        ensures
            r.len() == names.len(),
            forall|k: int|
                0 <= k < names.len() ==> (#[trigger] r@[k])@ == self@[package_names(
                    self@,
                ).index_of(names@[k]@)],
    {
        let mut found: Vec<&'a Package> = Vec::new();
        let mut k: usize = 0;
        while k < names.len()
            invariant
                k <= names.len(),
                found.len() == k,
                forall|j: int|
                    0 <= j < names.len() ==> package_names(self@).contains(
                        (#[trigger] names@[j])@,
                    ),
                forall|j: int|
                    0 <= j < k ==> (#[trigger] found@[j])@ == self@[package_names(self@).index_of(
                        names@[j]@,
                    )],
            decreases names.len() - k,
        {
            found.push(self.get(names[k]));
            k += 1;
        }
        found
    }

    /// The packages, in their order. No two of them share a name.
    pub fn get_packages(&self) -> (r: &[Package])
        ensures
            package_views(r@) == self@,
            distinct_names(self@),
    {
        proof {
            use_type_invariant(self);
        }
        self.packages.as_slice()
    }

    /// The graph of the set.
    fn graph(&self) -> (r: Graph)
        ensures
            r@ == graph_of(self@),
            r@.wf(),
    {
        proof {
            use_type_invariant(self);
            graph_of_is_well_formed(self@);
        }
        let ghost names = package_names(self@);
        let n = self.packages.len();
        let mut g = Graph::new();
        let mut i: usize = 0;
        while i < n
            invariant
                i <= n,
                n == self.packages.len(),
                names == package_names(self@),
                names.no_duplicates(),
                g@.wf(),
                g@.nodes == names.take(i as int),
                g@.edges == Seq::new(i as nat, |k: int| Seq::<int>::empty()),
            decreases n - i,
        {
            let ghost before = g@;
            let name = self.packages[i].get_name();
            let none: Vec<&str> = Vec::new();
            g.add(name, none.as_slice());
            proof {
                assert(self@[i as int] == self.packages@[i as int]@);
                assert(name@ == names[i as int]);
                assert(str_views(none@) =~= Seq::empty());
                if before.nodes.contains(name@) {
                    let k = choose|k: int| 0 <= k < before.nodes.len() && before.nodes[k] == name@;
                    assert(names[k] == names[i as int]);
                }
                let grown = before.with_node(name@);
                assert(grown.with_nodes(Seq::empty()) == grown);
                assert(grown.nodes =~= names.take(i + 1));
                assert(grown.nodes[i as int] == name@);
                place_is_unique(grown.nodes, i as int);
                assert(grown.places_of(Seq::empty()) =~= Seq::<int>::empty());
                assert(g@.edges =~= Seq::new((i + 1) as nat, |k: int| Seq::<int>::empty()));
            }
            i += 1;
        }
        assert(names.take(n as int) =~= names);
        let mut i: usize = 0;
        while i < n
            invariant
                i <= n,
                n == self.packages.len(),
                names == package_names(self@),
                names.no_duplicates(),
                g@.wf(),
                g@.nodes == names,
                g@.edges == Seq::new(
                    n as nat,
                    |k: int|
                        if k < i {
                            dependency_places(self@, k)
                        } else {
                            Seq::<int>::empty()
                        },
                ),
            decreases n - i,
        {
            let ghost before = g@;
            let pkg = &self.packages[i];
            assert(self@[i as int] == pkg@);
            let deps = pkg.get_dependencies();
            let ghost all = dependency_names(pkg@.dependencies());
            let mut out: Vec<&str> = Vec::new();
            let mut j: usize = 0;
            proof {
                assert(all.take(0) =~= Seq::empty());
                all.take(0).lemma_filter_len(among(self@));
                assert(str_views(out@) =~= all.take(0).filter(among(self@)));
            }
            while j < deps.len()
                invariant
                    j <= deps.len(),
                    dependency_views(deps@) == pkg@.dependencies(),
                    all == dependency_names(pkg@.dependencies()),
                    str_views(out@) == all.take(j as int).filter(among(self@)),
                decreases deps.len() - j,
            {
                let ghost before_out = str_views(out@);
                let name = deps[j].get_name();
                proof {
                    assert(dependency_views(deps@)[j as int] == deps@[j as int]@);
                    assert(all[j as int] == name@);
                    assert(all.take(j + 1) =~= all.take(j as int).push(name@));
                    all.take(j as int).lemma_filter_push(name@, among(self@));
                }
                if self.contains(name) {
                    out.push(name);
                    assert(str_views(out@) =~= before_out.push(name@));
                }
                j += 1;
            }
            assert(all.take(deps.len() as int) =~= all);
            g.add(pkg.get_name(), out.as_slice());
            proof {
                let wanted = str_views(out@);
                assert(wanted == dependencies_within(self@, i as int));
                assert(names[i as int] == pkg@.name());
                assert(before.nodes.contains(pkg@.name()));
                assert forall|b: int| 0 <= b < wanted.len() implies before.nodes.contains(
                    #[trigger] wanted[b],
                ) by {
                    assert(wanted.contains(wanted[b]));
                    within_means_depends_on(self@, i as int, wanted[b]);
                }
                with_known_nodes(before, wanted);
                place_is_unique(names, i as int);
                assert(before.places_of(wanted) =~= dependency_places(self@, i as int));
                assert(g@.edges =~= Seq::new(
                    n as nat,
                    |k: int|
                        if k < i + 1 {
                            dependency_places(self@, k)
                        } else {
                            Seq::<int>::empty()
                        },
                ));
            }
            i += 1;
        }
        assert(g@.edges =~= graph_of(self@).edges);
        g
    }

    /// The packages in the order in which they can be built: each after the
    /// packages of the set that it depends on, and of two packages that
    /// could change places the one first that stands first in the set. A
    /// dependency that names no package of the set orders nothing. The
    /// answer is `None` exactly where packages depend on one another in a
    /// circle.
    pub fn sort(&self) -> (r: Option<PackageSet>)
        ensures
            match r {
                Some(sorted) => {
                    &&& graph_of(self@).order() matches Some(order) && sorted@ == taken_in(
                        self@,
                        order,
                    )
                    &&& sorted@.len() == self@.len()
                    &&& dependencies_first(sorted@)
                    &&& closed(self@) ==> closed(sorted@)
                },
                None => graph_of(self@).order() is None,
            },
            r is Some <==> graph_of(self@).sortable(),
            r is None <==> has_dependency_cycle(self@),
    {
        proof {
            use_type_invariant(self);
            order_exists_iff_no_dependency_cycle(self@);
        }
        let g = self.graph();
        match g.sort_places() {
            None => None,
            Some(order) => {
                let ghost places = crate::graph::places(order@);
                let mut sorted: Vec<Package> = Vec::new();
                let mut k: usize = 0;
                while k < order.len()
                    invariant
                        k <= order.len(),
                        places == crate::graph::places(order@),
                        graph_of(self@).is_dependency_order(places),
                        graph_of(self@).nodes.len() == self.packages.len(),
                        sorted.len() == k,
                        forall|j: int|
                            0 <= j < k ==> (#[trigger] sorted@[j])@ == self@[order@[j] as int],
                    decreases order.len() - k,
                {
                    assert(0 <= places[k as int] < self.packages.len());
                    assert(self@[order@[k as int] as int] == self.packages@[order@[k as int] as int]@);
                    sorted.push(self.packages[order[k]].clone());
                    k += 1;
                }
                proof {
                    assert(package_views(sorted@) =~= taken_in(self@, places));
                    order_puts_dependencies_first(self@, places);
                }
                Some(PackageSet { packages: sorted })
            },
        }
    }

    /// The packages, one after the other in their order.
    pub fn iter<'a>(&'a self) -> (r: core::slice::Iter<'a, Package>)
        ensures
            package_views(vstd::std_specs::slice::into_iter_elts(r)) == self@,
    {
        let all = self.packages.as_slice();
        let r = all.iter();
        proof {
            vstd::std_specs::slice::axiom_spec_slice_iter(all);
            assert(vstd::std_specs::slice::into_iter_elts(r) =~= self.packages@);
        }
        r
    }
}

impl Clone for PackageSet {
    fn clone(&self) -> (r: PackageSet)
        ensures
            r@ == self@,
    {
        proof {
            use_type_invariant(self);
        }
        PackageSet { packages: clone_packages(self.packages.as_slice()) }
    }
}

/// A set of packages is a registry: it offers under a name those of its
/// packages that are called so.
impl Registry for PackageSet {
    open spec fn candidates(&self, name: Seq<char>) -> Seq<SummaryView> {
        candidates_among(package_summaries(self@), name)
    }

    open spec fn names(&self) -> Set<Seq<char>> {
        names_of(package_summaries(self@)).to_set()
    }

    proof fn offers(&self) {
        let all = package_summaries(self@);
        assert forall|name: Seq<char>| #[trigger]
            self.candidates(name).len() > 0 implies self.names().contains(name) by {
            candidates_among_are_called(all, name);
        }
        assert forall|name: Seq<char>, i: int|
            0 <= i < self.candidates(name).len() implies (#[trigger] self.candidates(
            name,
        )[i]).package_id.name == name by {
            candidates_among_are_called(all, name);
        }
    }

    fn query<'a>(&'a self, name: &str) -> (r: Vec<&'a Summary>) {
        let ghost all = package_summaries(self@);
        let mut found: Vec<&'a Summary> = Vec::new();
        let mut i: usize = 0;
        assert(all.take(0) =~= Seq::empty());
        while i < self.packages.len()
            invariant
                i <= self.packages.len(),
                all == package_summaries(self@),
                borrowed_views(found@) == candidates_among(all.take(i as int), name@),
            decreases self.packages.len() - i,
        {
            let ghost before = all.take(i as int);
            let ghost old_found = found@;
            let summary = self.packages[i].get_summary();
            assert(all[i as int] == summary@) by {
                assert(self@[i as int] == self.packages@[i as int]@);
            }
            if str_eq(summary.get_name(), name) {
                found.push(summary);
                assert(borrowed_views(found@) =~= borrowed_views(old_found).push(summary@));
            }
            proof {
                assert(all.take(i + 1) =~= before.push(all[i as int]));
                before.lemma_filter_push(all[i as int], called(name@));
            }
            i += 1;
        }
        assert(all.take(self.packages.len() as int) =~= all);
        found
    }
}

} // verus!
