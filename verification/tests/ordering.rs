use cargo::dependency::Dependency;
use cargo::graph::Graph;
use cargo::location::Url;
use cargo::manifest::{CrateType, Manifest, Target, TargetKind};
use cargo::package::{Package, PackageSet};
use cargo::package_id::PackageId;
use cargo::registry::Registry;
use cargo::resolver::resolve;
use cargo::source::{SourceId, SourceKind};
use cargo::summary::Summary;
use cargo::version::Version;

fn id(name: &str) -> PackageId {
    PackageId::new(
        name,
        Version::parse("1.0.0").unwrap(),
        Url::parse("http://www.example.com/").unwrap(),
    )
}

fn package(name: &str, deps: &[&str]) -> Package {
    let d: Vec<Dependency> = deps.iter().map(|s| Dependency::parse(s, "1.0.0").unwrap()).collect();
    let summary = Summary::new(&id(name), d.as_slice()).unwrap();
    let targets = vec![
        Target::lib_target(name, &[CrateType::Lib], "src/lib.rs"),
        Target::bin_target(name, "src/main.rs"),
    ];
    let sources = vec![SourceId::new(SourceKind::PathKind, Url::parse("file:///work").unwrap())];
    let authors = vec!["A. Author".to_string()];
    let manifest = Manifest::new(&summary, &targets, "target", &sources, &authors);
    Package::new(manifest, &format!("/work/{}/Cargo.toml", name))
}

fn names_of(set: &PackageSet) -> Vec<String> {
    set.get_packages().iter().map(|p| p.get_name().to_string()).collect()
}

fn sorted_names(packages: &[Package]) -> Option<Vec<String>> {
    let set = PackageSet::new(packages);
    set.sort().map(|s| names_of(&s))
}

#[test]
fn empty_graph_has_the_empty_order() {
    let g = Graph::new();

    assert_eq!(g.len(), 0);
    assert_eq!(g.sort(), Some(vec![]));
    assert_eq!(g.sort_places(), Some(vec![]));
}

#[test]
fn graph_puts_what_is_pointed_to_first() {
    let mut g = Graph::new();
    g.add("a", &["b", "c"]);
    g.add("b", &["c"]);
    g.add("c", &[]);

    assert_eq!(g.len(), 3);
    assert_eq!(g.name_at(0), "a");
    assert_eq!(g.name_at(1), "b");
    assert_eq!(g.name_at(2), "c");
    assert_eq!(g.sort(), Some(vec!["c".to_string(), "b".to_string(), "a".to_string()]));
    assert_eq!(g.sort_places(), Some(vec![2, 1, 0]));
}

#[test]
fn graph_makes_nodes_for_what_is_pointed_to() {
    let mut g = Graph::new();
    g.add("a", &["x", "y"]);

    assert_eq!(g.len(), 3);
    assert_eq!(g.name_at(1), "x");
    assert_eq!(g.name_at(2), "y");
    assert_eq!(g.sort(), Some(vec!["x".to_string(), "y".to_string(), "a".to_string()]));
}

#[test]
fn graph_knows_a_name_once() {
    let mut g = Graph::new();

    assert_eq!(g.node("a"), 0);
    assert_eq!(g.node("b"), 1);
    assert_eq!(g.node("a"), 0);
    assert_eq!(g.len(), 2);
}

#[test]
fn graph_breaks_ties_by_the_order_of_meeting() {
    let mut g = Graph::new();
    g.add("x", &["a"]);
    g.add("b", &[]);
    g.add("a", &[]);

    // nodes: x, a, b; `a` must go before `x`, and `x` was met before `b`
    assert_eq!(g.sort(), Some(vec!["a".to_string(), "x".to_string(), "b".to_string()]));
}

#[test]
fn graph_takes_the_edges_given_last() {
    let mut g = Graph::new();
    g.add("a", &["b"]);
    g.add("b", &["a"]);
    assert_eq!(g.sort(), None);

    g.add("b", &[]);
    assert_eq!(g.sort(), Some(vec!["b".to_string(), "a".to_string()]));
}

#[test]
fn graph_with_a_cycle_has_no_order() {
    let mut g = Graph::new();
    g.add("a", &["b"]);
    g.add("b", &["c"]);
    g.add("c", &["a"]);
    g.add("d", &[]);

    assert_eq!(g.sort(), None);
    assert_eq!(g.sort_places(), None);
}

#[test]
fn graph_with_a_loop_has_no_order() {
    let mut g = Graph::new();
    g.add("a", &["a"]);

    assert_eq!(g.sort(), None);
}

#[test]
fn package_gives_its_parts() {
    let p = package("foo", &["bar"]);

    assert_eq!(p.get_name(), "foo");
    assert_eq!(p.get_version(), &Version::new(1, 0, 0));
    assert_eq!(p.get_package_id(), &id("foo"));
    assert_eq!(p.get_summary().get_name(), "foo");
    assert_eq!(p.get_manifest().get_name(), "foo");
    assert_eq!(p.get_dependencies().len(), 1);
    assert_eq!(p.get_dependencies()[0].get_name(), "bar");
    assert_eq!(p.get_targets().len(), 2);
    assert_eq!(p.get_manifest_path(), "/work/foo/Cargo.toml");
    assert_eq!(p.get_root(), "/work/foo");
    assert_eq!(p.get_target_dir(), "target");
    assert_eq!(p.get_absolute_target_dir(), "/work/foo/target");
    assert_eq!(p.get_sources().len(), 1);
    assert_eq!(p.get_manifest().get_authors(), &["A. Author".to_string()]);
    assert_eq!(p.clone().get_root(), "/work/foo");
}

#[test]
fn package_is_met_by_its_own_dependency() {
    let p = package("foo", &[]);
    let d = p.to_dependency();

    assert_eq!(d.get_name(), "foo");
    assert!(d.get_version_req().matches(p.get_version()));
    assert!(d == Dependency::exact("foo", &Version::new(1, 0, 0)));
}

#[test]
fn targets_give_their_parts() {
    let l = Target::lib_target("foo", &[CrateType::Lib, CrateType::Rlib], "src/foo.rs");
    let b = Target::bin_target("foo", "src/main.rs");

    assert!(l.is_lib() && !l.is_bin());
    assert!(b.is_bin() && !b.is_lib());
    assert_eq!(l.get_kind(), TargetKind::LibTarget);
    assert_eq!(b.get_kind(), TargetKind::ExecTarget);
    assert_eq!(l.get_name(), "foo");
    assert_eq!(l.get_path(), "src/foo.rs");
    assert_eq!(l.rustc_crate_types(), &[CrateType::Lib, CrateType::Rlib]);
    assert_eq!(b.rustc_crate_types(), &[CrateType::Bin]);
    assert!(l.clone() == l);
}

#[test]
fn crate_types_have_their_words() {
    assert_eq!(CrateType::Lib.as_str(), "lib");
    assert_eq!(CrateType::Rlib.as_str(), "rlib");
    assert_eq!(CrateType::Dylib.as_str(), "dylib");
    assert_eq!(CrateType::Staticlib.as_str(), "staticlib");
    assert_eq!(CrateType::Bin.as_str(), "bin");
}

#[test]
fn set_holds_packages_in_their_order() {
    let mut set = PackageSet::new(&[package("foo", &[]), package("bar", &["foo"])]);

    assert_eq!(set.len(), 2);
    assert_eq!(names_of(&set), vec!["foo", "bar"]);
    assert_eq!(set.iter().map(|p| p.get_name()).collect::<Vec<_>>(), vec!["foo", "bar"]);
    assert!(set.contains("foo"));
    assert!(!set.contains("baz"));
    assert_eq!(set.get("bar").get_name(), "bar");
    assert_eq!(set.get("bar").get_dependencies().len(), 1);
    let both = set.get_all(&["bar", "foo"]);
    assert_eq!(both.len(), 2);
    assert_eq!(both[0].get_name(), "bar");
    assert_eq!(both[1].get_name(), "foo");
    assert_eq!(names_of(&set.clone()), vec!["foo", "bar"]);

    let last = set.pop();
    assert_eq!(last.get_name(), "bar");
    assert_eq!(set.len(), 1);
    assert_eq!(names_of(&set), vec!["foo"]);
}

#[test]
fn set_wants_each_name_once() {
    assert!(PackageSet::can_hold(&[package("foo", &[]), package("bar", &[])]));
    assert!(!PackageSet::can_hold(&[package("foo", &[]), package("bar", &[]), package("foo", &[])]));
    assert!(PackageSet::can_hold(&[]));
}

#[test]
fn sorting_passes_over_dependencies_that_are_not_in_the_set() {
    assert_eq!(
        sorted_names(&[package("bar", &["gone", "foo"]), package("foo", &["gone"])]),
        Some(vec!["foo".to_string(), "bar".to_string()])
    );
    assert_eq!(sorted_names(&[package("bar", &["foo"])]), Some(vec!["bar".to_string()]));
}

#[test]
fn set_answers_as_a_registry() {
    let set = PackageSet::new(&[package("foo", &[]), package("bar", &["foo"])]);

    let found = set.query("bar");
    assert_eq!(found.len(), 1);
    assert_eq!(found[0].get_package_id(), &id("bar"));
    assert!(set.query("baz").is_empty());
}

#[test]
fn sorting_puts_dependencies_first() {
    assert_eq!(
        sorted_names(&[package("bar", &["foo"]), package("foo", &[])]),
        Some(vec!["foo".to_string(), "bar".to_string()])
    );
}

#[test]
fn sorting_keeps_an_order_that_is_sound() {
    assert_eq!(
        sorted_names(&[package("foo", &[]), package("bar", &["foo"])]),
        Some(vec!["foo".to_string(), "bar".to_string()])
    );
}

#[test]
fn sorting_breaks_ties_by_the_order_of_the_set() {
    assert_eq!(
        sorted_names(&[
            package("x", &["a"]),
            package("b", &[]),
            package("a", &[]),
            package("c", &["b", "x"]),
        ]),
        Some(vec!["b".to_string(), "a".to_string(), "x".to_string(), "c".to_string()])
    );
}

#[test]
fn sorting_a_diamond() {
    let sorted = sorted_names(&[
        package("a", &["b", "c"]),
        package("b", &["d"]),
        package("c", &["d"]),
        package("d", &[]),
    ])
    .unwrap();

    assert_eq!(sorted, vec!["d", "b", "c", "a"]);
}

#[test]
fn sorting_a_cycle_fails() {
    assert_eq!(sorted_names(&[package("foo", &["bar"]), package("bar", &["foo"])]), None);
    assert_eq!(
        sorted_names(&[
            package("z", &[]),
            package("a", &["b"]),
            package("b", &["c"]),
            package("c", &["a"]),
        ]),
        None
    );
}

#[test]
fn sorting_nothing_gives_nothing() {
    assert_eq!(sorted_names(&[]), Some(vec![]));
}

fn hydrate(all: &[Package], ids: &[PackageId]) -> PackageSet {
    let found: Vec<Package> = ids
        .iter()
        .map(|id| all.iter().find(|p| p.get_package_id() == id).unwrap().clone())
        .collect();
    assert!(PackageSet::can_hold(&found));
    PackageSet::new(&found)
}

#[test]
fn resolved_packages_are_sorted_for_the_build() {
    let all = vec![package("foo", &[]), package("bar", &["foo"])];
    let registry = PackageSet::new(&all);
    let ids = resolve(&[Dependency::parse("bar", "1.0.0").unwrap()], &registry).unwrap();
    assert_eq!(ids, vec![id("bar"), id("foo")]);

    let set = hydrate(&all, &ids);
    assert_eq!(names_of(&set.sort().unwrap()), vec!["foo", "bar"]);
}

#[test]
fn resolved_circle_cannot_be_sorted() {
    let all = vec![package("foo", &["bar"]), package("bar", &["foo"])];
    let registry = PackageSet::new(&all);
    let ids = resolve(&[Dependency::parse("foo", "1.0.0").unwrap()], &registry).unwrap();
    assert_eq!(ids, vec![id("foo"), id("bar")]);

    let set = hydrate(&all, &ids);
    assert!(set.sort().is_none());
}

#[test]
fn sorted_set_has_each_dependency_at_a_lower_place() {
    let set = PackageSet::new(&[
        package("e", &["a", "d"]),
        package("d", &["c", "b"]),
        package("c", &["a"]),
        package("b", &["a"]),
        package("a", &[]),
    ]);
    let sorted = set.sort().unwrap();
    let names = names_of(&sorted);

    assert_eq!(names, vec!["a", "c", "b", "d", "e"]);
    for (place, p) in sorted.get_packages().iter().enumerate() {
        for d in p.get_dependencies() {
            let at = names.iter().position(|n| n == d.get_name()).unwrap();
            assert!(at < place);
        }
    }
}
