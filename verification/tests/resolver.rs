use cargo::dependency::Dependency;
use cargo::errors::CargoError;
use cargo::location::Url;
use cargo::package_id::PackageId;
use cargo::resolver::resolve;
use cargo::summary::Summary;
use cargo::version::Version;

fn id(name: &str) -> PackageId {
    PackageId::new(
        name,
        Version::parse("1.0.0").unwrap(),
        Url::parse("http://www.example.com/").unwrap(),
    )
}

fn pkg(name: &str) -> Summary {
    Summary::new(&id(name), &[]).unwrap()
}

fn pkg_with(name: &str, deps: &[&str]) -> Summary {
    let d: Vec<Dependency> = deps.iter().map(|s| Dependency::parse(s, "1.0.0").unwrap()).collect();
    Summary::new(&id(name), d.as_slice()).unwrap()
}

fn dep(name: &str) -> Dependency {
    Dependency::parse(name, "1.0.0").unwrap()
}

fn registry(pkgs: Vec<Summary>) -> Vec<Summary> {
    pkgs
}

fn names(names: &[&'static str]) -> Vec<PackageId> {
    names.iter().map(|name| id(name)).collect()
}

fn holds_all(res: &Vec<PackageId>, wanted: &Vec<PackageId>) -> bool {
    wanted.iter().all(|w| res.contains(w))
}

#[test]
pub fn test_resolving_empty_dependency_list() {
    let res = resolve(&[], &registry(vec![])).unwrap();

    assert_eq!(res, names(&[]));
}

#[test]
pub fn test_resolving_only_package() {
    let reg = registry(vec![pkg("foo")]);
    let res = resolve(&[dep("foo")], &reg);

    assert_eq!(res.unwrap(), names(&["foo"]));
}

#[test]
pub fn test_resolving_one_dep() {
    let reg = registry(vec![pkg("foo"), pkg("bar")]);
    let res = resolve(&[dep("foo")], &reg);

    assert_eq!(res.unwrap(), names(&["foo"]));
}

#[test]
pub fn test_resolving_multiple_deps() {
    let reg = registry(vec![pkg("foo"), pkg("bar"), pkg("baz")]);
    let res = resolve(&[dep("foo"), dep("baz")], &reg).unwrap();

    let wanted = names(&["foo", "baz"]);
    assert!(holds_all(&res, &wanted));
    assert_eq!(res.len(), wanted.len());
}

#[test]
pub fn test_resolving_transitive_deps() {
    let reg = registry(vec![pkg("foo"), pkg_with("bar", &["foo"])]);
    let res = resolve(&[dep("bar")], &reg).unwrap();

    assert!(holds_all(&res, &names(&["foo", "bar"])));
}

#[test]
pub fn test_resolving_common_transitive_deps() {
    let reg = registry(vec![pkg_with("foo", &["bar"]), pkg("bar")]);
    let res = resolve(&[dep("foo"), dep("bar")], &reg).unwrap();

    assert!(holds_all(&res, &names(&["foo", "bar"])));
}

#[test]
fn resolving_keeps_the_order_of_choice() {
    let reg = registry(vec![pkg("foo"), pkg_with("bar", &["foo"])]);
    let res = resolve(&[dep("bar")], &reg).unwrap();

    assert_eq!(res, names(&["bar", "foo"]));
}

#[test]
fn resolving_names_each_package_once() {
    let reg = registry(vec![pkg_with("foo", &["bar", "bar"]), pkg("bar")]);
    let res = resolve(&[dep("foo"), dep("foo"), dep("bar")], &reg).unwrap();

    assert_eq!(res.len(), 2);
    assert!(holds_all(&res, &names(&["foo", "bar"])));
}

#[test]
fn resolving_a_cycle_ends() {
    let reg = registry(vec![pkg_with("foo", &["bar"]), pkg_with("bar", &["foo"])]);
    let res = resolve(&[dep("foo")], &reg).unwrap();

    assert_eq!(res, names(&["foo", "bar"]));
}

#[test]
fn resolving_an_unknown_name_fails() {
    let res = resolve(&[dep("foo")], &registry(vec![]));

    assert_eq!(res, Err(CargoError::UnresolvedDependency { name: "foo".to_string() }));
}

#[test]
fn resolving_an_unknown_transitive_name_fails() {
    let reg = registry(vec![pkg_with("bar", &["foo"])]);
    let res = resolve(&[dep("bar")], &reg);

    assert_eq!(res, Err(CargoError::UnresolvedDependency { name: "foo".to_string() }));
}

#[test]
fn resolving_a_name_offered_twice_fails() {
    let reg = registry(vec![pkg("foo"), pkg("bar"), pkg("foo")]);
    let res = resolve(&[dep("foo")], &reg);

    assert_eq!(res, Err(CargoError::AmbiguousDependency { name: "foo".to_string(), count: 2 }));
}

#[test]
fn resolving_ignores_names_that_are_not_needed() {
    let reg = registry(vec![pkg("foo"), pkg("bar"), pkg("bar")]);
    let res = resolve(&[dep("foo")], &reg);

    assert_eq!(res.unwrap(), names(&["foo"]));
}

#[test]
fn resolving_the_resolution_changes_nothing() {
    let reg = registry(vec![
        pkg_with("a", &["b", "c"]),
        pkg_with("b", &["d"]),
        pkg_with("c", &["d"]),
        pkg("d"),
        pkg("e"),
    ]);
    let first = resolve(&[dep("a")], &reg).unwrap();
    let again: Vec<Dependency> =
        first.iter().map(|p| Dependency::exact(p.get_name(), p.get_version())).collect();
    let second = resolve(again.as_slice(), &reg).unwrap();

    assert_eq!(first.len(), 4);
    assert_eq!(second.len(), first.len());
    assert!(holds_all(&second, &first));
    assert!(holds_all(&first, &names(&["a", "b", "c", "d"])));
}

#[test]
fn resolving_twice_gives_the_same() {
    let reg = registry(vec![pkg_with("a", &["b"]), pkg("b")]);
    let first = resolve(&[dep("a")], &reg).unwrap();
    let second = resolve(&[dep("a")], &reg).unwrap();

    assert_eq!(first, second);
}
