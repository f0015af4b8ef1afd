use cargo::dependency::Dependency;
use cargo::location::Url;
use cargo::package_id::PackageId;
use cargo::paths::{dir_name, join};
use cargo::registry::Registry;
use cargo::source::{SourceId, SourceKind};
use cargo::summary::Summary;
use cargo::text::{join_words, str_eq, to_str, trim_right};
use cargo::version::{Version, VersionReq};

#[test]
fn version_is_read_in_its_parts() {
    let v = Version::parse("1.2.3-beta.1+build5").unwrap();

    assert_eq!(v.get_major(), 1);
    assert_eq!(v.get_minor(), 2);
    assert_eq!(v.get_patch(), 3);
    assert_eq!(v.get_pre(), "beta.1");
    assert_eq!(v.get_build(), "build5");
}

#[test]
fn plain_version_has_no_tags() {
    let v = Version::parse("1.0.0").unwrap();

    assert_eq!(v, Version::new(1, 0, 0));
    assert_eq!(v.get_pre(), "");
    assert_eq!(v.get_build(), "");
}

#[test]
fn what_is_no_version_is_refused() {
    assert!(Version::parse("").is_none());
    assert!(Version::parse("1.0").is_none());
    assert!(Version::parse("1.q.r").is_none());
    assert!(Version::parse("01.0.0").is_none());
    assert!(Version::parse("1.0.0 ").is_none());
}

#[test]
fn versions_are_equal_by_all_parts() {
    let v = Version::parse("1.0.0").unwrap();

    assert!(v == v.clone());
    assert!(v != Version::parse("1.0.1").unwrap());
    assert!(v != Version::parse("1.0.0-rc1").unwrap());
    assert!(v != Version::parse("1.0.0+b").unwrap());
}

#[test]
fn requirement_asks_for_one_version() {
    let req = VersionReq::parse("1.0.0").unwrap();

    assert!(req.matches(&Version::new(1, 0, 0)));
    assert!(!req.matches(&Version::new(1, 0, 1)));
    assert!(!req.matches(&Version::new(2, 0, 0)));
    assert_eq!(req, VersionReq::exact(&Version::new(1, 0, 0)));
    assert_eq!(req.get_version(), &Version::new(1, 0, 0));
    assert!(VersionReq::parse("nothing").is_none());
}

#[test]
fn url_is_read_in_its_parts() {
    let u = Url::parse("http://www.example.com").unwrap();

    assert_eq!(u.as_str(), "http://www.example.com/");
    assert_eq!(u.get_scheme(), "http");
    assert_eq!(u.get_path(), "/");
}

#[test]
fn url_of_a_file_has_its_path() {
    let u = Url::parse("file:///tmp/some/repo").unwrap();

    assert_eq!(u.get_scheme(), "file");
    assert_eq!(u.get_path(), "/tmp/some/repo");
    assert_eq!(u.as_str(), "file:///tmp/some/repo");
}

#[test]
fn what_is_no_url_is_refused() {
    assert!(Url::parse("").is_none());
    assert!(Url::parse("no url at all").is_none());
    assert!(Url::parse("/only/a/path").is_none());
}

#[test]
fn urls_are_equal_by_their_text() {
    let a = Url::parse("http://www.example.com").unwrap();
    let b = Url::parse("http://www.example.com/").unwrap();
    let c = Url::parse("http://www.example.com/x").unwrap();

    assert!(a == b);
    assert!(a != c);
    assert!(a.clone() == a);
}

fn id(name: &str, version: &str, url: &str) -> PackageId {
    PackageId::new(name, Version::parse(version).unwrap(), Url::parse(url).unwrap())
}

#[test]
fn identities_are_equal_by_name_version_and_source() {
    let a = id("foo", "1.0.0", "http://www.example.com/");

    assert!(a == id("foo", "1.0.0", "http://www.example.com/"));
    assert!(a != id("bar", "1.0.0", "http://www.example.com/"));
    assert!(a != id("foo", "1.0.1", "http://www.example.com/"));
    assert!(a != id("foo", "1.0.0", "http://www.example.org/"));
    assert!(a.clone() == a);
}

#[test]
fn identity_gives_its_parts() {
    let a = id("foo", "1.2.3", "http://www.example.com/");

    assert_eq!(a.get_name(), "foo");
    assert_eq!(a.get_version(), &Version::new(1, 2, 3));
    assert_eq!(a.get_namespace().as_str(), "http://www.example.com/");
}

#[test]
fn dependency_gives_its_parts() {
    let d = Dependency::parse("foo", "1.2.3").unwrap();

    assert_eq!(d.get_name(), "foo");
    assert!(d.get_version_req().matches(&Version::new(1, 2, 3)));
    assert!(d.get_namespace().is_none());
    assert!(d == Dependency::exact("foo", &Version::new(1, 2, 3)));
    assert!(d != Dependency::exact("foo", &Version::new(1, 2, 4)));
    assert!(d.clone() == d);
    assert!(Dependency::parse("foo", "one").is_none());
}

#[test]
fn dependency_keeps_its_source() {
    let u = Url::parse("http://www.example.com/").unwrap();
    let d = Dependency::with_namespace("foo", VersionReq::exact(&Version::new(1, 0, 0)), u.clone());

    assert_eq!(d.get_namespace(), Some(&u));
    assert!(d != Dependency::new("foo", VersionReq::exact(&Version::new(1, 0, 0))));
}

#[test]
fn summary_keeps_identity_and_dependencies() {
    let deps = vec![
        Dependency::parse("bar", "1.0.0").unwrap(),
        Dependency::parse("baz", "2.0.0").unwrap(),
    ];
    let s = Summary::new(&id("foo", "1.0.0", "http://www.example.com/"), &deps).unwrap();

    assert_eq!(s.get_name(), "foo");
    assert_eq!(s.get_package_id(), &id("foo", "1.0.0", "http://www.example.com/"));
    assert_eq!(s.get_dependencies(), deps.as_slice());
    assert_eq!(s.clone().get_dependencies(), deps.as_slice());
}

#[test]
fn summary_may_not_name_itself() {
    let deps = vec![
        Dependency::parse("bar", "1.0.0").unwrap(),
        Dependency::parse("foo", "1.0.0").unwrap(),
    ];

    assert!(Summary::new(&id("foo", "1.0.0", "http://www.example.com/"), &deps).is_none());
}

#[test]
fn list_of_summaries_answers_by_name() {
    let a = id("foo", "1.0.0", "http://www.example.com/");
    let b = id("bar", "1.0.0", "http://www.example.com/");
    let c = id("foo", "2.0.0", "http://www.example.com/");
    let reg = vec![
        Summary::new(&a, &[]).unwrap(),
        Summary::new(&b, &[]).unwrap(),
        Summary::new(&c, &[]).unwrap(),
    ];

    let found = reg.query("foo");
    assert_eq!(found.len(), 2);
    assert_eq!(found[0].get_package_id(), &a);
    assert_eq!(found[1].get_package_id(), &c);
    assert_eq!(reg.query("bar").len(), 1);
    assert!(reg.query("baz").is_empty());
}

#[test]
fn sources_are_equal_by_kind_and_place() {
    let u = Url::parse("http://www.example.com/repo").unwrap();
    let git = SourceId::for_git(u.clone(), "dev");

    assert!(git.is_git());
    assert_eq!(git.get_kind(), SourceKind::GitKind);
    assert_eq!(git.get_reference(), Some("dev"));
    assert_eq!(git.get_url(), &u);
    assert!(git == SourceId::for_git(u.clone(), "dev"));
    assert!(git != SourceId::for_git(u.clone(), "main"));
    assert!(git != SourceId::new(SourceKind::GitKind, u.clone()));
    assert!(git != SourceId::for_git(Url::parse("http://www.example.com/other").unwrap(), "dev"));
    assert!(git == git.clone());

    let path = SourceId::new(SourceKind::PathKind, u.clone());
    assert!(!path.is_git());
    assert_eq!(path.get_reference(), None);
    assert!(path != SourceId::new(SourceKind::RegistryKind, u.clone()));
    assert!(path == SourceId::new(SourceKind::PathKind, u));
}

#[test]
fn directory_of_a_path() {
    assert_eq!(dir_name("/a/b/Cargo.toml"), "/a/b");
    assert_eq!(dir_name("/Cargo.toml"), "/");
    assert_eq!(dir_name("Cargo.toml"), ".");
    assert_eq!(dir_name("a/b"), "a");
    assert_eq!(dir_name(""), ".");
    assert_eq!(dir_name("/"), "/");
    assert_eq!(dir_name("/a/b/"), "/a/b");
    assert_eq!(dir_name("/\u{e9}t\u{e9}/x"), "/\u{e9}t\u{e9}");
}

#[test]
fn one_path_seen_from_another() {
    assert_eq!(join("/a/b", "target"), "/a/b/target");
    assert_eq!(join("/a/b/", "target"), "/a/b/target");
    assert_eq!(join("/a/b", "/abs"), "/abs");
    assert_eq!(join("", "target"), "target");
    assert_eq!(join("/", "target"), "/target");
    assert_eq!(join("/a", ""), "/a/");
    assert_eq!(join(".", "target/deps"), "./target/deps");
}

#[test]
fn strings_compare_by_their_characters() {
    assert!(str_eq("master", "master"));
    assert!(!str_eq("master", "Master"));
    assert!(str_eq("", ""));
    assert!(!str_eq("a", ""));
}

#[test]
fn words_are_joined() {
    let words = vec!["a".to_string(), "b c".to_string(), "d".to_string()];

    assert_eq!(join_words(&words, " "), "a b c d");
    assert_eq!(join_words(&words, ", "), "a, b c, d");
    assert_eq!(join_words(&words[..1], " "), "a");
    assert_eq!(join_words(&[], " "), "");
}

#[test]
fn bytes_are_read_as_text() {
    assert_eq!(to_str(b"a1b2c3\n"), "a1b2c3\n");
    assert_eq!(to_str("\u{e9}t\u{e9}".as_bytes()), "\u{e9}t\u{e9}");
    assert_eq!(to_str(&[0x61, 0xff, 0x62]), "a\u{fffd}b");
    assert_eq!(to_str(&[]), "");
}

#[test]
fn white_space_at_the_end_is_dropped() {
    assert_eq!(trim_right("a1b2c3\n"), "a1b2c3");
    assert_eq!(trim_right("  a b \t\r\n "), "  a b");
    assert_eq!(trim_right("abc"), "abc");
    assert_eq!(trim_right(" \n"), "");
    assert_eq!(trim_right(""), "");
    assert_eq!(trim_right("x\u{2003}"), "x");
}
