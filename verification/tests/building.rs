use cargo::cargo_rustc::{
    build_base_args, build_deps_args, compile_packages, compile_pkg, mk_target, prepare_rustc,
    rustc, rustc_to_cargo_err, topsort, BuildStep,
};
use cargo::dependency::Dependency;
use cargo::errors::{CargoError, ProcessError};
use cargo::location::Url;
use cargo::manifest::{CrateType, Manifest, Target};
use cargo::package::{Package, PackageSet};
use cargo::package_id::PackageId;
use cargo::process::process;
use cargo::summary::Summary;
use cargo::version::Version;

fn id(name: &str) -> PackageId {
    PackageId::new(
        name,
        Version::parse("1.0.0").unwrap(),
        Url::parse("http://www.example.com/").unwrap(),
    )
}

fn package(name: &str, deps: &[&str], targets: &[Target]) -> Package {
    let d: Vec<Dependency> = deps.iter().map(|s| Dependency::parse(s, "1.0.0").unwrap()).collect();
    let summary = Summary::new(&id(name), d.as_slice()).unwrap();
    let manifest = Manifest::new(&summary, targets, "target", &[], &[]);
    Package::new(manifest, &format!("/work/{}/Cargo.toml", name))
}

fn strings(words: &[&str]) -> Vec<String> {
    words.iter().map(|w| w.to_string()).collect()
}

fn show(step: &BuildStep) -> String {
    match step {
        BuildStep::MakeDir { path } => format!("mkdir {}", path),
        BuildStep::Announce { package } => format!("announce {}", package.get_name()),
        BuildStep::Compile { command, primary } => format!(
            "{} in {}: {}",
            if *primary { "stream" } else { "capture" },
            command.get_cwd(),
            command.command_line()
        ),
    }
}

#[test]
fn process_is_built_up() {
    let p = process("git").arg("fetch").args(&strings(&["--force", "x y"])).cwd("/repo").env_remove("A");

    assert_eq!(p.get_program(), "git");
    assert_eq!(p.get_args(), strings(&["fetch", "--force", "x y"]).as_slice());
    assert_eq!(p.get_cwd(), "/repo");
    assert_eq!(p.get_unset(), strings(&["A"]).as_slice());
    assert_eq!(p.command_line(), "git fetch --force x y");
    assert!(p.clone() == p);
    assert_eq!(process("ls").get_cwd(), ".");
    assert_eq!(process("ls").command_line(), "ls");
}

#[test]
fn arguments_for_source_and_output() {
    let t = Target::lib_target("foo", &[CrateType::Lib], "src/foo.rs");
    let mut args = strings(&["first"]);
    build_base_args(&mut args, &t, "lib", "/out");

    assert_eq!(args, strings(&["first", "src/foo.rs", "--crate-type", "lib", "--out-dir", "/out"]));
}

#[test]
fn arguments_for_dependencies() {
    let mut args = strings(&["first"]);
    build_deps_args(&mut args, "/out/deps");

    assert_eq!(args, strings(&["first", "-L", "/out/deps"]));
}

#[test]
fn compiler_is_called_on_source_output_and_dependencies() {
    let t = Target::lib_target("foo", &[CrateType::Rlib], "src/foo.rs");
    let p = prepare_rustc("/work/foo", &t, CrateType::Rlib, "/out", "/out/deps");

    assert_eq!(p.get_program(), "rustc");
    assert_eq!(p.get_cwd(), "/work/foo");
    assert_eq!(
        p.get_args(),
        strings(&["src/foo.rs", "--crate-type", "rlib", "--out-dir", "/out", "-L", "/out/deps"])
            .as_slice()
    );
    assert_eq!(p.get_unset(), strings(&["RUST_LOG"]).as_slice());
}

#[test]
fn target_is_compiled_once_for_each_kind_of_output() {
    let t = Target::lib_target("foo", &[CrateType::Lib, CrateType::Dylib], "src/foo.rs");
    let steps = rustc("/work/foo", &t, "/out", "/deps", false);

    assert_eq!(
        steps.iter().map(show).collect::<Vec<_>>(),
        vec![
            "capture in /work/foo: rustc src/foo.rs --crate-type lib --out-dir /out -L /deps",
            "capture in /work/foo: rustc src/foo.rs --crate-type dylib --out-dir /out -L /deps",
        ]
    );
    assert!(rustc("/w", &Target::lib_target("n", &[], "x.rs"), "/o", "/d", true).is_empty());
}

#[test]
fn dependency_builds_only_its_libraries() {
    let p = package(
        "dep",
        &[],
        &[
            Target::bin_target("tool", "src/tool.rs"),
            Target::lib_target("dep", &[CrateType::Lib], "src/dep.rs"),
            Target::bin_target("other", "src/other.rs"),
        ],
    );

    assert_eq!(
        compile_pkg(&p, "/out/deps", "/out/deps", false).iter().map(show).collect::<Vec<_>>(),
        vec!["capture in /work/dep: rustc src/dep.rs --crate-type lib --out-dir /out/deps -L /out/deps"]
    );
    assert_eq!(compile_pkg(&p, "/out", "/out/deps", true).len(), 3);
}

#[test]
fn directory_step_names_the_directory() {
    assert_eq!(show(&mk_target("/work/target")), "mkdir /work/target");
}

#[test]
fn build_compiles_dependencies_then_the_package() {
    let primary = package(
        "p",
        &["d"],
        &[
            Target::lib_target("l", &[CrateType::Lib], "src/l.rs"),
            Target::bin_target("e", "src/e.rs"),
        ],
    );
    let dep = package(
        "d",
        &[],
        &[
            Target::lib_target("dl", &[CrateType::Lib], "src/dl.rs"),
            Target::bin_target("de", "src/de.rs"),
        ],
    );
    let plan = compile_packages(&primary, &PackageSet::new(&[dep]));

    assert_eq!(plan.failure, None);
    assert_eq!(
        plan.steps.iter().map(show).collect::<Vec<_>>(),
        vec![
            "mkdir /work/p/target",
            "mkdir /work/p/target/deps",
            "announce d",
            "capture in /work/d: rustc src/dl.rs --crate-type lib --out-dir /work/p/target/deps -L /work/p/target/deps",
            "announce p",
            "stream in /work/p: rustc src/l.rs --crate-type lib --out-dir /work/p/target -L /work/p/target/deps",
            "stream in /work/p: rustc src/e.rs --crate-type bin --out-dir /work/p/target -L /work/p/target/deps",
        ]
    );
}

#[test]
fn build_takes_dependencies_in_their_order() {
    let lib = |n: &str| vec![Target::lib_target(n, &[CrateType::Lib], "src/lib.rs")];
    let primary = package("p", &["bar"], &lib("p"));
    let deps = PackageSet::new(&[package("bar", &["foo"], &lib("bar")), package("foo", &[], &lib("foo"))]);
    let plan = compile_packages(&primary, &deps);

    let announced: Vec<String> = plan
        .steps
        .iter()
        .filter_map(|s| match s {
            BuildStep::Announce { package } => Some(package.get_name().to_string()),
            _ => None,
        })
        .collect();
    assert_eq!(announced, vec!["foo", "bar", "p"]);
    assert_eq!(plan.steps.len(), 8);
}

#[test]
fn build_plans_the_same_again() {
    let lib = |n: &str| vec![Target::lib_target(n, &[CrateType::Lib, CrateType::Rlib], "src/lib.rs")];
    let primary = package("p", &["foo"], &lib("p"));
    let deps = PackageSet::new(&[package("foo", &[], &lib("foo"))]);
    let first = compile_packages(&primary, &deps);
    let second = compile_packages(&primary, &deps);

    assert_eq!(
        first.steps.iter().map(show).collect::<Vec<_>>(),
        second.steps.iter().map(show).collect::<Vec<_>>()
    );
    assert_eq!(first.steps.len(), 8);
}

#[test]
fn build_of_a_circle_fails_after_the_directories() {
    let primary = package("p", &["foo"], &[]);
    let deps = PackageSet::new(&[package("foo", &["bar"], &[]), package("bar", &["foo"], &[])]);
    let plan = compile_packages(&primary, &deps);

    assert_eq!(plan.failure, Some(CargoError::CircularDependency));
    assert_eq!(
        plan.steps.iter().map(show).collect::<Vec<_>>(),
        vec!["mkdir /work/p/target", "mkdir /work/p/target/deps"]
    );
}

#[test]
fn order_of_the_build_or_the_circle() {
    let sorted = topsort(&PackageSet::new(&[package("bar", &["foo"], &[]), package("foo", &[], &[])]));
    let names: Vec<String> =
        sorted.unwrap().get_packages().iter().map(|p| p.get_name().to_string()).collect();
    assert_eq!(names, vec!["foo", "bar"]);

    let circle = topsort(&PackageSet::new(&[package("foo", &["bar"], &[]), package("bar", &["foo"], &[])]));
    assert_eq!(circle.err(), Some(CargoError::CircularDependency));
}

#[test]
fn failure_of_the_compiler_holds_command_directory_and_output() {
    let args = strings(&["src/foo.rs", "--crate-type", "lib", "--out-dir", "/out", "-L", "/out/deps"]);
    let err = ProcessError::Failed { exit: Some(101), stderr: Some(b"error: \xffoops\n".to_vec()) };
    let e = rustc_to_cargo_err(&args, "/work/foo", &err);

    assert_eq!(
        e,
        CargoError::CompilerFailure {
            argv: "rustc src/foo.rs --crate-type lib --out-dir /out -L /out/deps".to_string(),
            cwd: "/work/foo".to_string(),
            stderr: "error: \u{fffd}oops\n".to_string(),
        }
    );
    assert_eq!(
        e.human(),
        "failed to execute: `rustc src/foo.rs --crate-type lib --out-dir /out -L /out/deps`; root=/work/foo; Error:\nerror: \u{fffd}oops\n"
    );
}

#[test]
fn failure_of_the_compiler_without_output() {
    let err = ProcessError::Failed { exit: None, stderr: None };
    let e = rustc_to_cargo_err(&[], "/w", &err);

    assert_eq!(
        e,
        CargoError::CompilerFailure {
            argv: "rustc".to_string(),
            cwd: "/w".to_string(),
            stderr: String::new(),
        }
    );
}

#[test]
fn failure_that_is_none_of_a_process_is_a_bug() {
    let err = ProcessError::Other { message: "disk full".to_string() };

    assert!(matches!(rustc_to_cargo_err(&[], "/w", &err), CargoError::Internal { .. }));
}

#[test]
fn errors_in_words() {
    assert_eq!(
        CargoError::ManifestInvalid { message: "no name".to_string() }.human(),
        "invalid manifest: no name"
    );
    assert_eq!(
        CargoError::UnresolvedDependency { name: "foo".to_string() }.human(),
        "no package named `foo` found"
    );
    assert_eq!(
        CargoError::AmbiguousDependency { name: "foo".to_string(), count: 2 }.human(),
        "more than one package named `foo` found"
    );
    assert_eq!(CargoError::CircularDependency.human(), "circular dependency detected");
    assert_eq!(
        CargoError::VcsFailure { command: "git fetch".to_string(), stderr: "no".to_string() }.human(),
        "Executing `git fetch` failed: no"
    );
    assert_eq!(
        CargoError::IoFailure { path: "/x".to_string(), underlying: "denied".to_string() }.human(),
        "could not access `/x`: denied"
    );
    assert_eq!(
        CargoError::Internal { message: "odd".to_string() }.human(),
        "internal error: odd"
    );
}
