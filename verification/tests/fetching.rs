use cargo::errors::{io_error, CargoError, ProcessError};
use cargo::git::{git, git_error, git_inherit, git_output, GitCheckout, GitReference, GitRemote, GitStep};
use cargo::location::Url;
use cargo::process::process;

fn strings(words: &[&str]) -> Vec<String> {
    words.iter().map(|w| w.to_string()).collect()
}

fn show(step: &GitStep) -> String {
    match step {
        GitStep::MakeDirs { path } => format!("mkdir {}", path),
        GitStep::RemoveTree { path } => format!("rmdir {}", path),
        GitStep::OpenUp { path } => format!("chmod {}", path),
        GitStep::Run { command } => format!("in {}: {}", command.get_cwd(), command.command_line()),
    }
}

fn shown(steps: &[GitStep]) -> Vec<String> {
    steps.iter().map(show).collect()
}

fn remote(url: &str) -> GitRemote {
    GitRemote::new(Url::parse(url).unwrap(), false)
}

#[test]
fn reference_of_the_primary_branch() {
    assert_eq!(GitReference::for_str("master"), GitReference::Master);
    assert_eq!(GitReference::for_str("v1.0"), GitReference::Other("v1.0".to_string()));
    assert_eq!(GitReference::for_str(""), GitReference::Other(String::new()));
    assert_eq!(GitReference::for_str("Master"), GitReference::Other("Master".to_string()));
}

#[test]
fn reference_gives_its_name() {
    assert_eq!(GitReference::Master.as_slice(), "master");
    assert_eq!(GitReference::Other("v1.0".to_string()).as_slice(), "v1.0");
    assert_eq!(GitReference::for_str("a1b2").as_slice(), "a1b2");
    assert_eq!(GitReference::for_str("dev").clone(), GitReference::for_str("dev"));
}

#[test]
fn command_of_the_version_control_system() {
    let p = git("/repo", false, &strings(&["rev-parse", "HEAD"]));

    assert_eq!(p.get_program(), "git");
    assert_eq!(p.get_cwd(), "/repo");
    assert_eq!(p.get_args(), strings(&["rev-parse", "HEAD"]).as_slice());
    assert!(p.get_unset().is_empty());
    assert_eq!(show(&git_inherit("/repo", true, &strings(&["status"]))), "in /repo: git status");
}

#[test]
fn remote_of_a_file_is_fetched_by_its_path() {
    let r = remote("file:///srv/repos/foo");

    assert_eq!(r.fetch_location(), "/srv/repos/foo");
    assert_eq!(r.get_url().as_str(), "file:///srv/repos/foo");
    assert!(r.clone() == r);
}

#[test]
fn remote_elsewhere_is_fetched_by_its_url() {
    assert_eq!(remote("https://example.com/foo.git").fetch_location(), "https://example.com/foo.git");
    assert_eq!(remote("http://example.com").fetch_location(), "http://example.com/");
}

#[test]
fn mirror_that_is_there_is_fetched_into() {
    let r = remote("https://example.com/foo.git");
    let (db, steps) = r.checkout("/cache/db/foo", true);

    assert_eq!(db.get_path(), "/cache/db/foo");
    assert_eq!(db.get_remote(), &r);
    assert_eq!(
        shown(&steps),
        vec!["in /cache/db/foo: git fetch --force --tags https://example.com/foo.git refs/heads/*:refs/heads/*"]
    );
    assert_eq!(shown(&[r.fetch_into("/cache/db/foo")]), shown(&steps));
}

#[test]
fn mirror_that_is_not_there_is_cloned() {
    let r = remote("file:///srv/repos/foo");
    let (db, steps) = r.checkout("/cache/db/foo", false);

    assert_eq!(db.get_path(), "/cache/db/foo");
    assert_eq!(
        shown(&steps),
        vec![
            "mkdir /cache/db",
            "in /cache/db: git clone --bare --no-hardlinks /srv/repos/foo /cache/db/foo",
        ]
    );
    assert_eq!(shown(&r.clone_into("/cache/db/foo")), shown(&steps));
}

#[test]
fn mirror_is_asked_for_a_revision() {
    let (db, _) = remote("https://example.com/foo.git").checkout("/cache/db/foo", true);
    let p = db.rev_for("v1.0");

    assert_eq!(p.get_cwd(), "/cache/db/foo");
    assert_eq!(p.command_line(), "git rev-parse v1.0");
    assert!(db.clone() == db);
}

#[test]
fn answer_of_the_mirror_is_trimmed() {
    assert_eq!(git_output(b"0a1b2c3d4e5f\n"), "0a1b2c3d4e5f");
    assert_eq!(git_output(b"0a1b2c3d4e5f"), "0a1b2c3d4e5f");
    assert_eq!(git_output(b"  x \r\n\n"), "  x");
    assert_eq!(git_output(b""), "");
}

#[test]
fn first_copy_clones_then_refreshes() {
    let (db, _) = remote("https://example.com/foo.git").checkout("/cache/db/foo", true);
    let (checkout, steps) = db.copy_to("master", "/cache/co/foo", b"abc123\n", false, false);

    assert_eq!(checkout.get_location(), "/cache/co/foo");
    assert_eq!(checkout.get_reference(), &GitReference::Master);
    assert_eq!(checkout.get_revision(), "abc123");
    assert_eq!(checkout.get_source(), "/cache/db/foo");
    assert_eq!(checkout.get_database(), &db);
    assert_eq!(
        shown(&steps),
        vec![
            "mkdir /cache/co",
            "in /cache/co: git clone --no-checkout /cache/db/foo /cache/co/foo",
            "chmod /cache/co/foo",
            "in /cache/co/foo: git fetch --force --tags /cache/db/foo",
            "in /cache/co/foo: git reset --hard abc123",
            "in /cache/co/foo: git submodule update --init --recursive",
        ]
    );
}

#[test]
fn copy_over_something_else_removes_it_first() {
    let (db, _) = remote("https://example.com/foo.git").checkout("/cache/db/foo", true);
    let (checkout, steps) = db.copy_to("v1.0", "/cache/co/foo", b"abc123\n", false, true);

    assert_eq!(checkout.get_reference(), &GitReference::Other("v1.0".to_string()));
    assert_eq!(
        shown(&steps),
        vec![
            "mkdir /cache/co",
            "rmdir /cache/co/foo",
            "in /cache/co: git clone --no-checkout /cache/db/foo /cache/co/foo",
            "chmod /cache/co/foo",
            "in /cache/co/foo: git fetch --force --tags /cache/db/foo",
            "in /cache/co/foo: git reset --hard abc123",
            "in /cache/co/foo: git submodule update --init --recursive",
        ]
    );
}

#[test]
fn second_copy_only_refreshes() {
    let (db, _) = remote("https://example.com/foo.git").checkout("/cache/db/foo", true);
    let (first, _) = db.copy_to("master", "/cache/co/foo", b"abc123\n", false, false);
    let (second, steps) = db.copy_to("master", "/cache/co/foo", b"abc123\n", true, true);

    assert_eq!(first.get_revision(), second.get_revision());
    assert!(first == second);
    assert_eq!(
        shown(&steps),
        vec![
            "in /cache/co/foo: git fetch --force --tags /cache/db/foo",
            "in /cache/co/foo: git reset --hard abc123",
            "in /cache/co/foo: git submodule update --init --recursive",
        ]
    );
}

#[test]
fn checkout_gives_its_steps_one_by_one() {
    let (db, _) = remote("https://example.com/foo.git").checkout("/db", true);
    let (checkout, made) =
        GitCheckout::clone_into("/co/foo", db.clone(), GitReference::for_str("dev"), true, b"r1\n", true, true);

    assert!(made.is_empty());
    assert_eq!(
        shown(&checkout.clone_repo(false)),
        vec!["mkdir /co", "in /co: git clone --no-checkout /db /co/foo", "chmod /co/foo"]
    );
    assert_eq!(
        shown(&checkout.fetch()),
        vec!["in /co/foo: git fetch --force --tags /db", "in /co/foo: git reset --hard r1"]
    );
    assert_eq!(show(&checkout.reset("r0")), "in /co/foo: git reset --hard r0");
    assert_eq!(
        show(&checkout.update_submodules()),
        "in /co/foo: git submodule update --init --recursive"
    );
}

#[test]
fn failure_of_a_command_holds_the_command_and_its_output() {
    let p = process("git").args(&strings(&["rev-parse", "nowhere"])).cwd("/db");
    let err = ProcessError::Failed { exit: Some(128), stderr: Some(b"fatal: bad revision\n".to_vec()) };

    assert_eq!(
        git_error(&p, &err),
        CargoError::VcsFailure {
            command: "git rev-parse nowhere".to_string(),
            stderr: "fatal: bad revision\n".to_string(),
        }
    );
    assert_eq!(
        git_error(&p, &ProcessError::Failed { exit: None, stderr: None }),
        CargoError::VcsFailure { command: "git rev-parse nowhere".to_string(), stderr: String::new() }
    );
    assert!(matches!(
        git_error(&p, &ProcessError::Other { message: "x".to_string() }),
        CargoError::Internal { .. }
    ));
}

#[test]
fn failure_on_a_directory_holds_its_path() {
    assert_eq!(
        io_error("/cache/co", "permission denied"),
        CargoError::IoFailure { path: "/cache/co".to_string(), underlying: "permission denied".to_string() }
    );
}
