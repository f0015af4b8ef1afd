//! Mirroring a remote repository and checking revisions out of the mirror:
//! which commands to run, and which directories to make or remove, in what
//! order.

use crate::errors::{CargoError, ProcessError};
use crate::location::{Url, UrlView};
use crate::paths::{dir_name, spec_dir_name};
use crate::process::{process, ProcessBuilder, ProcessView};
use crate::text::{str_eq, str_views, string_views, to_str, trim_right, trimmed_right, utf8_lossy};
use vstd::prelude::*;

verus! {

/// A reference as plain values.
pub enum GitReferenceView {
    Master,
    Other(Seq<char>),
}

impl GitReferenceView {
    /// The name by which the version control system knows the reference.
    pub open spec fn name(self) -> Seq<char> {
        match self {
            GitReferenceView::Master => "master"@,
            GitReferenceView::Other(name) => name,
        }
    }
}

/// What to take out of a repository: its primary branch, or the branch,
/// tag or revision of the given name.
#[derive(Debug, PartialEq, Eq)]
pub enum GitReference {
    Master,
    Other(String),
}

impl View for GitReference {
    type V = GitReferenceView;

    open spec fn view(&self) -> GitReferenceView {
        match self {
            GitReference::Master => GitReferenceView::Master,
            GitReference::Other(name) => GitReferenceView::Other(name@),
        }
    }
}

impl GitReference {
    /// The reference called `string`: the primary branch where that is its
    /// name.
    pub fn for_str(string: &str) -> (r: GitReference)
        ensures
            r@ == (if string@ == "master"@ {
                GitReferenceView::Master
            } else {
                GitReferenceView::Other(string@)
            }),
            r@.name() == string@,
    {
        if str_eq(string, "master") {
            GitReference::Master
        } else {
            GitReference::Other(String::from_str(string))
        }
    }

    /// The name by which the version control system knows the reference.
    pub fn as_slice(&self) -> (r: &str)
        ensures
            r@ == self@.name(),
    {
        match self {
            GitReference::Master => "master",
            GitReference::Other(name) => name.as_str(),
        }
    }
}

impl Clone for GitReference {
    fn clone(&self) -> (r: GitReference)
        ensures
            r@ == self@,
    {
        match self {
            GitReference::Master => GitReference::Master,
            GitReference::Other(name) => GitReference::Other(name.clone()),
        }
    }
}

/// A step as plain values.
pub enum GitStepView {
    MakeDirs { path: Seq<char> },
    RemoveTree { path: Seq<char> },
    OpenUp { path: Seq<char> },
    Run { command: ProcessView },
}

/// One thing to do in the course of mirroring or checking out.
#[derive(Debug, PartialEq, Eq)]
pub enum GitStep {
    /// Make the directory `path` and those above it, for the user to read,
    /// write and search.
    MakeDirs { path: String },
    /// Remove the directory `path` with all that is in it.
    RemoveTree { path: String },
    /// Let everybody read, write and search `path`.
    OpenUp { path: String },
    /// Run the command with its output going to the user.
    Run { command: ProcessBuilder },
}

impl View for GitStep {
    type V = GitStepView;

    open spec fn view(&self) -> GitStepView {
        match self {
            GitStep::MakeDirs { path } => GitStepView::MakeDirs { path: path@ },
            GitStep::RemoveTree { path } => GitStepView::RemoveTree { path: path@ },
            GitStep::OpenUp { path } => GitStepView::OpenUp { path: path@ },
            GitStep::Run { command } => GitStepView::Run { command: command@ },
        }
    }
}

/// The steps of a list, each as plain values.
pub open spec fn git_step_views(steps: Seq<GitStep>) -> Seq<GitStepView> {
    steps.map_values(|s: GitStep| s@)
}

/// The version control system called in `path` on `args`.
pub open spec fn git_command(path: Seq<char>, args: Seq<Seq<char>>) -> ProcessView {
    ProcessView { program: "git"@, args, cwd: path, unset: Seq::empty() }
}

/// The step that runs the version control system in `path` on `args`.
pub open spec fn git_step(path: Seq<char>, args: Seq<Seq<char>>) -> GitStepView {
    GitStepView::Run { command: git_command(path, args) }
}

/// What the version control system is told to fetch from: the path of a
/// URL that names a file, else the whole URL.
pub open spec fn fetch_location_of(url: UrlView) -> Seq<char> {
    if url.scheme == "file"@ {
        url.path
    } else {
        url.text
    }
}

/// The step that brings the mirror at `path` up to date with the
/// repository at `url`.
pub open spec fn mirror_fetch(url: UrlView, path: Seq<char>) -> GitStepView {
    git_step(
        path,
        seq![
            "fetch"@,
            "--force"@,
            "--tags"@,
            fetch_location_of(url),
            "refs/heads/*:refs/heads/*"@,
        ],
    )
}

/// The steps that make a mirror of the repository at `url` at `path`,
/// where there is none.
pub open spec fn mirror_clone(url: UrlView, path: Seq<char>) -> Seq<GitStepView> {
    seq![
        GitStepView::MakeDirs { path: spec_dir_name(path) },
        git_step(
            spec_dir_name(path),
            seq!["clone"@, "--bare"@, "--no-hardlinks"@, fetch_location_of(url), path],
        ),
    ]
}

/// The steps after which a mirror of the repository at `url` lies at
/// `into`, up to date: a fetch where something is there, else a clone.
pub open spec fn checkout_steps(url: UrlView, into: Seq<char>, exists: bool) -> Seq<
    GitStepView,
> {
    if exists {
        seq![mirror_fetch(url, into)]
    } else {
        mirror_clone(url, into)
    }
}

/// The command that asks the mirror at `path` for the revision that
/// `reference` stands for.
pub open spec fn rev_parse(path: Seq<char>, reference: Seq<char>) -> ProcessView {
    git_command(path, seq!["rev-parse"@, reference])
}

/// The revision that the version control system named in `output`: what
/// it wrote, as text, without the white space at its end.
pub open spec fn revision_in(output: Seq<u8>) -> Seq<char> {
    trimmed_right(utf8_lossy(output))
}

/// The steps that make a working tree at `location` out of the mirror at
/// `source`: the directory above is made, what lies at `location` is
/// removed, the mirror is cloned without checking anything out, and the
/// result is opened up to everybody.
pub open spec fn clone_repo_steps(source: Seq<char>, location: Seq<char>, exists: bool) -> Seq<
    GitStepView,
> {
    seq![GitStepView::MakeDirs { path: spec_dir_name(location) }] + (if exists {
        seq![GitStepView::RemoveTree { path: location }]
    } else {
        Seq::empty()
    }) + seq![
        git_step(spec_dir_name(location), seq!["clone"@, "--no-checkout"@, source, location]),
        GitStepView::OpenUp { path: location },
    ]
}

/// The steps that bring the working tree at `location` to `revision`:
/// everything is fetched from the mirror at `source`, and the tree is reset.
pub open spec fn fetch_steps(source: Seq<char>, location: Seq<char>, revision: Seq<char>) -> Seq<
    GitStepView,
> {
    seq![
        git_step(location, seq!["fetch"@, "--force"@, "--tags"@, source]),
        git_step(location, seq!["reset"@, "--hard"@, revision]),
    ]
}

/// The step that brings the submodules of the working tree at `location`
/// up to date.
pub open spec fn submodule_step(location: Seq<char>) -> GitStepView {
    git_step(location, seq!["submodule"@, "update"@, "--init"@, "--recursive"@])
}

/// The steps after which the working tree at `dest` holds `revision` of
/// the mirror at `source`. A tree is made first where `dest` holds no
/// repository yet.
pub open spec fn copy_steps(
    source: Seq<char>,
    dest: Seq<char>,
    revision: Seq<char>,
    has_repository: bool,
    exists: bool,
) -> Seq<GitStepView> {
    (if has_repository {
        Seq::empty()
    } else {
        clone_repo_steps(source, dest, exists)
    }) + fetch_steps(source, dest, revision) + seq![submodule_step(dest)]
}

/// Where the working tree is there already, copying into it only fetches,
/// resets and updates the submodules: nothing is made, removed or cloned.
/// And copying twice on the same answer of the mirror resets to the same
/// revision.
pub proof fn copy_again_only_refreshes(
    source: Seq<char>,
    dest: Seq<char>,
    output: Seq<u8>,
    exists: bool,
)
    ensures
        copy_steps(source, dest, revision_in(output), true, exists) == seq![
            git_step(dest, seq!["fetch"@, "--force"@, "--tags"@, source]),
            git_step(dest, seq!["reset"@, "--hard"@, revision_in(output)]),
            submodule_step(dest),
        ],
{
    assert(copy_steps(source, dest, revision_in(output), true, exists) =~= seq![
        git_step(dest, seq!["fetch"@, "--force"@, "--tags"@, source]),
        git_step(dest, seq!["reset"@, "--hard"@, revision_in(output)]),
        submodule_step(dest),
    ]);
}

/// The version control system called in `path` on `args`. Whether the
/// caller is verbose does not change the command.
pub fn git(path: &str, _verbose: bool, args: &[String]) -> (r: ProcessBuilder)
    ensures
        r@ == git_command(path@, string_views(args@)),
{
    let r = process("git").args(args).cwd(path);
    assert(r@.args =~= string_views(args@));
    r
}

/// The step that runs the version control system in `path` on `args`, with
/// its output going to the user.
pub fn git_inherit(path: &str, verbose: bool, args: &[String]) -> (r: GitStep)
    ensures
        r@ == git_step(path@, string_views(args@)),
{
    GitStep::Run { command: git(path, verbose, args) }
}

/// What the version control system answered, read off what it wrote: the
/// text without the white space at its end.
pub fn git_output(output: &[u8]) -> (r: String)
    ensures
        r@ == revision_in(output@),
{
    let text = to_str(output);
    trim_right(text.as_str())
}

/// The error to report when `command` did not end well: a failure of the
/// version control system that holds the command line and what the command
/// wrote, or an internal error where `err` is no matter of the process.
pub fn git_error(command: &ProcessBuilder, err: &ProcessError) -> (r: CargoError)
    ensures
        match *err {
            ProcessError::Failed { exit, stderr } => r matches CargoError::VcsFailure {
                command: line,
                stderr: written,
            } && line@ == command@.command_line() && written@ == (match stderr {
                Some(bytes) => utf8_lossy(bytes@),
                None => Seq::empty(),
            }),
            ProcessError::Other { message } => r matches CargoError::Internal { message: told }
                && told@ == "a command failed, but not as a process fails"@,
        },
{
    match err {
        ProcessError::Failed { exit, stderr } => {
            let written = match stderr {
                Some(bytes) => to_str(bytes.as_slice()),
                None => String::new(),
            };
            CargoError::VcsFailure { command: command.command_line(), stderr: written }
        },
        ProcessError::Other { message } => CargoError::Internal {
            message: String::from_str("a command failed, but not as a process fails"),
        },
    }
}

/// The words of a list as strings of their own.
fn owned(words: &[&str]) -> (r: Vec<String>)
    ensures
        string_views(r@) == str_views(words@),
{
    let mut out: Vec<String> = Vec::new();
    let mut i: usize = 0;
    while i < words.len()
        invariant
            i <= words.len(),
            out.len() == i,
            forall|k: int| 0 <= k < i ==> (#[trigger] out@[k])@ == words@[k]@,
        decreases words.len() - i,
    {
        out.push(String::from_str(words[i]));
        i += 1;
    }
    assert(string_views(out@) =~= str_views(words@));
    out
}

/// A remote as plain values.
pub struct GitRemoteView {
    pub url: UrlView,
    pub verbose: bool,
}

/// A remote repository, known by its URL.
#[derive(Debug, PartialEq, Eq)]
pub struct GitRemote {
    url: Url,
    verbose: bool,
}

impl View for GitRemote {
    type V = GitRemoteView;

    closed spec fn view(&self) -> GitRemoteView {
        GitRemoteView { url: self.url@, verbose: self.verbose }
    }
}

/// A mirror as plain values.
pub struct GitDatabaseView {
    pub remote: GitRemoteView,
    pub path: Seq<char>,
    pub verbose: bool,
}

/// The mirror of a remote repository on this machine: a bare repository at
/// `path`, from which working trees are checked out.
#[derive(Debug, PartialEq, Eq)]
pub struct GitDatabase {
    remote: GitRemote,
    path: String,
    verbose: bool,
}

impl View for GitDatabase {
    type V = GitDatabaseView;

    closed spec fn view(&self) -> GitDatabaseView {
        GitDatabaseView { remote: self.remote@, path: self.path@, verbose: self.verbose }
    }
}

/// A checkout as plain values.
pub struct GitCheckoutView {
    pub database: GitDatabaseView,
    pub location: Seq<char>,
    pub reference: GitReferenceView,
    pub revision: Seq<char>,
    pub verbose: bool,
}

/// A working tree at `location` that holds one revision of a mirror: the
/// one that `reference` stood for when the mirror was asked.
#[derive(Debug, PartialEq, Eq)]
pub struct GitCheckout {
    database: GitDatabase,
    location: String,
    reference: GitReference,
    revision: String,
    verbose: bool,
}

impl View for GitCheckout {
    type V = GitCheckoutView;

    closed spec fn view(&self) -> GitCheckoutView {
        GitCheckoutView {
            database: self.database@,
            location: self.location@,
            reference: self.reference@,
            revision: self.revision@,
            verbose: self.verbose,
        }
    }
}

impl GitRemote {
    /// The remote repository at `url`.
    pub fn new(url: Url, verbose: bool) -> (r: GitRemote)
        ensures
            r@ == (GitRemoteView { url: url@, verbose }),
    {
        GitRemote { url, verbose }
    }

    pub fn get_url(&self) -> (r: &Url)
        ensures
            r@ == self@.url,
    {
        &self.url
    }

    /// What the version control system is told to fetch from.
    pub fn fetch_location(&self) -> (r: String)
        ensures
            r@ == fetch_location_of(self@.url),
    {
        if str_eq(self.url.get_scheme(), "file") {
            String::from_str(self.url.get_path())
        } else {
            String::from_str(self.url.as_str())
        }
    }

    /// The step that brings the mirror at `path` up to date.
    pub fn fetch_into(&self, path: &str) -> (r: GitStep)
        ensures
            r@ == mirror_fetch(self@.url, path@),
    {
        let location = self.fetch_location();
        let words: Vec<&str> = vec![
            "fetch",
            "--force",
            "--tags",
            location.as_str(),
            "refs/heads/*:refs/heads/*",
        ];
        let args = owned(words.as_slice());
        assert(string_views(args@) =~= seq![
            "fetch"@,
            "--force"@,
            "--tags"@,
            fetch_location_of(self@.url),
            "refs/heads/*:refs/heads/*"@,
        ]);
        git_inherit(path, self.verbose, args.as_slice())
    }

    /// The steps that make a mirror at `path`, where there is none.
    pub fn clone_into(&self, path: &str) -> (r: Vec<GitStep>)
        ensures
            git_step_views(r@) == mirror_clone(self@.url, path@),
    {
        let dirname = dir_name(path);
        let location = self.fetch_location();
        let words: Vec<&str> = vec![
            "clone",
            "--bare",
            "--no-hardlinks",
            location.as_str(),
            path,
        ];
        let args = owned(words.as_slice());
        assert(string_views(args@) =~= seq![
            "clone"@,
            "--bare"@,
            "--no-hardlinks"@,
            fetch_location_of(self@.url),
            path@,
        ]);
        let steps: Vec<GitStep> = vec![
            GitStep::MakeDirs { path: dirname.clone() },
            git_inherit(dirname.as_str(), self.verbose, args.as_slice()),
        ];
        assert(git_step_views(steps@) =~= mirror_clone(self@.url, path@));
        steps
    }

    /// The mirror of this repository at `into`, and the steps after which
    /// it lies there, up to date. `exists` says whether anything lies at
    /// `into` now: then it is fetched into, else the repository is cloned.
    pub fn checkout(&self, into: &str, exists: bool) -> (r: (GitDatabase, Vec<GitStep>))
        ensures
            r.0@ == (GitDatabaseView { remote: self@, path: into@, verbose: self@.verbose }),
            git_step_views(r.1@) == checkout_steps(self@.url, into@, exists),
    {
        let steps = if exists {
            let steps: Vec<GitStep> = vec![self.fetch_into(into)];
            assert(git_step_views(steps@) =~= seq![mirror_fetch(self@.url, into@)]);
            steps
        } else {
            self.clone_into(into)
        };
        let database = GitDatabase {
            remote: self.clone(),
            path: String::from_str(into),
            verbose: self.verbose,
        };
        (database, steps)
    }
}

impl Clone for GitRemote {
    fn clone(&self) -> (r: GitRemote)
        ensures
            r@ == self@,
    {
        GitRemote { url: self.url.clone(), verbose: self.verbose }
    }
}

impl GitDatabase {
    pub fn get_remote(&self) -> (r: &GitRemote)
        ensures
            r@ == self@.remote,
    {
        &self.remote
    }

    /// The directory that holds the mirror.
    pub fn get_path(&self) -> (r: &str)
        ensures
            r@ == self@.path,
    {
        self.path.as_str()
    }

    /// The command that asks the mirror for the revision that `reference`
    /// stands for. What it writes is read by `git_output`.
    pub fn rev_for(&self, reference: &str) -> (r: ProcessBuilder)
        ensures
            r@ == rev_parse(self@.path, reference@),
    {
        let words: Vec<&str> = vec!["rev-parse", reference];
        let args = owned(words.as_slice());
        assert(string_views(args@) =~= seq!["rev-parse"@, reference@]);
        git(self.path.as_str(), self.verbose, args.as_slice())
    }

    /// The checkout of `reference` at `dest`, and the steps after which it
    /// lies there.
    ///
    /// `rev_output` is what the command of `rev_for` wrote for this
    /// reference. `has_repository` says whether `dest` holds a repository
    /// now, and `exists` whether anything lies at `dest` at all. Where
    /// there is no repository, one is cloned from the mirror in place of
    /// whatever lies there. Then everything is fetched from the mirror, the
    /// tree is reset to the revision, and the submodules are brought up to
    /// date.
    pub fn copy_to(
        &self,
        reference: &str,
        dest: &str,
        rev_output: &[u8],
        has_repository: bool,
        exists: bool,
    ) -> (r: (GitCheckout, Vec<GitStep>))
        ensures
            r.0@ == (GitCheckoutView {
                database: self@,
                location: dest@,
                reference: if reference@ == "master"@ {
                    GitReferenceView::Master
                } else {
                    GitReferenceView::Other(reference@)
                },
                revision: revision_in(rev_output@),
                verbose: self@.verbose,
            }),
            git_step_views(r.1@) == copy_steps(
                self@.path,
                dest@,
                revision_in(rev_output@),
                has_repository,
                exists,
            ),
    {
        let (checkout, mut steps) = GitCheckout::clone_into(
            dest,
            self.clone(),
            GitReference::for_str(reference),
            self.verbose,
            rev_output,
            has_repository,
            exists,
        );
        let ghost cloned = git_step_views(steps@);
        let mut more = checkout.fetch();
        let ghost fetched = git_step_views(more@);
        steps.append(&mut more);
        steps.push(checkout.update_submodules());
        assert(git_step_views(steps@) =~= cloned + fetched + seq![submodule_step(dest@)]);
        (checkout, steps)
    }
}

impl Clone for GitDatabase {
    fn clone(&self) -> (r: GitDatabase)
        ensures
            r@ == self@,
    {
        GitDatabase { remote: self.remote.clone(), path: self.path.clone(), verbose: self.verbose }
    }
}

impl GitCheckout {
    /// The checkout of `reference` at `into`, and the steps that make a
    /// working tree there where `into` holds no repository yet.
    pub fn clone_into(
        into: &str,
        database: GitDatabase,
        reference: GitReference,
        verbose: bool,
        rev_output: &[u8],
        has_repository: bool,
        exists: bool,
    ) -> (r: (GitCheckout, Vec<GitStep>))
        ensures
            r.0@ == (GitCheckoutView {
                database: database@,
                location: into@,
                reference: reference@,
                revision: revision_in(rev_output@),
                verbose,
            }),
            git_step_views(r.1@) == (if has_repository {
                Seq::empty()
            } else {
                clone_repo_steps(database@.path, into@, exists)
            }),
    {
        let revision = git_output(rev_output);
        let checkout = GitCheckout {
            database,
            location: String::from_str(into),
            reference,
            revision,
            verbose,
        };
        let steps = if has_repository {
            let none: Vec<GitStep> = Vec::new();
            assert(git_step_views(none@) =~= Seq::empty());
            none
        } else {
            checkout.clone_repo(exists)
        };
        (checkout, steps)
    }

    pub fn get_database(&self) -> (r: &GitDatabase)
        ensures
            r@ == self@.database,
    {
        &self.database
    }

    /// The directory that holds the working tree.
    pub fn get_location(&self) -> (r: &str)
        ensures
            r@ == self@.location,
    {
        self.location.as_str()
    }

    pub fn get_reference(&self) -> (r: &GitReference)
        ensures
            r@ == self@.reference,
    {
        &self.reference
    }

    pub fn get_revision(&self) -> (r: &str)
        ensures
            r@ == self@.revision,
    {
        self.revision.as_str()
    }

    /// The directory that holds the mirror that the tree is checked out
    /// of.
    pub fn get_source(&self) -> (r: &str)
        ensures
            r@ == self@.database.path,
    {
        self.database.get_path()
    }

    /// The steps that make the working tree out of the mirror. `exists`
    /// says whether anything lies at its place now.
    pub fn clone_repo(&self, exists: bool) -> (r: Vec<GitStep>)
        ensures
            git_step_views(r@) == clone_repo_steps(self@.database.path, self@.location, exists),
    {
        let dirname = dir_name(self.location.as_str());
        let mut steps: Vec<GitStep> = vec![GitStep::MakeDirs { path: dirname.clone() }];
        if exists {
            steps.push(GitStep::RemoveTree { path: self.location.clone() });
        }
        let words: Vec<&str> = vec![
            "clone",
            "--no-checkout",
            self.get_source(),
            self.location.as_str(),
        ];
        let args = owned(words.as_slice());
        assert(string_views(args@) =~= seq![
            "clone"@,
            "--no-checkout"@,
            self@.database.path,
            self@.location,
        ]);
        steps.push(git_inherit(dirname.as_str(), self.verbose, args.as_slice()));
        steps.push(GitStep::OpenUp { path: self.location.clone() });
        assert(git_step_views(steps@) =~= clone_repo_steps(
            self@.database.path,
            self@.location,
            exists,
        ));
        steps
    }

    /// The steps that fetch everything from the mirror and reset the tree
    /// to the revision of the checkout.
    pub fn fetch(&self) -> (r: Vec<GitStep>)
        ensures
            git_step_views(r@) == fetch_steps(
                self@.database.path,
                self@.location,
                self@.revision,
            ),
    {
        let words: Vec<&str> = vec!["fetch", "--force", "--tags", self.get_source()];
        let args = owned(words.as_slice());
        assert(string_views(args@) =~= seq![
            "fetch"@,
            "--force"@,
            "--tags"@,
            self@.database.path,
        ]);
        let steps: Vec<GitStep> = vec![
            git_inherit(self.location.as_str(), self.verbose, args.as_slice()),
            self.reset(self.revision.as_str()),
        ];
        assert(git_step_views(steps@) =~= fetch_steps(
            self@.database.path,
            self@.location,
            self@.revision,
        ));
        steps
    }

    /// The step that resets the tree to `revision`.
    pub fn reset(&self, revision: &str) -> (r: GitStep)
        ensures
            r@ == git_step(self@.location, seq!["reset"@, "--hard"@, revision@]),
    {
        let words: Vec<&str> = vec!["reset", "--hard", revision];
        let args = owned(words.as_slice());
        assert(string_views(args@) =~= seq!["reset"@, "--hard"@, revision@]);
        git_inherit(self.location.as_str(), self.verbose, args.as_slice())
    }

    /// The step that brings the submodules of the tree up to date.
    pub fn update_submodules(&self) -> (r: GitStep)
        ensures
            r@ == submodule_step(self@.location),
    {
        let words: Vec<&str> = vec!["submodule", "update", "--init", "--recursive"];
        let args = owned(words.as_slice());
        assert(string_views(args@) =~= seq![
            "submodule"@,
            "update"@,
            "--init"@,
            "--recursive"@,
        ]);
        git_inherit(self.location.as_str(), self.verbose, args.as_slice())
    }
}

} // verus!
