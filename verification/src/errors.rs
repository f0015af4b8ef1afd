//! What can go wrong between a manifest and a finished build.

use vstd::prelude::*;

verus! {

/// The ways in which an operation of this library, or a step that it asked
/// for, fails.
#[derive(Debug, PartialEq, Eq)]
pub enum CargoError {
    /// The declaration file of a package is unsound; this is what its reader
    /// said of it.
    ManifestInvalid { message: String },
    /// The registry offers nothing under this name.
    UnresolvedDependency { name: String },
    /// The registry offers `count` summaries under this name, where one was
    /// wanted.
    AmbiguousDependency { name: String, count: usize },
    /// The packages depend on one another in a circle.
    CircularDependency,
    /// A command of the version control system failed.
    VcsFailure { command: String, stderr: String },
    /// The compiler failed on the command line `argv`, run in `cwd`.
    CompilerFailure { argv: String, cwd: String, stderr: String },
    /// A directory could not be made, removed or opened up.
    IoFailure { path: String, underlying: String },
    /// Something that cannot happen did.
    Internal { message: String },
}

/// How running a process ended, where it did not end well.
#[derive(Debug, PartialEq, Eq)]
pub enum ProcessError {
    /// The process could not be started, or it ended in failure. `stderr`
    /// holds what it wrote to its error stream, where that was captured.
    Failed { exit: Option<i32>, stderr: Option<Vec<u8>> },
    /// Something went wrong that was no matter of the process.
    Other { message: String },
}

impl CargoError {
    /// The error in words.
    pub open spec fn words(self) -> Seq<char> {
        match self {
            CargoError::ManifestInvalid { message } => "invalid manifest: "@ + message@,
            CargoError::UnresolvedDependency { name } => "no package named `"@ + name@
                + "` found"@,
            CargoError::AmbiguousDependency { name, count } => "more than one package named `"@
                + name@ + "` found"@,
            CargoError::CircularDependency => "circular dependency detected"@,
            CargoError::VcsFailure { command, stderr } => "Executing `"@ + command@
                + "` failed: "@ + stderr@,
            CargoError::CompilerFailure { argv, cwd, stderr } => "failed to execute: `"@ + argv@
                + "`; root="@ + cwd@ + "; Error:\n"@ + stderr@,
            CargoError::IoFailure { path, underlying } => "could not access `"@ + path@ + "`: "@
                + underlying@,
            CargoError::Internal { message } => "internal error: "@ + message@,
        }
    }

    /// The error in words, for a person to read. For a failure of the
    /// compiler they hold the whole command line, the directory it ran in
    /// and what the compiler wrote.
    pub fn human(&self) -> (r: String)
        ensures
            r@ == self.words(),
    {
        match self {
            CargoError::ManifestInvalid { message } => {
                String::from_str("invalid manifest: ").concat(message.as_str())
            },
            CargoError::UnresolvedDependency { name } => {
                String::from_str("no package named `").concat(name.as_str()).concat("` found")
            },
            CargoError::AmbiguousDependency { name, count } => {
                String::from_str("more than one package named `").concat(name.as_str()).concat(
                    "` found",
                )
            },
            CargoError::CircularDependency => String::from_str("circular dependency detected"),
            CargoError::VcsFailure { command, stderr } => {
                String::from_str("Executing `").concat(command.as_str()).concat(
                    "` failed: ",
                ).concat(stderr.as_str())
            },
            CargoError::CompilerFailure { argv, cwd, stderr } => {
                String::from_str("failed to execute: `").concat(argv.as_str()).concat(
                    "`; root=",
                ).concat(cwd.as_str()).concat("; Error:\n").concat(stderr.as_str())
            },
            CargoError::IoFailure { path, underlying } => {
                String::from_str("could not access `").concat(path.as_str()).concat("`: ").concat(
                    underlying.as_str(),
                )
            },
            CargoError::Internal { message } => {
                String::from_str("internal error: ").concat(message.as_str())
            },
        }
    }
}

/// The error to report when the directory `path` could not be made,
/// removed or opened up.
pub fn io_error(path: &str, underlying: &str) -> (r: CargoError)
    ensures
        r matches CargoError::IoFailure { path: p, underlying: u } && p@ == path@ && u@
            == underlying@,
{
    CargoError::IoFailure { path: String::from_str(path), underlying: String::from_str(underlying) }
}

} // verus!
