//! What a package declares about itself: its summary, its authors, what it
//! builds and where the results go.

use crate::dependency::Dependency;
use crate::package_id::PackageId;
use crate::source::{clone_sources, source_views, SourceId, SourceIdView};
use crate::summary::{Summary, SummaryView};
use crate::text::string_views;
use vstd::prelude::*;

verus! {

/// What a target is built into.
#[derive(Clone, Copy, Debug, PartialEq, Eq, Structural)]
pub enum TargetKind {
    /// A library, which other packages build against.
    LibTarget,
    /// An executable.
    ExecTarget,
}

/// The kinds of output that the compiler can be asked for.
#[derive(Clone, Copy, Debug, PartialEq, Eq, Structural)]
pub enum CrateType {
    Lib,
    Rlib,
    Dylib,
    Staticlib,
    Bin,
}

impl CrateType {
    /// The word by which the compiler knows the kind.
    pub open spec fn word(self) -> Seq<char> {
        match self {
            CrateType::Lib => "lib"@,
            CrateType::Rlib => "rlib"@,
            CrateType::Dylib => "dylib"@,
            CrateType::Staticlib => "staticlib"@,
            CrateType::Bin => "bin"@,
        }
    }

    /// The word by which the compiler knows the kind.
    pub fn as_str(self) -> (r: &'static str)
        ensures
            r@ == self.word(),
    {
        match self {
            CrateType::Lib => "lib",
            CrateType::Rlib => "rlib",
            CrateType::Dylib => "dylib",
            CrateType::Staticlib => "staticlib",
            CrateType::Bin => "bin",
        }
    }
}

/// A target as plain values.
pub struct TargetView {
    pub name: Seq<char>,
    pub kind: TargetKind,
    pub path: Seq<char>,
    pub crate_types: Seq<CrateType>,
}

/// One thing that a package builds: its name, whether it is a library or an
/// executable, the source file it starts from, and the kinds of output to ask
/// the compiler for, in their order.
#[derive(Debug, PartialEq, Eq)]
pub struct Target {
    name: String,
    kind: TargetKind,
    path: String,
    crate_types: Vec<CrateType>,
}

impl View for Target {
    type V = TargetView;

    closed spec fn view(&self) -> TargetView {
        TargetView {
            name: self.name@,
            kind: self.kind,
            path: self.path@,
            crate_types: self.crate_types@,
        }
    }
}

/// The targets of a list, each as plain values.
pub open spec fn target_views(targets: Seq<Target>) -> Seq<TargetView> {
    targets.map_values(|t: Target| t@)
}

/// A copy of a list of output kinds.
fn clone_crate_types(crate_types: &[CrateType]) -> (r: Vec<CrateType>)
    ensures
        r@ == crate_types@,
{
    let mut out: Vec<CrateType> = Vec::new();
    let mut i: usize = 0;
    while i < crate_types.len()
        invariant
            i <= crate_types.len(),
            out@ == crate_types@.take(i as int),
        decreases crate_types.len() - i,
    {
        out.push(crate_types[i]);
        assert(crate_types@.take(i + 1) =~= crate_types@.take(i as int).push(crate_types@[i as int]));
        i += 1;
    }
    assert(crate_types@.take(crate_types.len() as int) =~= crate_types@);
    out
}

impl Target {
    /// The library `name` that starts from the file `path` and is built
    /// into each of `crate_types`.
    pub fn lib_target(name: &str, crate_types: &[CrateType], path: &str) -> (r: Target)
        ensures
            r@ == (TargetView {
                name: name@,
                kind: TargetKind::LibTarget,
                path: path@,
                crate_types: crate_types@,
            }),
    {
        Target {
            name: String::from_str(name),
            kind: TargetKind::LibTarget,
            path: String::from_str(path),
            crate_types: clone_crate_types(crate_types),
        }
    }

    /// The executable `name` that starts from the file `path`.
    pub fn bin_target(name: &str, path: &str) -> (r: Target)
        ensures
            r@ == (TargetView {
                name: name@,
                kind: TargetKind::ExecTarget,
                path: path@,
                crate_types: seq![CrateType::Bin],
            }),
    {
        let mut crate_types: Vec<CrateType> = Vec::new();
        crate_types.push(CrateType::Bin);
        assert(crate_types@ =~= seq![CrateType::Bin]);
        Target {
            name: String::from_str(name),
            kind: TargetKind::ExecTarget,
            path: String::from_str(path),
            crate_types,
        }
    }

    pub fn get_name(&self) -> (r: &str)
        ensures
            r@ == self@.name,
    {
        self.name.as_str()
    }

    pub fn get_kind(&self) -> (r: TargetKind)
        ensures
            r == self@.kind,
    {
        self.kind
    }

    /// The source file that the target starts from.
    pub fn get_path(&self) -> (r: &str)
        ensures
            r@ == self@.path,
    {
        self.path.as_str()
    }

    pub fn is_lib(&self) -> (r: bool)
        ensures
            r == (self@.kind == TargetKind::LibTarget),
    {
        self.kind == TargetKind::LibTarget
    }

    pub fn is_bin(&self) -> (r: bool)
        ensures
            r == (self@.kind == TargetKind::ExecTarget),
    {
        self.kind == TargetKind::ExecTarget
    }

    /// The kinds of output to ask the compiler for, in their order.
    pub fn rustc_crate_types(&self) -> (r: &[CrateType])
        ensures
            r@ == self@.crate_types,
    {
        self.crate_types.as_slice()
    }
}

impl Clone for Target {
    fn clone(&self) -> (r: Target)
        ensures
            r@ == self@,
    {
        Target {
            name: self.name.clone(),
            kind: self.kind,
            path: self.path.clone(),
            crate_types: clone_crate_types(self.crate_types.as_slice()),
        }
    }
}

/// A copy of a list of targets.
pub fn clone_targets(targets: &[Target]) -> (r: Vec<Target>)
    ensures
        target_views(r@) == target_views(targets@),
{
    let mut out: Vec<Target> = Vec::new();
    let mut i: usize = 0;
    while i < targets.len()
        invariant
            i <= targets.len(),
            out.len() == i,
            forall|k: int| 0 <= k < i ==> (#[trigger] out@[k])@ == targets@[k]@,
        decreases targets.len() - i,
    {
        out.push(targets[i].clone());
        i += 1;
    }
    assert(target_views(out@) =~= target_views(targets@));
    out
}

/// A copy of a list of strings.
pub fn clone_strings(texts: &[String]) -> (r: Vec<String>)
    ensures
        string_views(r@) == string_views(texts@),
{
    let mut out: Vec<String> = Vec::new();
    let mut i: usize = 0;
    while i < texts.len()
        invariant
            i <= texts.len(),
            out.len() == i,
            forall|k: int| 0 <= k < i ==> (#[trigger] out@[k])@ == texts@[k]@,
        decreases texts.len() - i,
    {
        out.push(texts[i].clone());
        i += 1;
    }
    assert(string_views(out@) =~= string_views(texts@));
    out
}

/// A manifest as plain values.
pub struct ManifestView {
    pub summary: SummaryView,
    pub authors: Seq<Seq<char>>,
    pub targets: Seq<TargetView>,
    pub target_dir: Seq<char>,
    pub sources: Seq<SourceIdView>,
}

/// What the declaration file of a package says, once it is read and found
/// sound.
#[derive(Debug, PartialEq, Eq)]
pub struct Manifest {
    summary: Summary,
    authors: Vec<String>,
    targets: Vec<Target>,
    target_dir: String,
    sources: Vec<SourceId>,
}

impl View for Manifest {
    type V = ManifestView;

    closed spec fn view(&self) -> ManifestView {
        ManifestView {
            summary: self.summary@,
            authors: string_views(self.authors@),
            targets: target_views(self.targets@),
            target_dir: self.target_dir@,
            sources: source_views(self.sources@),
        }
    }
}

impl Manifest {
    /// The manifest of the package that `summary` describes.
    pub fn new(
        summary: &Summary,
        targets: &[Target],
        target_dir: &str,
        sources: &[SourceId],
        authors: &[String],
    ) -> (r: Manifest)
        ensures
            r@ == (ManifestView {
                summary: summary@,
                authors: string_views(authors@),
                targets: target_views(targets@),
                target_dir: target_dir@,
                sources: source_views(sources@),
            }),
    {
        Manifest {
            summary: summary.clone(),
            authors: clone_strings(authors),
            targets: clone_targets(targets),
            target_dir: String::from_str(target_dir),
            sources: clone_sources(sources),
        }
    }

    pub fn get_summary(&self) -> (r: &Summary)
        ensures
            r@ == self@.summary,
    {
        &self.summary
    }

    pub fn get_package_id(&self) -> (r: &PackageId)
        ensures
            r@ == self@.summary.package_id,
    {
        self.summary.get_package_id()
    }

    pub fn get_name(&self) -> (r: &str)
        ensures
            r@ == self@.summary.package_id.name,
    {
        self.summary.get_name()
    }

    pub fn get_dependencies(&self) -> (r: &[Dependency])
        ensures
            crate::dependency::dependency_views(r@) == self@.summary.dependencies,
    {
        self.summary.get_dependencies()
    }

    pub fn get_authors(&self) -> (r: &[String])
        ensures
            string_views(r@) == self@.authors,
    {
        self.authors.as_slice()
    }

    pub fn get_targets(&self) -> (r: &[Target])
        ensures
            target_views(r@) == self@.targets,
    {
        self.targets.as_slice()
    }

    /// The directory that the outputs go to, seen from the root of the
    /// package.
    pub fn get_target_dir(&self) -> (r: &str)
        ensures
            r@ == self@.target_dir,
    {
        self.target_dir.as_str()
    }

    pub fn get_sources(&self) -> (r: &[SourceId])
        ensures
            source_views(r@) == self@.sources,
    {
        self.sources.as_slice()
    }
}

impl Clone for Manifest {
    fn clone(&self) -> (r: Manifest)
        ensures
            r@ == self@,
    {
        Manifest {
            summary: self.summary.clone(),
            authors: clone_strings(self.authors.as_slice()),
            targets: clone_targets(self.targets.as_slice()),
            target_dir: self.target_dir.clone(),
            sources: clone_sources(self.sources.as_slice()),
        }
    }
}

} // verus!
